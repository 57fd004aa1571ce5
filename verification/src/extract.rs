//! Reading a bundle's tables, and deciding what is written out for each of
//! its assets.

use crate::cache::IdCache;
use crate::codec::in_range;
use crate::error::ExtractError;
use crate::pndb::Pndb;
use crate::structs::{
    bundle_slice, read_bundle, read_sidecar, sidecar_slice, source_bytes, Bundle, DataHeader,
    DataReaders, DataType, DataTypes, Header, Id, MinimizedIdHeader, DATA_HEADER_SIZE,
    DATA_TYPE_GAP, DATA_TYPE_SIZE, HEADER_SIZE,
};
use crate::text::{
    decimal_text, hex_numeral, push_char, push_decimal, push_hex_fixed, push_text,
};
use crate::types::string::{extract_strings, json_bytes_of, string_table};
use crate::types::texture::{extract_texture, texture_bytes};
use crate::types::unit::{extract_model, mesh_records, ObjRecord};
use crate::types::wwise::{bank_allowed, extract_bank, extract_wem};
use vstd::prelude::*;

verus! {

/// The distance from one entry of the type table to the next.
pub const DATA_TYPE_STEP: usize = 32;

/// Where the asset headers start in a bundle whose type table has `count`
/// entries: after the container header and the table, whose entries are
/// eight bytes apart.
pub open spec fn headers_start(count: nat) -> int {
    if count == 0 {
        HEADER_SIZE as int
    } else {
        HEADER_SIZE + DATA_TYPE_STEP * count - DATA_TYPE_GAP
    }
}

/// The type table of a bundle with `count` types, if the bundle holds all of
/// it.
pub open spec fn types_at(s: Seq<u8>, count: nat) -> Option<Seq<DataType>> {
    if count == 0 || in_range(
        s.len(),
        HEADER_SIZE + DATA_TYPE_STEP * (count - 1),
        DATA_TYPE_SIZE as int,
    ) {
        Some(Seq::new(count, |i: int| DataType::at(s, HEADER_SIZE + DATA_TYPE_STEP * i)))
    } else {
        None
    }
}

/// The number of assets that a type table announces.
pub open spec fn sum_counts(types: Seq<DataType>) -> nat
    decreases types.len(),
{
    if types.len() == 0 {
        0
    } else {
        sum_counts(types.drop_last()) + types.last().data_count as nat
    }
}

/// The asset headers of a bundle with the type table `types`, if the bundle
/// holds all of them: one flat list, the assets of the first type first.
pub open spec fn headers_at(s: Seq<u8>, types: Seq<DataType>) -> Option<Seq<DataHeader>> {
    let start = headers_start(types.len());
    let total = sum_counts(types);
    if in_range(s.len(), start, DATA_HEADER_SIZE * total) {
        Some(Seq::new(total, |i: int| DataHeader::at(s, start + DATA_HEADER_SIZE * i)))
    } else {
        None
    }
}

/// Reads the type table of a bundle, which follows the container header. A
/// bundle that ends before its last entry does is rejected.
pub fn read_types(data: &[u8], h: Header) -> (r: Result<Vec<DataType>, ExtractError>)
    ensures
        match r {
            Ok(types) => types_at(data@, h.type_count as nat) == Some(types@),
            Err(e) => e == ExtractError::Format && types_at(data@, h.type_count as nat) is None,
        },
{
    let count: u32 = h.type_count;
    let mut types: Vec<DataType> = Vec::new();
    if count == 0 {
        assert(types@ =~= types_at(data@, 0).unwrap());
        return Ok(types);
    }
    let len: u64 = data.len() as u64;
    let last: u64 = 80 + 32 * (count as u64 - 1);
    if last > len || len - last < 24 {
        return Err(ExtractError::Format);
    }
    let mut i: u32 = 0;
    while i < count
        invariant
            i <= count,
            0 < count,
            data@.len() <= usize::MAX,
            in_range(
                data@.len(),
                HEADER_SIZE + DATA_TYPE_STEP * (count - 1),
                DATA_TYPE_SIZE as int,
            ),
            types@ == Seq::new(
                i as nat,
                |j: int| DataType::at(data@, HEADER_SIZE + DATA_TYPE_STEP * j),
            ),
        decreases count - i,
    {
        let at: usize = (80 + 32 * (i as u64)) as usize;
        types.push(DataType::parse(data, at).unwrap());
        i = i + 1;
        assert(types@ =~= Seq::new(
            i as nat,
            |j: int| DataType::at(data@, HEADER_SIZE + DATA_TYPE_STEP * j),
        ));
    }
    Ok(types)
}

/// Adding an entry to a type table adds its count to the sum.
pub proof fn lemma_sum_counts_step(types: Seq<DataType>, n: int)
    requires
        0 <= n < types.len(),
    ensures
        sum_counts(types.take(n + 1)) == sum_counts(types.take(n)) + types[n].data_count,
{
    assert(types.take(n + 1).drop_last() =~= types.take(n));
}

/// The sum over a part of a type table is no more than the sum over all of
/// it.
pub proof fn lemma_sum_counts_grows(types: Seq<DataType>, n: int)
    requires
        0 <= n <= types.len(),
    ensures
        sum_counts(types.take(n)) <= sum_counts(types),
    decreases types.len() - n,
{
    if n < types.len() {
        lemma_sum_counts_step(types, n);
        lemma_sum_counts_grows(types, n + 1);
    } else {
        assert(types.take(n) =~= types);
    }
}

/// The number of assets that a type table announces, if it is no more than
/// `limit`.
fn count_assets(t: &Vec<DataType>, limit: u64) -> (r: Option<u64>)
    ensures
        r == if sum_counts(t@) <= limit {
            Some(sum_counts(t@) as u64)
        } else {
            None
        },
{
    let mut total: u64 = 0;
    let mut k: usize = 0;
    assert(t@.take(0) =~= Seq::<DataType>::empty());
    while k < t.len()
        invariant
            k <= t.len(),
            total == sum_counts(t@.take(k as int)),
            total <= limit,
        decreases t.len() - k,
    {
        let n = t[k].data_count;
        proof {
            lemma_sum_counts_step(t@, k as int);
            lemma_sum_counts_grows(t@, k + 1);
        }
        if n > limit - total {
            return None;
        }
        total = total + n;
        k = k + 1;
    }
    assert(t@.take(t@.len() as int) =~= t@);
    Some(total)
}

/// Reads the asset headers of a bundle, which follow its type table: for
/// each entry of the table, in the table's order, as many headers as the
/// entry announces. A bundle that ends before the last of them does is
/// rejected.
pub fn read_data_headers(data: &[u8], t: &Vec<DataType>) -> (r: Result<Vec<DataHeader>, ExtractError>)
    ensures
        match r {
            Ok(headers) => headers_at(data@, t@) == Some(headers@) && headers@.len()
                == sum_counts(t@),
            Err(e) => e == ExtractError::Format && headers_at(data@, t@) is None,
        },
{
    let len: u64 = data.len() as u64;
    let types: u64 = t.len() as u64;
    let start: u64 = if types == 0 {
        80
    } else {
        if types > (u64::MAX - 72) / 32 {
            return Err(ExtractError::Format);
        }
        72 + 32 * types
    };
    if start > len {
        return Err(ExtractError::Format);
    }
    let room: u64 = (len - start) / 80;
    let total: u64 = match count_assets(t, room) {
        Some(n) => n,
        None => {
            return Err(ExtractError::Format);
        },
    };
    let mut headers: Vec<DataHeader> = Vec::new();
    let mut i: u64 = 0;
    while i < total
        invariant
            i <= total,
            data@.len() <= usize::MAX,
            start == headers_start(t@.len()),
            total == sum_counts(t@),
            in_range(data@.len(), start as int, DATA_HEADER_SIZE * total),
            headers@ == Seq::new(
                i as nat,
                |j: int| DataHeader::at(data@, start + DATA_HEADER_SIZE * j),
            ),
        decreases total - i,
    {
        let at: usize = (start + 80 * i) as usize;
        headers.push(DataHeader::parse(data, at).unwrap());
        i = i + 1;
        assert(headers@ =~= Seq::new(
            i as nat,
            |j: int| DataHeader::at(data@, start + DATA_HEADER_SIZE * j),
        ));
    }
    Ok(headers)
}

/// The flat list of asset headers is grouped by type in the order of the
/// type table: the headers of the type of index `k` are the run that starts
/// after those of the types before it and is as long as the type announces,
/// and that run lies inside the list.
pub proof fn lemma_headers_grouped(s: Seq<u8>, types: Seq<DataType>, k: int, j: int)
    requires
        headers_at(s, types) is Some,
        0 <= k < types.len(),
        0 <= j < types[k].data_count,
    ensures
        headers_at(s, types).unwrap().len() == sum_counts(types),
        sum_counts(types.take(k)) + j < sum_counts(types),
        headers_at(s, types).unwrap()[sum_counts(types.take(k)) + j] == DataHeader::at(
            s,
            headers_start(types.len()) + DATA_HEADER_SIZE * (sum_counts(types.take(k)) + j),
        ),
{
    lemma_sum_counts_step(types, k);
    lemma_sum_counts_grows(types, k + 1);
}

impl Bundle {
    /// The tables of the bundle `s`, if it is well formed: the header must
    /// be there and carry the magic number, and the type table and the
    /// asset headers must lie inside the bundle.
    pub open spec fn found(s: Seq<u8>) -> Option<(Header, Seq<DataType>, Seq<DataHeader>)> {
        if !Header::present(s) {
            None
        } else {
            match types_at(s, Header::at(s).type_count as nat) {
                None => None,
                Some(types) => match headers_at(s, types) {
                    None => None,
                    Some(headers) => Some((Header::at(s), types, headers)),
                },
            }
        }
    }

    /// Reads the header, the type table and the asset headers of a bundle.
    pub fn parse(data: &[u8]) -> (r: Result<Bundle, ExtractError>)
        ensures
            match r {
                Ok(b) => Bundle::found(data@) matches Some(tables) && tables.0 == b.header
                    && tables.1 == b.data_types@ && tables.2 == b.data_headers@
                    && b.data_headers@.len() == sum_counts(
                    b.data_types@,
                ),
                Err(e) => e == ExtractError::Format && Bundle::found(data@) is None,
            },
    {
        let header = match Header::parse(data) {
            Ok(h) => h,
            Err(e) => {
                return Err(e);
            },
        };
        let data_types = match read_types(data, header) {
            Ok(t) => t,
            Err(e) => {
                return Err(e);
            },
        };
        let data_headers = match read_data_headers(data, &data_types) {
            Ok(h) => h,
            Err(e) => {
                return Err(e);
            },
        };
        Ok(Bundle { header, data_types, data_headers })
    }
}

/// What is written into one output file: bytes, or the records of a text
/// mesh.
#[derive(Debug)]
pub enum Payload {
    Bytes(Vec<u8>),
    Mesh(Vec<ObjRecord>),
}

/// What a [`Payload`] holds, as mathematical values.
pub enum PayloadModel {
    Bytes(Seq<u8>),
    Mesh(Seq<ObjRecord>),
}

impl View for Payload {
    type V = PayloadModel;

    open spec fn view(&self) -> PayloadModel {
        match self {
            Payload::Bytes(b) => PayloadModel::Bytes(b@),
            Payload::Mesh(m) => PayloadModel::Mesh(m@),
        }
    }
}

/// One file to write: where it goes below the output folder, and what goes
/// into it.
///
/// The file stands in `folder`, or in `subfolder` below it where there is
/// one. Its name is `name` with its extension, if it has one, replaced by
/// `extension`.
#[derive(Debug)]
pub struct OutputFile {
    pub folder: String,
    pub subfolder: Option<String>,
    pub name: String,
    pub extension: String,
    pub payload: Payload,
}

/// What an [`OutputFile`] holds, as mathematical values.
pub struct OutputFileModel {
    pub folder: Seq<char>,
    pub subfolder: Option<Seq<char>>,
    pub name: Seq<char>,
    pub extension: Seq<char>,
    pub payload: PayloadModel,
}

/// The text of an optional string.
pub open spec fn text_of(s: Option<String>) -> Option<Seq<char>> {
    match s {
        Some(t) => Some(t@),
        None => None,
    }
}

impl View for OutputFile {
    type V = OutputFileModel;

    open spec fn view(&self) -> OutputFileModel {
        OutputFileModel {
            folder: self.folder@,
            subfolder: text_of(self.subfolder),
            name: self.name@,
            extension: self.extension@,
            payload: self.payload@,
        }
    }
}

/// The types that have a reconstructor of their own.
pub open spec fn is_special(t: DataTypes) -> bool {
    t == DataTypes::Texture || t == DataTypes::Unit || t == DataTypes::WwiseBNK || t
        == DataTypes::WwiseWem || t == DataTypes::String
}

/// The name that an asset has when nothing better is known: a number in
/// decimal, an underscore, and the asset's identifier.
pub open spec fn numbered_name(number: nat, id: Id) -> Seq<char> {
    decimal_text(number) + seq!['_'] + id.text()
}

/// The name of the file of a reconstructed asset: the name that the
/// reconstructor proposes; failing that, the name that the name database has
/// for the asset; failing that, the asset's `unk4c` and identifier.
pub open spec fn special_name(
    d: DataHeader,
    proposed: Option<Seq<char>>,
    names: Map<u64, Seq<char>>,
) -> Seq<char> {
    match proposed {
        Some(n) => n,
        None => if names.contains_key(d.unk_id._id) {
            names[d.unk_id._id]
        } else {
            numbered_name(d.unk4c as nat, d.unk_id)
        },
    }
}

/// The file of a reconstructed asset: it stands in the folder named after
/// the type that the asset's type identifier stands for, and has the
/// extension of the asset's type.
pub open spec fn special_file(
    d: DataHeader,
    names: Map<u64, Seq<char>>,
    payload: PayloadModel,
    proposed: Option<Seq<char>>,
) -> OutputFileModel {
    OutputFileModel {
        folder: DataTypes::of_code(d.type_id._id).name_text(),
        subfolder: None,
        name: special_name(d, proposed, names),
        extension: d.type_enum.extension_text(),
        payload,
    }
}

fn make_numbered_name(number: u64, id: Id) -> (r: String)
    ensures
        r@ == numbered_name(number as nat, id),
{
    let mut s = String::new();
    push_decimal(&mut s, number);
    push_char(&mut s, '_');
    push_hex_fixed(&mut s, id._id, 16);
    assert(s@ =~= numbered_name(number as nat, id));
    s
}

fn copy_text(t: &str) -> (r: String)
    ensures
        r@ == t@,
{
    let mut s = String::new();
    push_text(&mut s, t);
    assert(s@ =~= t@);
    s
}

/// Names and places the file of a reconstructed asset.
pub fn finish_special(d: &DataHeader, namedb: &Pndb, payload: Payload, proposed: Option<String>)
    -> (r: OutputFile)
    ensures
        r@ == special_file(*d, namedb@, payload@, text_of(proposed)),
{
    let name = match proposed {
        Some(n) => n,
        None => match namedb.name_of(d.unk_id._id) {
            Some(n) => n.clone(),
            None => make_numbered_name(d.unk4c as u64, d.unk_id),
        },
    };
    OutputFile {
        folder: copy_text(d.type_id.as_enum().name()),
        subfolder: None,
        name,
        extension: copy_text(d.type_enum.extension()),
        payload,
    }
}

/// Whether `res` is an outcome that the reconstruction of an asset with a
/// reconstructor of its own may have.
///
/// For a texture, a mesh and a stream item the outcome is fixed by the
/// sources. For a bank it is fixed up to the outcome of the lookup of the
/// bank's companion. For a string table it is fixed up to the order of the
/// members of the JSON object: the file holds the object that the
/// serializer writes for the table, and comes out exactly when the table
/// can be read.
pub open spec fn special_allowed(
    m: Map<u64, Seq<MinimizedIdHeader>>,
    scope: Id,
    d: DataHeader,
    bundle: Seq<u8>,
    stream: Option<Seq<u8>>,
    gpu: Option<Seq<u8>>,
    names: Map<u64, Seq<char>>,
    res: Result<OutputFile, ExtractError>,
) -> bool {
    match d.type_enum {
        DataTypes::Texture => match texture_bytes(bundle, stream, gpu, d) {
            Err(e) => res == Err::<OutputFile, ExtractError>(e),
            Ok(bytes) => res matches Ok(f) && f@ == special_file(
                d,
                names,
                PayloadModel::Bytes(bytes),
                None,
            ),
        },
        DataTypes::Unit => match mesh_records(bundle, gpu, d) {
            Err(e) => res == Err::<OutputFile, ExtractError>(e),
            Ok(records) => res matches Ok(f) && f@ == special_file(
                d,
                names,
                PayloadModel::Mesh(records),
                None,
            ),
        },
        DataTypes::WwiseWem => match d.stream_buf(stream) {
            Err(e) => res == Err::<OutputFile, ExtractError>(e),
            Ok(bytes) => res matches Ok(f) && f@ == special_file(
                d,
                names,
                PayloadModel::Bytes(bytes),
                None,
            ),
        },
        DataTypes::WwiseBNK => exists|bank: Result<(Vec<u8>, Option<String>), ExtractError>|
            #[trigger] bank_allowed(m, scope, bundle, stream, d, bank) && match bank {
                Err(e) => res == Err::<OutputFile, ExtractError>(e),
                Ok((bytes, name)) => res matches Ok(f) && f@ == special_file(
                    d,
                    names,
                    PayloadModel::Bytes(bytes@),
                    text_of(name),
                ),
            },
        DataTypes::String => match string_table(bundle, d) {
            None => res == Err::<OutputFile, ExtractError>(ExtractError::Format),
            Some(table) => {
                &&& res matches Ok(f)
                &&& f@.payload matches PayloadModel::Bytes(bytes)
                &&& json_bytes_of(table, bytes)
                &&& f@ == special_file(d, names, PayloadModel::Bytes(bytes), None)
            },
        },
        _ => false,
    }
}

/// Reconstructs an asset whose type has a reconstructor of its own, and
/// names and places its file. For an asset of any other type there is
/// nothing to do here, and the result is `None`.
pub fn export_special(
    cache: &IdCache,
    bundle_id: &Id,
    d: &DataHeader,
    readers: &DataReaders,
    namedb: &Pndb,
) -> (r: Option<Result<OutputFile, ExtractError>>)
    ensures
        r is Some <==> is_special(d.type_enum),
        r matches Some(res) ==> special_allowed(
            cache@,
            *bundle_id,
            *d,
            readers.0@,
            source_bytes(readers.1),
            source_bytes(readers.2),
            namedb@,
            res,
        ),
{
    match d.type_enum {
        DataTypes::Texture => Some(
            match extract_texture(d, readers) {
                Ok((bytes, name)) => Ok(finish_special(d, namedb, Payload::Bytes(bytes), name)),
                Err(e) => Err(e),
            },
        ),
        DataTypes::Unit => Some(
            match extract_model(cache, d, readers) {
                Ok((records, name)) => Ok(
                    finish_special(d, namedb, Payload::Mesh(records), name),
                ),
                Err(e) => Err(e),
            },
        ),
        DataTypes::WwiseWem => Some(
            match extract_wem(d, readers) {
                Ok((bytes, name)) => Ok(finish_special(d, namedb, Payload::Bytes(bytes), name)),
                Err(e) => Err(e),
            },
        ),
        DataTypes::WwiseBNK => {
            let bank = extract_bank(cache, bundle_id, d, readers);
            let ghost witness = bank;
            let res = match bank {
                Ok((bytes, name)) => Ok(finish_special(d, namedb, Payload::Bytes(bytes), name)),
                Err(e) => Err(e),
            };
            proof {
                assert(bank_allowed(
                    cache@,
                    *bundle_id,
                    readers.0@,
                    source_bytes(readers.1),
                    *d,
                    witness,
                ));
            }
            Some(res)
        },
        DataTypes::String => Some(
            match extract_strings(d, readers) {
                Ok((bytes, name)) => Ok(finish_special(d, namedb, Payload::Bytes(bytes), name)),
                Err(e) => Err(e),
            },
        ),
        _ => None,
    }
}

/// The folder of the files of an asset that is written out as it is: the
/// name of the asset's type, an underscore, and the type identifier.
pub open spec fn generic_folder(d: DataHeader) -> Seq<char> {
    DataTypes::of_code(d.type_id._id).name_text() + seq!['_'] + d.type_id.text()
}

/// One of the up to three files of an asset that is written out as it is.
/// `source` tells the files of one asset apart: `bundle`, `stream` or `gpu`.
pub open spec fn generic_file(
    d: DataHeader,
    names: Map<u64, Seq<char>>,
    number: nat,
    source: Seq<char>,
    bytes: Seq<u8>,
) -> OutputFileModel {
    OutputFileModel {
        folder: generic_folder(d),
        subfolder: if names.contains_key(d.unk_id._id) {
            Some(names[d.unk_id._id])
        } else {
            None
        },
        name: numbered_name(number, d.unk_id),
        extension: source + seq!['.'] + d.type_enum.extension_text(),
        payload: PayloadModel::Bytes(bytes),
    }
}

/// What one source gives to an asset that is written out as it is: nothing
/// where the asset's header names no bytes in it, and else the bytes that
/// the header names, or the reason why they cannot be had.
pub open spec fn generic_part(size: u32, slice: Result<Seq<u8>, ExtractError>) -> Result<
    Option<Seq<u8>>,
    ExtractError,
> {
    if size == 0 {
        Ok(None)
    } else {
        match slice {
            Ok(bytes) => Ok(Some(bytes)),
            Err(e) => Err(e),
        }
    }
}

/// The files that one part adds.
pub open spec fn part_files(
    d: DataHeader,
    names: Map<u64, Seq<char>>,
    number: nat,
    source: Seq<char>,
    part: Option<Seq<u8>>,
) -> Seq<OutputFileModel> {
    match part {
        Some(bytes) => seq![generic_file(d, names, number, source, bytes)],
        None => Seq::empty(),
    }
}

/// The files of an asset that is written out as it is: the ranges that its
/// header names in the bundle, in the stream sidecar and in the GPU sidecar,
/// each in a file of its own. The range in the bundle starts `adjust` bytes
/// after the offset in the header. A range that cannot be had makes the
/// asset fail, the first of them deciding how.
pub open spec fn generic_files(
    d: DataHeader,
    adjust: int,
    number: nat,
    bundle: Seq<u8>,
    stream: Option<Seq<u8>>,
    gpu: Option<Seq<u8>>,
    names: Map<u64, Seq<char>>,
) -> Result<Seq<OutputFileModel>, ExtractError> {
    match (
        generic_part(d.data_size, bundle_slice(bundle, d.data_offset + adjust, d.data_size as int)),
        generic_part(
            d.stream_data_size,
            sidecar_slice(stream, d.stream_data_offset as int, d.stream_data_size as int),
        ),
        generic_part(
            d.gpu_data_size,
            sidecar_slice(gpu, d.gpu_data_offset as int, d.gpu_data_size as int),
        ),
    ) {
        (Err(e), _, _) => Err(e),
        (Ok(_), Err(e), _) => Err(e),
        (Ok(_), Ok(_), Err(e)) => Err(e),
        (Ok(a), Ok(b), Ok(c)) => Ok(
            part_files(d, names, number, "bundle"@, a) + part_files(
                d,
                names,
                number,
                "stream"@,
                b,
            ) + part_files(d, names, number, "gpu"@, c),
        ),
    }
}

/// The files of a list, as mathematical values.
pub open spec fn files_view(files: Seq<OutputFile>) -> Seq<OutputFileModel> {
    Seq::new(files.len(), |i: int| files[i]@)
}

/// Whether an executable result holds the files, or the error, of `expected`.
pub open spec fn same_files(
    r: Result<Vec<OutputFile>, ExtractError>,
    expected: Result<Seq<OutputFileModel>, ExtractError>,
) -> bool {
    match (r, expected) {
        (Ok(files), Ok(models)) => files_view(files@) == models,
        (Err(e), Err(f)) => e == f,
        _ => false,
    }
}

fn make_generic_file(d: &DataHeader, namedb: &Pndb, number: u64, source: &str, bytes: Vec<u8>)
    -> (r: OutputFile)
    ensures
        r@ == generic_file(*d, namedb@, number as nat, source@, bytes@),
{
    let mut folder = String::new();
    push_text(&mut folder, d.type_id.as_enum().name());
    push_char(&mut folder, '_');
    push_hex_fixed(&mut folder, d.type_id._id, 16);
    assert(folder@ =~= generic_folder(*d));
    let subfolder = match namedb.name_of(d.unk_id._id) {
        Some(n) => Some(n.clone()),
        None => None,
    };
    let mut extension = String::new();
    push_text(&mut extension, source);
    push_char(&mut extension, '.');
    push_text(&mut extension, d.type_enum.extension());
    assert(extension@ =~= source@ + seq!['.'] + d.type_enum.extension_text());
    OutputFile {
        folder,
        subfolder,
        name: make_numbered_name(number, d.unk_id),
        extension,
        payload: Payload::Bytes(bytes),
    }
}

/// Cuts the files of an asset that has no reconstructor of its own out of
/// the sources.
pub fn extract_generic(
    d: &DataHeader,
    adjust: u32,
    number: u64,
    readers: &DataReaders,
    namedb: &Pndb,
) -> (r: Result<Vec<OutputFile>, ExtractError>)
    ensures
        same_files(
            r,
            generic_files(
                *d,
                adjust as int,
                number as nat,
                readers.0@,
                source_bytes(readers.1),
                source_bytes(readers.2),
                namedb@,
            ),
        ),
{
    let mut files: Vec<OutputFile> = Vec::new();
    let ghost mut models: Seq<OutputFileModel> = Seq::empty();
    assert(files_view(files@) =~= models);
    if d.data_size != 0 {
        let _len = readers.bundle().len();
        let at: u64 = match d.data_offset.checked_add(adjust as u64) {
            Some(at) => at,
            None => {
                return Err(ExtractError::Format);
            },
        };
        match read_bundle(readers.bundle(), at, d.data_size as u64) {
            Ok(bytes) => {
                let f = make_generic_file(d, namedb, number, "bundle", bytes);
                proof {
                    models = models.push(f@);
                }
                files.push(f);
                assert(files_view(files@) =~= models);
            },
            Err(e) => {
                return Err(e);
            },
        }
    }
    if d.stream_data_size != 0 {
        match read_sidecar(
            readers.stream(),
            d.stream_data_offset as u64,
            d.stream_data_size as u64,
        ) {
            Ok(bytes) => {
                let f = make_generic_file(d, namedb, number, "stream", bytes);
                proof {
                    models = models.push(f@);
                }
                files.push(f);
                assert(files_view(files@) =~= models);
            },
            Err(e) => {
                return Err(e);
            },
        }
    }
    if d.gpu_data_size != 0 {
        match read_sidecar(readers.gpu(), d.gpu_data_offset, d.gpu_data_size as u64) {
            Ok(bytes) => {
                let f = make_generic_file(d, namedb, number, "gpu", bytes);
                proof {
                    models = models.push(f@);
                }
                files.push(f);
                assert(files_view(files@) =~= models);
            },
            Err(e) => {
                return Err(e);
            },
        }
    }
    proof {
        let expected = generic_files(
            *d,
            adjust as int,
            number as nat,
            readers.0@,
            source_bytes(readers.1),
            source_bytes(readers.2),
            namedb@,
        );
        assert(expected is Ok);
        assert(models =~= expected->Ok_0);
    }
    Ok(files)
}

/// Whether `res` is an outcome that the extraction of one asset may have.
///
/// An asset whose type has a reconstructor of its own gives the one file of
/// that reconstructor. Any other asset is written out as it is; `adjust` is
/// then the adjustment that the type table has for the asset's type, and an
/// asset with bytes in the bundle whose type the table does not hold is
/// malformed.
pub open spec fn asset_allowed(
    m: Map<u64, Seq<MinimizedIdHeader>>,
    scope: Id,
    d: DataHeader,
    adjust: Option<u32>,
    number: nat,
    bundle: Seq<u8>,
    stream: Option<Seq<u8>>,
    gpu: Option<Seq<u8>>,
    names: Map<u64, Seq<char>>,
    res: Result<Vec<OutputFile>, ExtractError>,
) -> bool {
    if is_special(d.type_enum) {
        exists|one: Result<OutputFile, ExtractError>|
            #[trigger] special_allowed(m, scope, d, bundle, stream, gpu, names, one) && match one {
                Ok(f) => res matches Ok(files) && files@ == seq![f],
                Err(e) => res == Err::<Vec<OutputFile>, ExtractError>(e),
            }
    } else {
        match adjust {
            None if d.data_size != 0 => res == Err::<Vec<OutputFile>, ExtractError>(
                ExtractError::Format,
            ),
            _ => same_files(
                res,
                generic_files(
                    d,
                    match adjust {
                        Some(a) => a as int,
                        None => 0,
                    },
                    number,
                    bundle,
                    stream,
                    gpu,
                    names,
                ),
            ),
        }
    }
}

/// Extracts one asset: through the reconstructor of its type where the type
/// has one, as it is otherwise.
pub fn extract_asset(
    cache: &IdCache,
    bundle_id: &Id,
    d: &DataHeader,
    adjust: Option<u32>,
    number: u64,
    readers: &DataReaders,
    namedb: &Pndb,
) -> (r: Result<Vec<OutputFile>, ExtractError>)
    ensures
        asset_allowed(
            cache@,
            *bundle_id,
            *d,
            adjust,
            number as nat,
            readers.0@,
            source_bytes(readers.1),
            source_bytes(readers.2),
            namedb@,
            r,
        ),
{
    match export_special(cache, bundle_id, d, readers, namedb) {
        Some(one) => {
            let ghost witness = one;
            let res = match one {
                Ok(f) => {
                    let mut files: Vec<OutputFile> = Vec::new();
                    files.push(f);
                    assert(files@ =~= seq![f]);
                    Ok(files)
                },
                Err(e) => Err(e),
            };
            proof {
                assert(special_allowed(
                    cache@,
                    *bundle_id,
                    *d,
                    readers.0@,
                    source_bytes(readers.1),
                    source_bytes(readers.2),
                    namedb@,
                    witness,
                ));
            }
            res
        },
        None => {
            match adjust {
                Some(a) => extract_generic(d, a, number, readers, namedb),
                None => {
                    if d.data_size != 0 {
                        Err(ExtractError::Format)
                    } else {
                        extract_generic(d, 0, number, readers, namedb)
                    }
                },
            }
        },
    }
}

/// Extracts the asset that a lookup in the index has found, from the
/// sources of the bundle that holds it.
///
/// The asset's header is rebuilt from its minimized form. No bundle scope is
/// given to lookups, no adjustment is applied to the asset's place in the
/// bundle, and the asset's number in file names is its `unk4c`, which the
/// index does not keep and which is therefore zero.
pub fn extract_single(cache: &IdCache, h: MinimizedIdHeader, readers: &DataReaders, namedb: &Pndb)
    -> (r: Result<Vec<OutputFile>, ExtractError>)
    ensures
        asset_allowed(
            cache@,
            Id { _id: u64::MAX },
            DataHeader::of_minimized(h),
            Some(0u32),
            0,
            readers.0@,
            source_bytes(readers.1),
            source_bytes(readers.2),
            namedb@,
            r,
        ),
{
    let d = DataHeader::from(h);
    extract_asset(cache, &Id::invalid(), &d, Some(0), d.unk4c as u64, readers, namedb)
}

/// The adjustment that a type table has for a type: the `unk10` of the last
/// entry of that type, if there is one.
pub open spec fn type_adjust(types: Seq<DataType>, type_id: Id) -> Option<u32>
    decreases types.len(),
{
    if types.len() == 0 {
        None
    } else if types.last().type_id == type_id {
        Some(types.last().unk10)
    } else {
        type_adjust(types.drop_last(), type_id)
    }
}

/// Looks up the adjustment that a type table has for a type.
pub fn find_adjust(types: &Vec<DataType>, type_id: Id) -> (r: Option<u32>)
    ensures
        r == type_adjust(types@, type_id),
{
    let mut n: usize = types.len();
    assert(types@.take(n as int) =~= types@);
    while n > 0
        invariant
            n <= types.len(),
            type_adjust(types@, type_id) == type_adjust(types@.take(n as int), type_id),
        decreases n,
    {
        let t = types[n - 1];
        assert(types@.take(n as int).last() == t);
        assert(types@.take(n as int).drop_last() =~= types@.take(n - 1));
        if t.type_id == type_id {
            return Some(t.unk10);
        }
        n = n - 1;
    }
    None
}

/// Whether an asset passes the type filter of an extraction.
pub open spec fn selected(d: DataHeader, select: Option<DataTypes>) -> bool {
    select matches Some(t) ==> DataTypes::of_code(d.type_id._id) == t
}

/// An asset header with its type decoded.
pub open spec fn typed(d: DataHeader) -> DataHeader {
    DataHeader { type_enum: DataTypes::of_code(d.type_id._id), ..d }
}

/// Whether some asset of the list passes the type filter.
pub open spec fn any_selected(headers: Seq<DataHeader>, select: Option<DataTypes>) -> bool {
    exists|i: int| 0 <= i < headers.len() && selected(#[trigger] headers[i], select)
}

/// What the extraction of a bundle gives for each of its assets: nothing
/// for an asset that the type filter leaves out, and else the asset's files
/// or the reason why it has none.
pub type AssetOutcomes = Vec<Option<Result<Vec<OutputFile>, ExtractError>>>;

/// Whether `outcome` is what the extraction of a bundle may give for the
/// asset of index `i`.
pub open spec fn outcome_allowed(
    m: Map<u64, Seq<MinimizedIdHeader>>,
    name: Seq<char>,
    select: Option<DataTypes>,
    types: Seq<DataType>,
    headers: Seq<DataHeader>,
    i: int,
    bundle: Seq<u8>,
    stream: Option<Seq<u8>>,
    gpu: Option<Seq<u8>>,
    names: Map<u64, Seq<char>>,
    outcome: Option<Result<Vec<OutputFile>, ExtractError>>,
) -> bool {
    match outcome {
        None => !selected(headers[i], select),
        Some(res) => {
            &&& selected(headers[i], select)
            &&& hex_numeral(name) matches Some(id)
            &&& asset_allowed(
                m,
                Id { _id: id },
                typed(headers[i]),
                type_adjust(types, headers[i].type_id),
                i as nat,
                bundle,
                stream,
                gpu,
                names,
                res,
            )
        },
    }
}

/// Extracts the assets of a bundle.
///
/// The bundle's name is its identifier in hexadecimal, and is the scope of
/// the lookups that its assets make. Every asset that passes the type filter
/// is extracted by itself: one that fails does not keep the others from
/// being extracted. The whole bundle fails only where its tables cannot be
/// read, or where an asset is to be extracted and the bundle's name is no
/// identifier.
pub fn extract_files(
    cache: &IdCache,
    bundle_file: &str,
    select_type: Option<DataTypes>,
    readers: &DataReaders,
    namedb: &Pndb,
) -> (r: Result<AssetOutcomes, ExtractError>)
    ensures
        match r {
            Ok(outcomes) => {
                &&& Bundle::found(readers.0@) matches Some(tables)
                &&& outcomes@.len() == tables.2.len()
                &&& forall|i: int|
                0 <= i < outcomes@.len() ==> outcome_allowed(
                    cache@,
                    bundle_file@,
                    select_type,
                    tables.1,
                    tables.2,
                    i,
                    readers.0@,
                    source_bytes(readers.1),
                    source_bytes(readers.2),
                    namedb@,
                    #[trigger] outcomes@[i],
                )
            },
            Err(e) => {
                &&& e == ExtractError::Format
                &&& Bundle::found(readers.0@) matches Some(tables) ==> hex_numeral(
                    bundle_file@,
                ) is None && any_selected(tables.2, select_type)
            },
        },
{
    let bundle = match Bundle::parse(readers.bundle().as_slice()) {
        Ok(b) => b,
        Err(e) => {
            return Err(e);
        },
    };
    let scope = Id::parse(bundle_file);
    let mut outcomes: AssetOutcomes = Vec::new();
    let mut i: usize = 0;
    while i < bundle.data_headers.len()
        invariant
            i <= bundle.data_headers@.len(),
            Bundle::found(readers.0@) is Some,
            Bundle::found(readers.0@).unwrap().1 == bundle.data_types@,
            Bundle::found(readers.0@).unwrap().2 == bundle.data_headers@,
            scope == match hex_numeral(bundle_file@) {
                Some(v) => Some(Id { _id: v }),
                None => None,
            },
            outcomes@.len() == i,
            forall|k: int|
                0 <= k < i ==> outcome_allowed(
                    cache@,
                    bundle_file@,
                    select_type,
                    bundle.data_types@,
                    bundle.data_headers@,
                    k,
                    readers.0@,
                    source_bytes(readers.1),
                    source_bytes(readers.2),
                    namedb@,
                    #[trigger] outcomes@[k],
                ),
        decreases bundle.data_headers@.len() - i,
    {
        let mut d = bundle.data_headers[i];
        d.type_enum = d.type_id.as_enum();
        assert(d == typed(bundle.data_headers@[i as int]));
        let wanted = match select_type {
            Some(t) => d.type_enum == t,
            None => true,
        };
        let ghost before = outcomes@;
        if !wanted {
            outcomes.push(None);
        } else {
            let id = match scope {
                Some(id) => id,
                None => {
                    assert(selected(bundle.data_headers@[i as int], select_type));
                    return Err(ExtractError::Format);
                },
            };
            let adjust = find_adjust(&bundle.data_types, d.type_id);
            let res = extract_asset(cache, &id, &d, adjust, i as u64, readers, namedb);
            outcomes.push(Some(res));
        }
        assert(forall|k: int| 0 <= k < i ==> outcomes@[k] == before[k]);
        i = i + 1;
    }
    Ok(outcomes)
}

/// Whether a name found in the data folder is that of a bundle: it has no
/// dot in it, and is not `game`.
pub open spec fn bundle_name(name: Seq<char>) -> bool {
    !name.contains('.') && name != seq!['g', 'a', 'm', 'e']
}

/// Tells the bundles among the names found in the data folder.
pub fn is_bundle_name(name: &str) -> (r: bool)
    ensures
        r == bundle_name(name@),
{
    let n = name.unicode_len();
    let mut i: usize = 0;
    while i < n
        invariant
            i <= n,
            n == name@.len(),
            forall|j: int| 0 <= j < i ==> name@[j] != '.',
        decreases n - i,
    {
        if name.get_char(i) == '.' {
            return false;
        }
        i = i + 1;
    }
    if n == 4 && name.get_char(0) == 'g' && name.get_char(1) == 'a' && name.get_char(2) == 'm'
        && name.get_char(3) == 'e' {
        assert(name@ =~= seq!['g', 'a', 'm', 'e']);
        return false;
    }
    true
}

/// The minimized forms of a list of asset headers.
pub open spec fn minimized_list(headers: Seq<DataHeader>) -> Seq<MinimizedIdHeader> {
    Seq::new(headers.len(), |i: int| headers[i].minimized())
}

/// The index `m` after the bundle `data` of name `name` was added to it.
///
/// A name that is not that of a bundle, or that is no identifier, and a
/// bundle whose tables cannot be read, leave the index as it is. Any other
/// bundle gets, under its identifier, the minimized headers of its assets
/// in their order, in place of what the index had under that identifier.
pub open spec fn indexed(m: Map<u64, Seq<MinimizedIdHeader>>, name: Seq<char>, data: Seq<u8>)
    -> Map<u64, Seq<MinimizedIdHeader>> {
    if !bundle_name(name) {
        m
    } else {
        match (hex_numeral(name), Bundle::found(data)) {
            (Some(id), Some(tables)) => m.insert(id, minimized_list(tables.2)),
            _ => m,
        }
    }
}

/// Adds one bundle to the index. The result tells whether the bundle was
/// added.
pub fn index_bundle(cache: &mut IdCache, name: &str, data: &[u8]) -> (r: bool)
    ensures
        final(cache)@ == indexed(old(cache)@, name@, data@),
        r == (bundle_name(name@) && hex_numeral(name@) is Some && Bundle::found(data@) is Some),
{
    broadcast use vstd::std_specs::hash::group_hash_axioms;

    if !is_bundle_name(name) {
        return false;
    }
    let id = match Id::parse(name) {
        Some(id) => id,
        None => {
            return false;
        },
    };
    let bundle = match Bundle::parse(data) {
        Ok(b) => b,
        Err(_) => {
            return false;
        },
    };
    let mut list: Vec<MinimizedIdHeader> = Vec::new();
    let mut i: usize = 0;
    while i < bundle.data_headers.len()
        invariant
            i <= bundle.data_headers@.len(),
            list@ == minimized_list(bundle.data_headers@.take(i as int)),
        decreases bundle.data_headers@.len() - i,
    {
        list.push(bundle.data_headers[i].minimize());
        i = i + 1;
        assert(list@ =~= minimized_list(bundle.data_headers@.take(i as int)));
    }
    assert(bundle.data_headers@.take(i as int) =~= bundle.data_headers@);
    let ghost before = cache@;
    cache.bundles.insert(id._id, list);
    assert(cache@ =~= before.insert(id._id, list@));
    true
}

/// The index of a list of bundles, each given by its name and its bytes.
pub open spec fn index_of(bundles: Seq<(Seq<char>, Seq<u8>)>) -> Map<u64, Seq<MinimizedIdHeader>>
    decreases bundles.len(),
{
    if bundles.len() == 0 {
        Map::empty()
    } else {
        indexed(index_of(bundles.drop_last()), bundles.last().0, bundles.last().1)
    }
}

/// The names and bytes of a list of files, as mathematical values.
pub open spec fn bundles_view(bundles: Seq<(String, Vec<u8>)>) -> Seq<(Seq<char>, Seq<u8>)> {
    Seq::new(bundles.len(), |i: int| (bundles[i].0@, bundles[i].1@))
}

/// Builds the identifier index of the files of a data folder, which are
/// added in their order.
pub fn build_id_cache(bundles: &Vec<(String, Vec<u8>)>) -> (r: IdCache)
    ensures
        r@ == index_of(bundles_view(bundles@)),
{
    let mut cache = IdCache::new();
    let mut i: usize = 0;
    assert(bundles_view(bundles@).take(0) =~= Seq::<(Seq<char>, Seq<u8>)>::empty());
    while i < bundles.len()
        invariant
            i <= bundles@.len(),
            cache@ == index_of(bundles_view(bundles@).take(i as int)),
        decreases bundles@.len() - i,
    {
        let added = index_bundle(&mut cache, bundles[i].0.as_str(), bundles[i].1.as_slice());
        proof {
            let all = bundles_view(bundles@);
            assert(all.take(i + 1).drop_last() =~= all.take(i as int));
            assert(all.take(i + 1).last() == all[i as int]);
        }
        i = i + 1;
    }
    assert(bundles_view(bundles@).take(i as int) =~= bundles_view(bundles@));
    cache
}

} // verus!

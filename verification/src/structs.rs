//! The data model of a bundle: identifiers, the asset types, the container
//! header, the type table, the asset headers, and the in-memory sources that
//! the reconstructors read from.

use crate::codec::{
    fits, get_u128, get_u32, get_u64, in_range, le_bytes, read_slice, read_u32, read_u64,
    slice_in, u128_at, u32_at, u32_in, u64_at, write_u32_le, write_u64_le,
};
use crate::error::ExtractError;
use crate::text::{hex_fixed, hex_numeral, parse_hex, push_hex_fixed};
use std::collections::HashMap;
use vstd::prelude::*;

verus! {

/// The number that opens every bundle.
pub const BUNDLE_MAGIC: u32 = 0xF000_0011;

/// The size of the container header, magic number included.
pub const HEADER_SIZE: usize = 80;

/// The size of one entry of the type table.
pub const DATA_TYPE_SIZE: usize = 24;

/// The gap that follows every entry of the type table but the last.
pub const DATA_TYPE_GAP: usize = 8;

/// The size of one asset header inside a bundle.
pub const DATA_HEADER_SIZE: usize = 80;

/// The size of one asset header inside the persisted identifier index.
pub const MINIMIZED_HEADER_SIZE: usize = 48;

/// The asset types that are told apart.
#[derive(Clone, Copy, Debug, PartialEq, Eq, Structural)]
pub enum DataTypes {
    Unknown,
    WwiseWem,
    WwiseBNK,
    Texture,
    Unit,
    String,
    WwiseDep,
    WwiseMetadata,
    WwiseProperties,
}

impl DataTypes {
    /// The type identifier that stands for this type inside a bundle.
    pub open spec fn code(self) -> u64 {
        match self {
            DataTypes::Unknown => 0xFFFF_FFFF_FFFF_FFFF,
            DataTypes::WwiseWem => 0x504b_5523_5d21_440e,
            DataTypes::WwiseBNK => 0x535A_7BD3_E650_D799,
            DataTypes::Texture => 0xCD42_38C6_A0C6_9E32,
            DataTypes::Unit => 0xE0A4_8D0B_E9A7_453F,
            DataTypes::String => 0x0D97_2BAB_10B4_0FD3,
            DataTypes::WwiseDep => 0xAF32_095C_82F2_B070,
            DataTypes::WwiseMetadata => 0xD50A_8B7E_1C82_B110,
            DataTypes::WwiseProperties => 0x5FDD_5FE3_9107_6F9F,
        }
    }

    /// The type that a type identifier stands for; `Unknown` for every
    /// identifier that stands for none.
    pub open spec fn of_code(code: u64) -> DataTypes {
        if code == 0x504b_5523_5d21_440e {
            DataTypes::WwiseWem
        } else if code == 0x535A_7BD3_E650_D799 {
            DataTypes::WwiseBNK
        } else if code == 0xCD42_38C6_A0C6_9E32 {
            DataTypes::Texture
        } else if code == 0xE0A4_8D0B_E9A7_453F {
            DataTypes::Unit
        } else if code == 0x0D97_2BAB_10B4_0FD3 {
            DataTypes::String
        } else if code == 0xAF32_095C_82F2_B070 {
            DataTypes::WwiseDep
        } else if code == 0xD50A_8B7E_1C82_B110 {
            DataTypes::WwiseMetadata
        } else if code == 0x5FDD_5FE3_9107_6F9F {
            DataTypes::WwiseProperties
        } else {
            DataTypes::Unknown
        }
    }

    /// The file extension of an asset of this type once it is written out.
    pub open spec fn extension_text(self) -> Seq<char> {
        match self {
            DataTypes::WwiseWem => "wem"@,
            DataTypes::WwiseBNK => "bnk"@,
            DataTypes::Texture => "dds"@,
            DataTypes::Unit => "obj"@,
            DataTypes::String => "json"@,
            _ => "bin"@,
        }
    }

    /// The name of the type, as it appears in output folder names.
    pub open spec fn name_text(self) -> Seq<char> {
        match self {
            DataTypes::Unknown => "Unknown"@,
            DataTypes::WwiseWem => "WwiseWem"@,
            DataTypes::WwiseBNK => "WwiseBNK"@,
            DataTypes::Texture => "Texture"@,
            DataTypes::Unit => "Unit"@,
            DataTypes::String => "String"@,
            DataTypes::WwiseDep => "WwiseDep"@,
            DataTypes::WwiseMetadata => "WwiseMetadata"@,
            DataTypes::WwiseProperties => "WwiseProperties"@,
        }
    }

    /// The file extension of an asset of this type once it is written out.
    pub fn extension(&self) -> (r: &'static str)
        ensures
            r@ == self.extension_text(),
    {
        match self {
            DataTypes::WwiseWem => "wem",
            DataTypes::WwiseBNK => "bnk",
            DataTypes::Texture => "dds",
            DataTypes::Unit => "obj",
            DataTypes::String => "json",
            _ => "bin",
        }
    }

    /// The name of the type, as it appears in output folder names.
    pub fn name(&self) -> (r: &'static str)
        ensures
            r@ == self.name_text(),
    {
        match self {
            DataTypes::Unknown => "Unknown",
            DataTypes::WwiseWem => "WwiseWem",
            DataTypes::WwiseBNK => "WwiseBNK",
            DataTypes::Texture => "Texture",
            DataTypes::Unit => "Unit",
            DataTypes::String => "String",
            DataTypes::WwiseDep => "WwiseDep",
            DataTypes::WwiseMetadata => "WwiseMetadata",
            DataTypes::WwiseProperties => "WwiseProperties",
        }
    }

    /// The type identifier that stands for this type inside a bundle.
    pub fn as_id(&self) -> (r: Id)
        ensures
            r == (Id { _id: self.code() }),
    {
        let code: u64 = match self {
            DataTypes::Unknown => 0xFFFF_FFFF_FFFF_FFFF,
            DataTypes::WwiseWem => 0x504b_5523_5d21_440e,
            DataTypes::WwiseBNK => 0x535A_7BD3_E650_D799,
            DataTypes::Texture => 0xCD42_38C6_A0C6_9E32,
            DataTypes::Unit => 0xE0A4_8D0B_E9A7_453F,
            DataTypes::String => 0x0D97_2BAB_10B4_0FD3,
            DataTypes::WwiseDep => 0xAF32_095C_82F2_B070,
            DataTypes::WwiseMetadata => 0xD50A_8B7E_1C82_B110,
            DataTypes::WwiseProperties => 0x5FDD_5FE3_9107_6F9F,
        };
        Id::new(code)
    }
}

impl Default for DataTypes {
    fn default() -> (r: Self)
        ensures
            r == DataTypes::Unknown,
    {
        DataTypes::Unknown
    }
}

/// Decoding a type's identifier gives the type back.
pub proof fn lemma_type_code_round_trip(t: DataTypes)
    ensures
        DataTypes::of_code(t.code()) == t,
{
}

/// An opaque 64-bit content or type handle.
#[derive(Clone, Copy, Debug, PartialEq, Eq, Structural, Hash)]
pub struct Id {
    pub _id: u64,
}

impl Id {
    /// The identifier with the raw value `id`.
    pub fn new(id: u64) -> (r: Self)
        ensures
            r == (Id { _id: id }),
    {
        Id { _id: id }
    }

    /// The reserved identifier that means "absent".
    pub fn invalid() -> (r: Self)
        ensures
            r == (Id { _id: u64::MAX }),
    {
        Id { _id: u64::MAX }
    }

    /// The raw 64-bit value.
    pub fn value(&self) -> (r: u64)
        ensures
            r == self._id,
    {
        self._id
    }

    /// The asset type that this identifier stands for, when it is read as a
    /// type identifier.
    pub fn as_enum(&self) -> (r: DataTypes)
        ensures
            r == DataTypes::of_code(self._id),
    {
        let code = self._id;
        if code == 0x504b_5523_5d21_440e {
            DataTypes::WwiseWem
        } else if code == 0x535A_7BD3_E650_D799 {
            DataTypes::WwiseBNK
        } else if code == 0xCD42_38C6_A0C6_9E32 {
            DataTypes::Texture
        } else if code == 0xE0A4_8D0B_E9A7_453F {
            DataTypes::Unit
        } else if code == 0x0D97_2BAB_10B4_0FD3 {
            DataTypes::String
        } else if code == 0xAF32_095C_82F2_B070 {
            DataTypes::WwiseDep
        } else if code == 0xD50A_8B7E_1C82_B110 {
            DataTypes::WwiseMetadata
        } else if code == 0x5FDD_5FE3_9107_6F9F {
            DataTypes::WwiseProperties
        } else {
            DataTypes::Unknown
        }
    }

    /// The canonical text of the identifier: sixteen lower-case hexadecimal
    /// digits.
    pub open spec fn text(self) -> Seq<char> {
        hex_fixed(self._id as nat, 16)
    }

    /// The canonical text of the identifier.
    pub fn to_string(&self) -> (r: String)
        ensures
            r@ == self.text(),
    {
        let mut s = String::new();
        push_hex_fixed(&mut s, self._id, 16);
        assert(s@ =~= self.text());
        s
    }

    /// Reads an identifier from hexadecimal text of either case. There is a
    /// result exactly when the text is a hexadecimal numeral that fits in 64
    /// bits.
    pub fn parse(s: &str) -> (r: Option<Id>)
        ensures
            r == match hex_numeral(s@) {
                Some(v) => Some(Id { _id: v }),
                None => None,
            },
    {
        match parse_hex(s) {
            Some(v) => Some(Id { _id: v }),
            None => None,
        }
    }
}

/// Reading the canonical text of an identifier gives the identifier back.
pub proof fn lemma_id_text_round_trip(id: Id)
    ensures
        hex_numeral(id.text()) == Some(id._id),
{
    crate::text::lemma_hex16_round_trip(id._id);
}

impl Default for Id {
    fn default() -> (r: Self)
        ensures
            r == (Id { _id: 0 }),
    {
        Id { _id: 0 }
    }
}

impl From<u64> for Id {
    fn from(id: u64) -> (r: Self) {
        Id { _id: id }
    }
}

impl vstd::std_specs::convert::FromSpecImpl<u64> for Id {
    open spec fn obeys_from_spec() -> bool {
        true
    }

    open spec fn from_spec(id: u64) -> Self {
        Id { _id: id }
    }
}

impl From<Id> for u64 {
    fn from(id: Id) -> (r: Self) {
        id._id
    }
}

impl vstd::std_specs::convert::FromSpecImpl<Id> for u64 {
    open spec fn obeys_from_spec() -> bool {
        true
    }

    open spec fn from_spec(id: Id) -> Self {
        id._id
    }
}

/// The fixed header that opens a bundle. The fields whose meaning is not
/// known are kept as they were read.
#[derive(Clone, Copy, Debug)]
pub struct Header {
    pub type_count: u32,
    pub data_count: u64,
    pub unk10: u32,
    pub unk14: u32,
    pub unk18: u64,
    pub unk20: u64,
    pub unk28: u64,
    pub unk30_pad: (u128, u128),
}

/// One entry of the type table: a type, the number of assets of that type,
/// and the adjustment applied when the type's payload is read from the
/// bundle itself.
#[derive(Clone, Copy, Debug, PartialEq, Eq, Structural)]
pub struct DataType {
    pub type_id: Id,
    pub data_count: u64,
    pub unk10: u32,
    pub unk14: u32,
}

/// The header of one asset, as a bundle holds it.
#[derive(Clone, Copy, Debug, PartialEq, Eq, Structural)]
pub struct DataHeader {
    pub unk_id: Id,
    pub type_id: Id,
    pub data_offset: u64,
    pub stream_data_offset: u32,
    pub unk1c: u32,
    pub gpu_data_offset: u64,
    pub unk28: u64,
    pub unk30: u64,
    pub data_size: u32,
    pub stream_data_size: u32,
    pub gpu_data_size: u32,
    pub unk44: u32,
    pub unk48: u32,
    pub unk4c: u32,
    /// The decoded type, used for dispatch. It is not part of the stored
    /// record: a header that was just read has `Unknown` here.
    pub type_enum: DataTypes,
}

/// The part of an asset header that the identifier index keeps.
#[derive(Clone, Copy, Debug, PartialEq, Eq, Structural)]
pub struct MinimizedIdHeader {
    pub id: Id,
    pub type_id: Id,
    pub data_offset: u64,
    pub data_size: u32,
    pub stream_data_offset: u32,
    pub stream_data_size: u32,
    pub gpu_data_offset: u64,
    pub gpu_data_size: u32,
}

/// A bundle's header, type table and asset headers.
#[derive(Debug)]
pub struct Bundle {
    pub header: Header,
    pub data_types: Vec<DataType>,
    pub data_headers: Vec<DataHeader>,
}

impl Header {
    /// The header that the first 80 bytes of `s` hold.
    pub open spec fn at(s: Seq<u8>) -> Header {
        Header {
            type_count: u32_at(s, 4),
            data_count: u64_at(s, 8),
            unk10: u32_at(s, 0x10),
            unk14: u32_at(s, 0x14),
            unk18: u64_at(s, 0x18),
            unk20: u64_at(s, 0x20),
            unk28: u64_at(s, 0x28),
            unk30_pad: (u128_at(s, 0x30), u128_at(s, 0x40)),
        }
    }

    /// Whether `s` opens with a complete header that carries the magic number.
    pub open spec fn present(s: Seq<u8>) -> bool {
        s.len() >= HEADER_SIZE && u32_at(s, 0) == BUNDLE_MAGIC
    }

    /// Reads the container header at the start of a bundle. The bytes are
    /// rejected when fewer than 80 are there or when they do not open with
    /// the magic number.
    pub fn parse(data: &[u8]) -> (r: Result<Header, ExtractError>)
        ensures
            r == if Header::present(data@) {
                Ok::<Header, ExtractError>(Header::at(data@))
            } else {
                Err::<Header, ExtractError>(ExtractError::Format)
            },
    {
        if !fits(data, 0, HEADER_SIZE) {
            return Err(ExtractError::Format);
        }
        if get_u32(data, 0) != BUNDLE_MAGIC {
            return Err(ExtractError::Format);
        }
        Ok(
            Header {
                type_count: get_u32(data, 4),
                data_count: get_u64(data, 8),
                unk10: get_u32(data, 0x10),
                unk14: get_u32(data, 0x14),
                unk18: get_u64(data, 0x18),
                unk20: get_u64(data, 0x20),
                unk28: get_u64(data, 0x28),
                unk30_pad: (get_u128(data, 0x30), get_u128(data, 0x40)),
            },
        )
    }
}

impl DataType {
    /// The type-table entry that the 24 bytes of `s` at `pos` hold.
    pub open spec fn at(s: Seq<u8>, pos: int) -> DataType {
        DataType {
            type_id: Id { _id: u64_at(s, pos) },
            data_count: u64_at(s, pos + 8),
            unk10: u32_at(s, pos + 16),
            unk14: u32_at(s, pos + 20),
        }
    }

    /// Reads the type-table entry at `pos`, if 24 bytes are there.
    pub fn parse(data: &[u8], pos: usize) -> (r: Option<DataType>)
        ensures
            r == if in_range(data@.len(), pos as int, DATA_TYPE_SIZE as int) {
                Some(DataType::at(data@, pos as int))
            } else {
                None
            },
    {
        if !fits(data, pos, DATA_TYPE_SIZE) {
            return None;
        }
        Some(
            DataType {
                type_id: Id::new(get_u64(data, pos)),
                data_count: get_u64(data, pos + 8),
                unk10: get_u32(data, pos + 16),
                unk14: get_u32(data, pos + 20),
            },
        )
    }
}

impl DataHeader {
    /// The asset header that the 80 bytes of `s` at `pos` hold.
    pub open spec fn at(s: Seq<u8>, pos: int) -> DataHeader {
        DataHeader {
            unk_id: Id { _id: u64_at(s, pos) },
            type_id: Id { _id: u64_at(s, pos + 8) },
            data_offset: u64_at(s, pos + 0x10),
            stream_data_offset: u32_at(s, pos + 0x18),
            unk1c: u32_at(s, pos + 0x1c),
            gpu_data_offset: u64_at(s, pos + 0x20),
            unk28: u64_at(s, pos + 0x28),
            unk30: u64_at(s, pos + 0x30),
            data_size: u32_at(s, pos + 0x38),
            stream_data_size: u32_at(s, pos + 0x3c),
            gpu_data_size: u32_at(s, pos + 0x40),
            unk44: u32_at(s, pos + 0x44),
            unk48: u32_at(s, pos + 0x48),
            unk4c: u32_at(s, pos + 0x4c),
            type_enum: DataTypes::Unknown,
        }
    }

    /// Reads the asset header at `pos`, if 80 bytes are there.
    pub fn parse(data: &[u8], pos: usize) -> (r: Option<DataHeader>)
        ensures
            r == if in_range(data@.len(), pos as int, DATA_HEADER_SIZE as int) {
                Some(DataHeader::at(data@, pos as int))
            } else {
                None
            },
    {
        if !fits(data, pos, DATA_HEADER_SIZE) {
            return None;
        }
        Some(
            DataHeader {
                unk_id: Id::new(get_u64(data, pos)),
                type_id: Id::new(get_u64(data, pos + 8)),
                data_offset: get_u64(data, pos + 0x10),
                stream_data_offset: get_u32(data, pos + 0x18),
                unk1c: get_u32(data, pos + 0x1c),
                gpu_data_offset: get_u64(data, pos + 0x20),
                unk28: get_u64(data, pos + 0x28),
                unk30: get_u64(data, pos + 0x30),
                data_size: get_u32(data, pos + 0x38),
                stream_data_size: get_u32(data, pos + 0x3c),
                gpu_data_size: get_u32(data, pos + 0x40),
                unk44: get_u32(data, pos + 0x44),
                unk48: get_u32(data, pos + 0x48),
                unk4c: get_u32(data, pos + 0x4c),
                type_enum: DataTypes::Unknown,
            },
        )
    }

    /// The full header that a minimized one stands for: the fields that the
    /// index does not keep are zero, and the type is decoded.
    pub open spec fn of_minimized(h: MinimizedIdHeader) -> DataHeader {
        DataHeader {
            unk_id: h.id,
            type_id: h.type_id,
            data_offset: h.data_offset,
            stream_data_offset: h.stream_data_offset,
            unk1c: 0,
            gpu_data_offset: h.gpu_data_offset,
            unk28: 0,
            unk30: 0,
            data_size: h.data_size,
            stream_data_size: h.stream_data_size,
            gpu_data_size: h.gpu_data_size,
            unk44: 0,
            unk48: 0,
            unk4c: 0,
            type_enum: DataTypes::of_code(h.type_id._id),
        }
    }

    /// The part of the header that the identifier index keeps.
    pub open spec fn minimized(self) -> MinimizedIdHeader {
        MinimizedIdHeader {
            id: self.unk_id,
            type_id: self.type_id,
            data_offset: self.data_offset,
            data_size: self.data_size,
            stream_data_offset: self.stream_data_offset,
            stream_data_size: self.stream_data_size,
            gpu_data_offset: self.gpu_data_offset,
            gpu_data_size: self.gpu_data_size,
        }
    }

    /// Projects the header to its minimized form.
    pub fn minimize(&self) -> (r: MinimizedIdHeader)
        ensures
            r == self.minimized(),
    {
        MinimizedIdHeader {
            id: self.unk_id,
            type_id: self.type_id,
            data_offset: self.data_offset,
            data_size: self.data_size,
            stream_data_offset: self.stream_data_offset,
            stream_data_size: self.stream_data_size,
            gpu_data_offset: self.gpu_data_offset,
            gpu_data_size: self.gpu_data_size,
        }
    }
}

impl Default for DataHeader {
    fn default() -> (r: Self)
        ensures
            r == DataHeader::of_minimized(MinimizedIdHeader::zero()),
            r.type_enum == DataTypes::Unknown,
    {
        DataHeader {
            unk_id: Id { _id: 0 },
            type_id: Id { _id: 0 },
            data_offset: 0,
            stream_data_offset: 0,
            unk1c: 0,
            gpu_data_offset: 0,
            unk28: 0,
            unk30: 0,
            data_size: 0,
            stream_data_size: 0,
            gpu_data_size: 0,
            unk44: 0,
            unk48: 0,
            unk4c: 0,
            type_enum: DataTypes::Unknown,
        }
    }
}

impl From<MinimizedIdHeader> for DataHeader {
    fn from(header: MinimizedIdHeader) -> (r: Self) {
        DataHeader {
            unk_id: header.id,
            type_id: header.type_id,
            data_offset: header.data_offset,
            stream_data_offset: header.stream_data_offset,
            unk1c: 0,
            gpu_data_offset: header.gpu_data_offset,
            unk28: 0,
            unk30: 0,
            data_size: header.data_size,
            stream_data_size: header.stream_data_size,
            gpu_data_size: header.gpu_data_size,
            unk44: 0,
            unk48: 0,
            unk4c: 0,
            type_enum: header.type_id.as_enum(),
        }
    }
}

impl vstd::std_specs::convert::FromSpecImpl<MinimizedIdHeader> for DataHeader {
    open spec fn obeys_from_spec() -> bool {
        true
    }

    open spec fn from_spec(header: MinimizedIdHeader) -> Self {
        DataHeader::of_minimized(header)
    }
}

/// Minimizing the full header that a minimized header stands for gives the
/// minimized header back.
pub proof fn lemma_minimized_round_trip(h: MinimizedIdHeader)
    ensures
        DataHeader::of_minimized(h).minimized() == h,
{
}

impl MinimizedIdHeader {
    /// The header whose every field is zero.
    pub open spec fn zero() -> MinimizedIdHeader {
        MinimizedIdHeader {
            id: Id { _id: 0 },
            type_id: Id { _id: 0 },
            data_offset: 0,
            data_size: 0,
            stream_data_offset: 0,
            stream_data_size: 0,
            gpu_data_offset: 0,
            gpu_data_size: 0,
        }
    }

    /// The minimized header that the 48 bytes of `s` at `pos` hold.
    pub open spec fn at(s: Seq<u8>, pos: int) -> MinimizedIdHeader {
        MinimizedIdHeader {
            id: Id { _id: u64_at(s, pos) },
            type_id: Id { _id: u64_at(s, pos + 8) },
            data_offset: u64_at(s, pos + 16),
            data_size: u32_at(s, pos + 24),
            stream_data_offset: u32_at(s, pos + 28),
            stream_data_size: u32_at(s, pos + 32),
            gpu_data_offset: u64_at(s, pos + 36),
            gpu_data_size: u32_at(s, pos + 44),
        }
    }

    /// Reads the minimized header at `pos`, if 48 bytes are there.
    pub fn parse(data: &[u8], pos: usize) -> (r: Option<MinimizedIdHeader>)
        ensures
            r == if in_range(data@.len(), pos as int, MINIMIZED_HEADER_SIZE as int) {
                Some(MinimizedIdHeader::at(data@, pos as int))
            } else {
                None
            },
    {
        if !fits(data, pos, MINIMIZED_HEADER_SIZE) {
            return None;
        }
        Some(
            MinimizedIdHeader {
                id: Id::new(get_u64(data, pos)),
                type_id: Id::new(get_u64(data, pos + 8)),
                data_offset: get_u64(data, pos + 16),
                data_size: get_u32(data, pos + 24),
                stream_data_offset: get_u32(data, pos + 28),
                stream_data_size: get_u32(data, pos + 32),
                gpu_data_offset: get_u64(data, pos + 36),
                gpu_data_size: get_u32(data, pos + 44),
            },
        )
    }

    /// The 48 bytes that stand for the header in the persisted index.
    pub open spec fn bytes(self) -> Seq<u8> {
        le_bytes(self.id._id as nat, 8) + le_bytes(
            self.type_id._id as nat,
            8,
        ) + le_bytes(self.data_offset as nat, 8) + le_bytes(
            self.data_size as nat,
            4,
        ) + le_bytes(self.stream_data_offset as nat, 4) + le_bytes(
            self.stream_data_size as nat,
            4,
        ) + le_bytes(self.gpu_data_offset as nat, 8) + le_bytes(
            self.gpu_data_size as nat,
            4,
        )
    }

    /// Appends the 48 bytes of the header to `out`.
    pub fn write(&self, out: &mut Vec<u8>)
        ensures
            final(out)@ == old(out)@ + self.bytes(),
    {
        write_u64_le(out, self.id._id);
        write_u64_le(out, self.type_id._id);
        write_u64_le(out, self.data_offset);
        write_u32_le(out, self.data_size);
        write_u32_le(out, self.stream_data_offset);
        write_u32_le(out, self.stream_data_size);
        write_u64_le(out, self.gpu_data_offset);
        write_u32_le(out, self.gpu_data_size);
        assert(out@ =~= old(out)@ + self.bytes());
    }
}

impl Default for MinimizedIdHeader {
    fn default() -> (r: Self)
        ensures
            r == MinimizedIdHeader::zero(),
    {
        MinimizedIdHeader {
            id: Id { _id: 0 },
            type_id: Id { _id: 0 },
            data_offset: 0,
            data_size: 0,
            stream_data_offset: 0,
            stream_data_size: 0,
            gpu_data_offset: 0,
            gpu_data_size: 0,
        }
    }
}

/// The in-memory sources of one bundle: the bytes of the bundle itself and,
/// where they were located, those of its stream sidecar and of its GPU
/// sidecar.
#[derive(Debug)]
pub struct DataReaders(pub Vec<u8>, pub Option<Vec<u8>>, pub Option<Vec<u8>>);

/// The bytes of an optional source.
pub open spec fn source_bytes(source: Option<Vec<u8>>) -> Option<Seq<u8>> {
    match source {
        Some(v) => Some(v@),
        None => None,
    }
}

impl DataReaders {
    /// The sources of a bundle for which no sidecar was located.
    pub fn new(r: Vec<u8>) -> (readers: Self)
        ensures
            readers.0 == r,
            readers.1 is None,
            readers.2 is None,
    {
        DataReaders(r, None, None)
    }

    /// The bytes of the bundle.
    pub fn bundle(&self) -> (r: &Vec<u8>)
        ensures
            *r == self.0,
    {
        &self.0
    }

    /// The bytes of the stream sidecar, if it was located.
    pub fn stream(&self) -> (r: &Option<Vec<u8>>)
        ensures
            *r == self.1,
    {
        &self.1
    }

    /// The bytes of the GPU sidecar, if it was located.
    pub fn gpu(&self) -> (r: &Option<Vec<u8>>)
        ensures
            *r == self.2,
    {
        &self.2
    }

    /// Records the stream sidecar.
    pub fn set_stream(&mut self, r: Vec<u8>)
        ensures
            final(self).0 == old(self).0,
            final(self).1 == Some(r),
            final(self).2 == old(self).2,
    {
        self.1 = Some(r);
    }

    /// Records the GPU sidecar.
    pub fn set_gpu(&mut self, r: Vec<u8>)
        ensures
            final(self).0 == old(self).0,
            final(self).1 == old(self).1,
            final(self).2 == Some(r),
    {
        self.2 = Some(r);
    }
}

/// The `size` bytes at `offset` of a sidecar: a sidecar that is not there,
/// or that ends before the range does, is a missing payload.
pub open spec fn sidecar_slice(source: Option<Seq<u8>>, offset: int, size: int) -> Result<
    Seq<u8>,
    ExtractError,
> {
    match source {
        None => Err(ExtractError::MissingPayload),
        Some(s) => match slice_in(s, offset, size) {
            Some(bytes) => Ok(bytes),
            None => Err(ExtractError::MissingPayload),
        },
    }
}

/// The `size` bytes at `offset` of a bundle: a bundle that ends before the
/// range does is malformed.
pub open spec fn bundle_slice(s: Seq<u8>, offset: int, size: int) -> Result<Seq<u8>, ExtractError> {
    match slice_in(s, offset, size) {
        Some(bytes) => Ok(bytes),
        None => Err(ExtractError::Format),
    }
}

/// Whether an executable result holds the bytes, or the error, of `expected`.
pub open spec fn same_bytes(r: Result<Vec<u8>, ExtractError>, expected: Result<Seq<u8>, ExtractError>) -> bool {
    match (r, expected) {
        (Ok(v), Ok(s)) => v@ == s,
        (Err(e), Err(f)) => e == f,
        _ => false,
    }
}

/// Copies a range of a sidecar.
pub fn read_sidecar(source: &Option<Vec<u8>>, offset: u64, size: u64) -> (r: Result<
    Vec<u8>,
    ExtractError,
>)
    ensures
        same_bytes(r, sidecar_slice(source_bytes(*source), offset as int, size as int)),
{
    match source {
        None => Err(ExtractError::MissingPayload),
        Some(data) => match read_slice(data.as_slice(), offset, size) {
            Some(bytes) => Ok(bytes),
            None => Err(ExtractError::MissingPayload),
        },
    }
}

/// Copies a range of a bundle.
pub fn read_bundle(data: &Vec<u8>, offset: u64, size: u64) -> (r: Result<Vec<u8>, ExtractError>)
    ensures
        same_bytes(r, bundle_slice(data@, offset as int, size as int)),
{
    match read_slice(data.as_slice(), offset, size) {
        Some(bytes) => Ok(bytes),
        None => Err(ExtractError::Format),
    }
}

impl DataHeader {
    /// The asset's payload in the stream sidecar. An asset without such a
    /// payload has none to give.
    pub open spec fn stream_buf(self, stream: Option<Seq<u8>>) -> Result<Seq<u8>, ExtractError> {
        if self.stream_data_size == 0 {
            Err(ExtractError::MissingPayload)
        } else {
            sidecar_slice(stream, self.stream_data_offset as int, self.stream_data_size as int)
        }
    }

    /// The asset's payload in the bundle itself. An asset without such a
    /// payload has none to give.
    pub open spec fn bundle_buf(self, bundle: Seq<u8>) -> Result<Seq<u8>, ExtractError> {
        if self.data_size == 0 {
            Err(ExtractError::MissingPayload)
        } else {
            bundle_slice(bundle, self.data_offset as int, self.data_size as int)
        }
    }

    /// Copies the asset's payload out of the stream sidecar.
    pub fn get_stream_buf(&self, r: &Option<Vec<u8>>) -> (res: Result<Vec<u8>, ExtractError>)
        ensures
            same_bytes(res, self.stream_buf(source_bytes(*r))),
    {
        if self.stream_data_size == 0 {
            return Err(ExtractError::MissingPayload);
        }
        read_sidecar(r, self.stream_data_offset as u64, self.stream_data_size as u64)
    }

    /// Copies the asset's payload out of the bundle.
    pub fn get_bundle_buf(&self, r: &Vec<u8>) -> (res: Result<Vec<u8>, ExtractError>)
        ensures
            same_bytes(res, self.bundle_buf(r@)),
    {
        if self.data_size == 0 {
            return Err(ExtractError::MissingPayload);
        }
        read_bundle(r, self.data_offset, self.data_size as u64)
    }
}

/// A table from 32-bit keys to identifiers.
#[derive(Debug)]
pub struct U32IdMap(pub HashMap<u32, Id>);

impl View for U32IdMap {
    type V = Map<u32, Id>;

    open spec fn view(&self) -> Map<u32, Id> {
        self.0@
    }
}

/// The table that results from `acc` when the `n` pairs of identifier and
/// key stored from `pos` on are added to it, a later pair replacing an
/// earlier one of the same key; `None` when the buffer ends before the last
/// pair does.
pub open spec fn id_pairs(s: Seq<u8>, pos: int, n: nat, acc: Map<u32, Id>) -> Option<
    Map<u32, Id>,
>
    decreases n,
{
    if n == 0 {
        Some(acc)
    } else if !in_range(s.len(), pos, 12) {
        None
    } else {
        id_pairs(
            s,
            pos + 12,
            (n - 1) as nat,
            acc.insert(u32_at(s, pos + 8), Id { _id: u64_at(s, pos) }),
        )
    }
}

/// The table stored at `pos`: a count, then that many pairs.
pub open spec fn id_table(s: Seq<u8>, pos: int) -> Option<Map<u32, Id>> {
    match u32_in(s, pos) {
        None => None,
        Some(count) => id_pairs(s, pos + 4, count as nat, Map::empty()),
    }
}

impl U32IdMap {
    /// The identifier that the table has for a key.
    pub fn get(&self, k: &u32) -> (r: Option<&Id>)
        ensures
            r == match self@.contains_key(*k) {
                true => Some(&self@[*k]),
                false => None,
            },
    {
        broadcast use vstd::std_specs::hash::group_hash_axioms;

        self.0.get(k)
    }

    /// Reads the table stored at `pos`, if the buffer holds all of it.
    pub fn parse(data: &[u8], pos: u64) -> (r: Option<U32IdMap>)
        ensures
            match r {
                Some(table) => id_table(data@, pos as int) == Some(table@),
                None => id_table(data@, pos as int) is None,
            },
    {
        broadcast use vstd::std_specs::hash::group_hash_axioms;

        let count: u32 = match read_u32(data, pos) {
            Some(c) => c,
            None => {
                return None;
            },
        };
        let mut table: HashMap<u32, Id> = HashMap::new();
        let mut at: u64 = pos + 4;
        let mut done: u32 = 0;
        while done < count
            invariant
                done <= count,
                at <= data@.len() <= usize::MAX,
                id_table(data@, pos as int) == id_pairs(
                    data@,
                    at as int,
                    (count - done) as nat,
                    table@,
                ),
            decreases count - done,
        {
            let id = match read_u64(data, at) {
                Some(v) => v,
                None => {
                    return None;
                },
            };
            let key = match read_u32(data, at + 8) {
                Some(v) => v,
                None => {
                    return None;
                },
            };
            table.insert(key, Id::new(id));
            at = at + 12;
            done = done + 1;
        }
        Some(U32IdMap(table))
    }
}

impl Default for U32IdMap {
    fn default() -> (r: Self)
        ensures
            r@ == Map::<u32, Id>::empty(),
    {
        broadcast use vstd::std_specs::hash::group_hash_axioms;

        U32IdMap(HashMap::new())
    }
}

} // verus!

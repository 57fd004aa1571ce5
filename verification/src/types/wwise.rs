//! Audio: banks, which are decrypted and named after a companion asset, and
//! single stream items, which are taken as they are.

use crate::cache::{lookup_allowed, IdCache};
use crate::codec::{
    be_u64_in, c_string, lossy_text, null_string_text, read_be_u64, read_c_string, read_slice,
    read_u32, slice_in, terminator, u32_in,
};
use crate::error::ExtractError;
use crate::structs::{source_bytes, DataHeader, DataReaders, DataTypes, Id, MinimizedIdHeader};
use vstd::prelude::*;

verus! {

/// Where the encrypted region of a bank starts.
pub const BANK_KEY_START: usize = 8;

/// Where the encrypted region of a bank ends.
pub const BANK_KEY_END: usize = 16;

/// Byte `i` of the fixed key of the banks.
pub open spec fn bank_key(i: int) -> u8 {
    if i == 0 {
        0xac
    } else if i == 1 {
        0xbc
    } else if i == 2 {
        0x11
    } else if i == 3 {
        0x92
    } else if i == 4 {
        0x38
    } else if i == 5 {
        0x70
    } else if i == 6 {
        0x10
    } else {
        0xa3
    }
}

fn key_byte(i: usize) -> (r: u8)
    requires
        i < 8,
    ensures
        r == bank_key(i as int),
{
    if i == 0 {
        0xac
    } else if i == 1 {
        0xbc
    } else if i == 2 {
        0x11
    } else if i == 3 {
        0x92
    } else if i == 4 {
        0x38
    } else if i == 5 {
        0x70
    } else if i == 6 {
        0x10
    } else {
        0xa3
    }
}

/// A bank with its bytes 8 to 15 combined with the key by exclusive or. The
/// same operation encrypts and decrypts.
pub open spec fn bank_crypt(buf: Seq<u8>) -> Seq<u8> {
    Seq::new(
        buf.len(),
        |i: int|
            if BANK_KEY_START <= i < BANK_KEY_END {
                buf[i] ^ bank_key(i - BANK_KEY_START)
            } else {
                buf[i]
            },
    )
}

/// Decrypts a bank in place. A buffer too short to hold the encrypted region
/// is left as it is.
pub fn decrypt_bank(buf: &mut Vec<u8>) -> (r: bool)
    ensures
        r == (old(buf)@.len() >= BANK_KEY_END),
        r ==> final(buf)@ == bank_crypt(old(buf)@),
        !r ==> final(buf)@ == old(buf)@,
{
    if buf.len() < BANK_KEY_END {
        return false;
    }
    let mut i: usize = BANK_KEY_START;
    while i < BANK_KEY_END
        invariant
            BANK_KEY_START <= i <= BANK_KEY_END,
            buf@.len() == old(buf)@.len(),
            buf@.len() >= BANK_KEY_END,
            forall|j: int|
                0 <= j < buf@.len() ==> buf@[j] == if BANK_KEY_START <= j < i {
                    old(buf)@[j] ^ bank_key(j - BANK_KEY_START)
                } else {
                    old(buf)@[j]
                },
        decreases BANK_KEY_END - i,
    {
        let x: u8 = buf[i];
        let k: u8 = key_byte(i - BANK_KEY_START);
        buf.set(i, x ^ k);
        i = i + 1;
    }
    assert(buf@ =~= bank_crypt(old(buf)@));
    true
}

/// Decrypting a bank twice gives the bank back.
pub proof fn lemma_bank_crypt_involution(buf: Seq<u8>)
    ensures
        bank_crypt(bank_crypt(buf)) == buf,
{
    let once = bank_crypt(buf);
    let twice = bank_crypt(once);
    assert forall|i: int| 0 <= i < buf.len() implies twice[i] == buf[i] by {
        if BANK_KEY_START <= i < BANK_KEY_END {
            let x: u8 = buf[i];
            let k: u8 = bank_key(i - BANK_KEY_START);
            assert((x ^ k) ^ k == x) by (bit_vector);
        }
    }
    assert(twice =~= buf);
}

/// Decrypting changes nothing outside bytes 8 to 15, nor the length.
pub proof fn lemma_bank_crypt_region(buf: Seq<u8>, i: int)
    requires
        0 <= i < buf.len(),
        !(BANK_KEY_START <= i < BANK_KEY_END),
    ensures
        bank_crypt(buf).len() == buf.len(),
        bank_crypt(buf)[i] == buf[i],
{
}

/// The identifier under which an embedded bank names its companion asset:
/// the eight big-endian bytes at byte 8 of the bank's payload in the bundle.
/// There is none for a bank that is streamed, nor for one whose payload
/// cannot be read that far.
pub open spec fn bank_companion(bundle: Seq<u8>, d: DataHeader) -> Option<Id> {
    if d.stream_data_size != 0 {
        None
    } else {
        match d.bundle_buf(bundle) {
            Err(_) => None,
            Ok(payload) => match (u32_in(payload, 4), be_u64_in(payload, 8)) {
                (Some(_), Some(id)) => Some(Id { _id: id }),
                _ => None,
            },
        }
    }
}

/// The name of an embedded bank, given the outcome of the lookup of its
/// companion asset.
///
/// Where the lookup fails, the name is the text of the bank's own
/// identifier. Where it succeeds, the companion's payload holds, eight bytes
/// in, a null-terminated path: the name is that path, or the text of the
/// bank's own identifier where the path is empty. A path that does not end
/// inside the bundle makes the bank fail.
pub open spec fn bank_name(
    bundle: Seq<u8>,
    d: DataHeader,
    lookup: Result<(Id, MinimizedIdHeader), ExtractError>,
) -> Result<Seq<char>, ExtractError> {
    match lookup {
        Err(_) => Ok(d.unk_id.text()),
        Ok((_, companion)) => match terminator(bundle, companion.data_offset + 8) {
            None => Err(ExtractError::Format),
            Some(_) => {
                let path = c_string(bundle, companion.data_offset + 8);
                if path.len() == 0 {
                    Ok(d.unk_id.text())
                } else {
                    Ok(lossy_text(path))
                }
            },
        },
    }
}

/// What the reconstruction of a bank gives: its bytes and, for an embedded
/// bank, its name.
pub struct BankOutcome {
    pub bytes: Seq<u8>,
    pub name: Option<Seq<char>>,
}

/// The decrypted bank, if it is long enough to hold the encrypted region.
pub open spec fn bank_finish(raw: Seq<u8>, name: Option<Seq<char>>) -> Result<BankOutcome, ExtractError> {
    if raw.len() >= BANK_KEY_END {
        Ok(BankOutcome { bytes: bank_crypt(raw), name })
    } else {
        Err(ExtractError::Format)
    }
}

/// The reconstruction of a bank, given the outcome of the lookup of its
/// companion asset.
///
/// A bank with a payload in the stream sidecar is that payload, and has no
/// name. Any other bank is embedded in its payload in the bundle: four bytes
/// in stands its size, then the identifier of its companion, and from byte
/// 16 on the bank itself. Either way bytes 8 to 15 of the bank are
/// decrypted.
pub open spec fn bank_result(
    bundle: Seq<u8>,
    stream: Option<Seq<u8>>,
    d: DataHeader,
    lookup: Result<(Id, MinimizedIdHeader), ExtractError>,
) -> Result<BankOutcome, ExtractError> {
    if d.stream_data_size != 0 {
        match d.stream_buf(stream) {
            Err(e) => Err(e),
            Ok(raw) => bank_finish(raw, None),
        }
    } else {
        match d.bundle_buf(bundle) {
            Err(e) => Err(e),
            Ok(payload) => match (u32_in(payload, 4), be_u64_in(payload, 8)) {
                (Some(size), Some(_)) => match bank_name(bundle, d, lookup) {
                    Err(e) => Err(e),
                    Ok(name) => match slice_in(payload, 16, size as int) {
                        None => Err(ExtractError::Format),
                        Some(raw) => bank_finish(raw, Some(name)),
                    },
                },
                _ => Err(ExtractError::Format),
            },
        }
    }
}

/// An embedded bank whose companion is not found comes out all the same,
/// named after its own identifier: where its payload holds its size, the
/// identifier of its companion, and a bank of that size that is long enough
/// to be decrypted, a failed lookup gives the decrypted bank under the text
/// of the bank's identifier.
pub proof fn lemma_bank_without_companion(
    bundle: Seq<u8>,
    stream: Option<Seq<u8>>,
    d: DataHeader,
    e: ExtractError,
    payload: Seq<u8>,
    size: u32,
    raw: Seq<u8>,
)
    requires
        d.stream_data_size == 0,
        d.bundle_buf(bundle) == Ok::<Seq<u8>, ExtractError>(payload),
        u32_in(payload, 4) == Some(size),
        be_u64_in(payload, 8) is Some,
        slice_in(payload, 16, size as int) == Some(raw),
        raw.len() >= BANK_KEY_END,
    ensures
        bank_result(bundle, stream, d, Err::<(Id, MinimizedIdHeader), ExtractError>(e)) == Ok::<
            BankOutcome,
            ExtractError,
        >(BankOutcome { bytes: bank_crypt(raw), name: Some(d.unk_id.text()) }),
{
}

/// Whether an executable result holds the bank, or the error, of `expected`.
pub open spec fn same_bank(
    r: Result<(Vec<u8>, Option<String>), ExtractError>,
    expected: Result<BankOutcome, ExtractError>,
) -> bool {
    match (r, expected) {
        (Ok((bytes, name)), Ok(bank)) => bytes@ == bank.bytes && match (name, bank.name) {
            (Some(n), Some(m)) => n@ == m,
            (None, None) => true,
            _ => false,
        },
        (Err(e), Err(f)) => e == f,
        _ => false,
    }
}

/// Names an embedded bank from the outcome of the lookup of its companion.
pub fn name_bank(d: &DataHeader, bundle: &Vec<u8>, lookup: Result<(Id, MinimizedIdHeader), ExtractError>)
    -> (r: Result<String, ExtractError>)
    ensures
        match (r, bank_name(bundle@, *d, lookup)) {
            (Ok(name), Ok(text)) => name@ == text,
            (Err(e), Err(f)) => e == f,
            _ => false,
        },
{
    match lookup {
        Err(_) => Ok(d.unk_id.to_string()),
        Ok((_, companion)) => {
            let at: u64 = match companion.data_offset.checked_add(8) {
                Some(at) => at,
                None => {
                    let _len = bundle.len();
                    proof {
                        crate::codec::lemma_terminator(bundle@, companion.data_offset + 8);
                    }
                    return Err(ExtractError::Format);
                },
            };
            match read_c_string(bundle.as_slice(), at) {
                None => Err(ExtractError::Format),
                Some(path) => {
                    if path.len() == 0 {
                        Ok(d.unk_id.to_string())
                    } else {
                        Ok(null_string_text(path))
                    }
                },
            }
        },
    }
}

/// Finishes a bank: checks its length and decrypts it.
fn finish_bank(raw: Vec<u8>, name: Option<String>) -> (r: Result<(Vec<u8>, Option<String>), ExtractError>)
    ensures
        same_bank(
            r,
            bank_finish(
                raw@,
                match name {
                    Some(n) => Some(n@),
                    None => None,
                },
            ),
        ),
{
    let mut raw = raw;
    if decrypt_bank(&mut raw) {
        Ok((raw, name))
    } else {
        Err(ExtractError::Format)
    }
}

/// Whether `res` is an outcome that the reconstruction of a bank may have.
///
/// Where the bank names a companion asset, the outcome is the one that
/// [`bank_result`] gives for some allowed outcome of the lookup of that
/// companion under the bundle scope `scope` and the type `WwiseDep`. Where
/// it names none, no lookup is made, and the outcome does not depend on one.
pub open spec fn bank_allowed(
    m: Map<u64, Seq<MinimizedIdHeader>>,
    scope: Id,
    bundle: Seq<u8>,
    stream: Option<Seq<u8>>,
    d: DataHeader,
    res: Result<(Vec<u8>, Option<String>), ExtractError>,
) -> bool {
    match bank_companion(bundle, d) {
        None => same_bank(
            res,
            bank_result(
                bundle,
                stream,
                d,
                Err::<(Id, MinimizedIdHeader), ExtractError>(ExtractError::UnresolvedReference),
            ),
        ),
        Some(key) => exists|lookup: Result<(Id, MinimizedIdHeader), ExtractError>|
            #[trigger] lookup_allowed(m, key, Some(DataTypes::WwiseDep), scope, lookup)
                && same_bank(res, bank_result(bundle, stream, d, lookup)),
    }
}

/// Reconstructs an audio bank.
///
/// The companion asset of an embedded bank is looked up in the index, under
/// the bundle scope `bundle_id` and among the assets of the type `WwiseDep`.
/// A failed lookup does not make the bank fail: the bank is then named
/// after its own identifier. A bank that needs the stream sidecar fails
/// where that sidecar is not there.
pub fn extract_bank(cache: &IdCache, bundle_id: &Id, d: &DataHeader, r: &DataReaders) -> (res:
    Result<(Vec<u8>, Option<String>), ExtractError>)
    ensures
        bank_allowed(cache@, *bundle_id, r.0@, source_bytes(r.1), *d, res),
{
    if d.stream_data_size != 0 {
        return match d.get_stream_buf(r.stream()) {
            Ok(raw) => finish_bank(raw, None),
            Err(e) => Err(e),
        };
    }
    let payload = match d.get_bundle_buf(r.bundle()) {
        Ok(p) => p,
        Err(e) => {
            return Err(e);
        },
    };
    let size = match read_u32(payload.as_slice(), 4) {
        Some(v) => v,
        None => {
            return Err(ExtractError::Format);
        },
    };
    let key = match read_be_u64(payload.as_slice(), 8) {
        Some(v) => Id::new(v),
        None => {
            return Err(ExtractError::Format);
        },
    };
    let lookup = cache.get_by_id(key, Some(DataTypes::WwiseDep), *bundle_id);
    let res = finish_embedded(d, r.bundle(), &payload, size, lookup);
    proof {
        let found = bank_companion(r.0@, *d);
        assert(d.bundle_buf(r.0@) == Ok::<Seq<u8>, ExtractError>(payload@));
        assert(found is Some && found->0 == key);
        assert(same_bank(res, bank_result(r.0@, source_bytes(r.1), *d, lookup)));
        assert(lookup_allowed(cache@, key, Some(DataTypes::WwiseDep), *bundle_id, lookup));
        assert(match found {
            None => true,
            Some(k) => exists|l: Result<(Id, MinimizedIdHeader), ExtractError>|
                #[trigger] lookup_allowed(cache@, k, Some(DataTypes::WwiseDep), *bundle_id, l)
                    && same_bank(res, bank_result(r.0@, source_bytes(r.1), *d, l)),
        });
    }
    res
}

/// Names, cuts out and decrypts an embedded bank whose size and companion
/// were read.
fn finish_embedded(
    d: &DataHeader,
    bundle: &Vec<u8>,
    payload: &Vec<u8>,
    size: u32,
    lookup: Result<(Id, MinimizedIdHeader), ExtractError>,
) -> (res: Result<(Vec<u8>, Option<String>), ExtractError>)
    ensures
        same_bank(
            res,
            match bank_name(bundle@, *d, lookup) {
                Err(e) => Err(e),
                Ok(name) => match slice_in(payload@, 16, size as int) {
                    None => Err(ExtractError::Format),
                    Some(raw) => bank_finish(raw, Some(name)),
                },
            },
        ),
{
    let name = match name_bank(d, bundle, lookup) {
        Ok(n) => n,
        Err(e) => {
            return Err(e);
        },
    };
    let raw = match read_slice(payload.as_slice(), 16, size as u64) {
        Some(raw) => raw,
        None => {
            return Err(ExtractError::Format);
        },
    };
    finish_bank(raw, Some(name))
}

/// Reconstructs a single stream item: its payload in the stream sidecar, as
/// it is. No file name is proposed for the result.
pub fn extract_wem(d: &DataHeader, r: &DataReaders) -> (res: Result<
    (Vec<u8>, Option<String>),
    ExtractError,
>)
    ensures
        match res {
            Ok((bytes, name)) => d.stream_buf(source_bytes(r.1)) == Ok::<Seq<u8>, ExtractError>(bytes@)
                && name is None,
            Err(e) => d.stream_buf(source_bytes(r.1)) == Err::<Seq<u8>, ExtractError>(e),
        },
{
    match d.get_stream_buf(r.stream()) {
        Ok(bytes) => Ok((bytes, None)),
        Err(e) => Err(e),
    }
}

} // verus!

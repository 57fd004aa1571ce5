//! Textures: a fixed-size header from the bundle, followed by the
//! full-resolution payload from one of the two sidecars.

use crate::error::ExtractError;
use crate::structs::{
    bundle_slice, read_bundle, read_sidecar, sidecar_slice, source_bytes, DataHeader, DataReaders,
};
use vstd::prelude::*;

verus! {

/// Where the header of a texture stands inside the asset.
pub const TEXTURE_HEADER_OFFSET: u64 = 0xc0;

/// The size of the header of a texture.
pub const TEXTURE_HEADER_SIZE: u64 = 0x94;

/// The payload of a texture: the range of the stream sidecar that the
/// asset's header names, if that range is not empty, and the range of the
/// GPU sidecar that it names otherwise.
pub open spec fn texture_payload(stream: Option<Seq<u8>>, gpu: Option<Seq<u8>>, d: DataHeader)
    -> Result<Seq<u8>, ExtractError> {
    if d.stream_data_size > 0 {
        sidecar_slice(stream, d.stream_data_offset as int, d.stream_data_size as int)
    } else {
        sidecar_slice(gpu, d.gpu_data_offset as int, d.gpu_data_size as int)
    }
}

/// The bytes of a reconstructed texture: its header, taken from the bundle,
/// and its payload.
pub open spec fn texture_bytes(
    bundle: Seq<u8>,
    stream: Option<Seq<u8>>,
    gpu: Option<Seq<u8>>,
    d: DataHeader,
) -> Result<Seq<u8>, ExtractError> {
    match bundle_slice(
        bundle,
        d.data_offset + TEXTURE_HEADER_OFFSET,
        TEXTURE_HEADER_SIZE as int,
    ) {
        Err(e) => Err(e),
        Ok(head) => match texture_payload(stream, gpu, d) {
            Err(e) => Err(e),
            Ok(body) => Ok(head + body),
        },
    }
}

/// Reconstructs a texture. A bundle that does not hold the texture's header
/// is malformed; a sidecar that is not there, or does not hold the payload,
/// is a missing payload. No file name is proposed for the result.
pub fn extract_texture(d: &DataHeader, r: &DataReaders) -> (res: Result<
    (Vec<u8>, Option<String>),
    ExtractError,
>)
    ensures
        match res {
            Ok((bytes, name)) => texture_bytes(
                r.0@,
                source_bytes(r.1),
                source_bytes(r.2),
                *d,
            ) == Ok::<Seq<u8>, ExtractError>(bytes@) && name is None,
            Err(e) => texture_bytes(r.0@, source_bytes(r.1), source_bytes(r.2), *d) == Err::<
                Seq<u8>,
                ExtractError,
            >(e),
        },
{
    let _len = r.bundle().len();
    let at: u64 = match d.data_offset.checked_add(TEXTURE_HEADER_OFFSET) {
        Some(at) => at,
        None => {
            return Err(ExtractError::Format);
        },
    };
    let mut out = match read_bundle(r.bundle(), at, TEXTURE_HEADER_SIZE) {
        Ok(head) => head,
        Err(e) => {
            return Err(e);
        },
    };
    let body = if d.stream_data_size > 0 {
        read_sidecar(r.stream(), d.stream_data_offset as u64, d.stream_data_size as u64)
    } else {
        read_sidecar(r.gpu(), d.gpu_data_offset, d.gpu_data_size as u64)
    };
    match body {
        Ok(mut b) => {
            out.append(&mut b);
            Ok((out, None))
        },
        Err(e) => Err(e),
    }
}

/// A reconstructed texture is as long as its header and exactly one of its
/// two possible payloads: the one in the stream sidecar where the asset has
/// one there, the one in the GPU sidecar otherwise.
pub proof fn lemma_texture_length(
    bundle: Seq<u8>,
    stream: Option<Seq<u8>>,
    gpu: Option<Seq<u8>>,
    d: DataHeader,
)
    ensures
        texture_bytes(bundle, stream, gpu, d) matches Ok(bytes) ==> bytes.len()
            == TEXTURE_HEADER_SIZE + (if d.stream_data_size > 0 {
            d.stream_data_size
        } else {
            d.gpu_data_size
        }),
{
}

/// Whether a texture comes out does not depend on the sidecar that its
/// payload is not taken from, nor do its bytes.
pub proof fn lemma_texture_one_source(
    bundle: Seq<u8>,
    stream: Option<Seq<u8>>,
    gpu: Option<Seq<u8>>,
    other: Option<Seq<u8>>,
    d: DataHeader,
)
    ensures
        d.stream_data_size > 0 ==> texture_bytes(bundle, stream, gpu, d) == texture_bytes(
            bundle,
            stream,
            other,
            d,
        ),
        d.stream_data_size == 0 ==> texture_bytes(bundle, stream, gpu, d) == texture_bytes(
            bundle,
            other,
            gpu,
            d,
        ),
{
}

} // verus!

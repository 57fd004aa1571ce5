//! Reconstruction of individual assets from a multi-file bundle container.
//!
//! A bundle holds a type table and the headers of its assets; two optional
//! sidecars hold the large payloads. The identifier index ([`IdCache`])
//! tells which bundle holds which asset. For each asset type with a layout
//! of its own there is a reconstructor under [`types`]; every other asset is
//! cut out of its sources as it is.

pub mod cache;
pub mod codec;
pub mod error;
pub mod extract;
pub mod outside;
pub mod pndb;
pub mod round_trip;
pub mod structs;
pub mod text;
pub mod types;

pub use cache::IdCache;
pub use error::ExtractError;
pub use extract::{
    build_id_cache, export_special, extract_files, extract_single, read_data_headers, read_types,
    OutputFile, Payload,
};
pub use pndb::{read_pndb, Pndb};
pub use structs::{
    Bundle, DataHeader, DataReaders, DataType, DataTypes, Header, Id, MinimizedIdHeader, U32IdMap,
};

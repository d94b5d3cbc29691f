//! Streams a TOML document into a Redis RDB snapshot: a versioned header,
//! one type-tagged record per top-level entry, and a CRC-64 trailer.

pub mod checksum;
pub mod codec;
pub mod error;
pub mod frame;
pub mod rdb;
pub mod record;
pub mod segment;
pub mod toml_input;
pub mod value;
pub mod version;

pub use codec::{encode_length, encode_string};
pub use error::RdbError;
pub use frame::{end_of_file, header};
pub use rdb::{rdb_from_buffer, write_to_rdb_bytes_from_string};
pub use record::write_record;
pub use segment::segment_lines;
pub use toml_input::parse_fragment;
pub use value::{string_from_toml_value, Scalar, RecordValue};
pub use version::{get_major_version, get_redis_version, DEFAULT_REDIS_VERSION};

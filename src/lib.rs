//! Header codec for the LAS point-cloud format: the validated in-memory header, its mapping
//! to and from the fixed-layout raw header, the version capability table, and the
//! classification of variable length records, and the byte layout of the raw header.

pub mod date;
pub mod error;
pub mod gps_time_type;
pub mod header;
pub mod laws;
pub mod point;
pub mod raw;
pub mod text;
pub mod transform;
pub mod version;
pub mod vlr;

pub use date::Date;
pub use error::Error;
pub use gps_time_type::GpsTimeType;
pub use header::{number_of_points_hash_map, Header};
pub use transform::{Bounds, Transform, Vector};
pub use version::{Feature, Version};
pub use vlr::Vlr;

//! Codec for the sfrom cartridge container format: a fixed 48-byte header
//! addressing a ROM region, an optional audio-sample pair, a fixed 35-byte
//! footer, and a self-terminating table of tagged metadata records.

pub mod bytes;
pub mod catalog;
pub mod container;
pub mod error;
pub mod footer;
pub mod header;
pub mod laws;
pub mod tags;

pub use catalog::sanitize_sort_title;
pub use container::{parse_sfrom, plan_layout, RegionLayout, Sfrom};
pub use error::SfromError;
pub use footer::{EnhancementChip, SfromFooter, FOOTER_SIZE};
pub use header::{SfromHeader, HEADER_SIZE, SFROM_MAGIC};
pub use tags::GameTagData;

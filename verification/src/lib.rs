//! Builds the table of contents and the partition layout of an emulated
//! IO Store container from loose asset files.

pub mod array;
pub mod asset_collector;
pub mod chunk_layout;
pub mod flat_index;
pub mod io_package;
pub mod io_toc;
pub mod pak_package;
pub mod partition;
pub mod serialize;
pub mod string;
pub mod toc_factory;
pub mod usable_files;

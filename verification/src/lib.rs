//! Verified core of the photomosaic generator: the data structures, bookkeeping
//! and arithmetic that decide what the GPU is asked to do.

pub mod datastructs;
pub mod timing;
pub mod profiling;
pub mod utils;
pub mod text;
pub mod config_parse;
pub mod data_reader;
pub mod breeding;

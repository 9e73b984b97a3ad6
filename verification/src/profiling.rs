pub mod dropwatch;
pub mod runstats;
pub mod runtime_data;
pub mod stopwatch;

pub use dropwatch::Dropwatch;
pub use runstats::{Metric, RuntimeStats};
pub use runtime_data::RuntimeData;
pub use stopwatch::Stopwatch;

//! A logging facade that routes events, by severity level, to deduplicated
//! destinations, each with its own formatting options.
//!
//! The library holds the configuration, the dispatch table and the record
//! layout; opening files, writing to streams and the process-wide install are
//! done by the program around it.

pub mod err;
pub mod level;
pub mod text;
pub mod color;
pub mod write_options;
pub mod destination;
pub mod builder;
pub mod logger;
pub mod laws;

pub use builder::LoggerBuilder;
pub use logger::Logger;

//! Decisions of a headless raw-photo renderer: its command line, the steps of
//! one rendering, the encoding of the result, the timing report and the
//! protocol of the job server.

pub mod args;
pub mod args_laws;
pub mod course;
pub mod json;
pub mod masks;
pub mod numbers;
pub mod output;
pub mod picture;
pub mod pipeline;
pub mod pipeline_laws;
pub mod preset;
pub mod server;
pub mod server_laws;
pub mod text;
pub mod timing;

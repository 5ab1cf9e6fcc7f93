//! The core of an S3 client and of the command-line tool on top of it.
//!
//! Nothing here talks to the service or touches a file. What takes one exchange with the service
//! comes as a [`request::Call`], and what takes several steps comes as a state machine that is
//! told what has happened and says what to do next: [`upload::MultipartUpload`],
//! [`download::Download`] and, for one key of a batch, [`task::Task`].

pub mod batch;
pub mod client;
pub mod command;
pub mod config;
pub mod display;
pub mod download;
pub mod error;
pub mod listing;
pub mod local_path;
pub mod manifest;
pub mod multipart;
pub mod object;
pub mod operation;
pub mod part;
pub mod request;
pub mod run;
pub mod task;
pub mod text;
pub mod time;
pub mod tool_error;
pub mod upload;

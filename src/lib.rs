//! Conversion of encrypted KRC karaoke lyrics into plain LRC lyrics.
pub mod convert;
pub mod decode;
pub mod error;
pub mod file;
pub mod strip;
pub mod text;
pub mod timestamp;
pub mod transcode;

pub use convert::{krc_to_lrc, replace_krc_to_lrc};
pub use decode::decode_krc;
pub use error::{DecodeError, MyError};
pub use file::{check_krc_file, get_file_name};
pub use strip::replace_krc_raw;
pub use timestamp::str_to_time;
pub use transcode::{krc_times_in_range, replace_krc_time};

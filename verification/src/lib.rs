//! Host operations of an array language runtime: the catalogue of named
//! operations, the capability interface a host implements, the codecs that
//! turn arrays into images and audio, and the dispatcher that ties them
//! together.

pub mod audio;
pub mod backend;
pub mod dispatch;
pub mod imaging;
pub mod op;
pub mod text;
pub mod value;

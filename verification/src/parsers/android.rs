//! Reading the Android client's responses.
pub mod video;

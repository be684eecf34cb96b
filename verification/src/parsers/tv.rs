//! Reading the TV client's responses.
pub mod video;

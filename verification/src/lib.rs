pub mod json;
pub mod text;
pub mod utf16;
pub mod constants;
pub mod helpers;
pub mod extractors;
pub mod bindings;
pub mod parsers;
pub mod month_names;

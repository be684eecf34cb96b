//! Scraping the site's pages.
pub mod video;

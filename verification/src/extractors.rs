//! Getting the site's pages and API responses: the requests to make and
//! what to take from the replies.
pub mod ciphers;
pub mod innertube;
pub mod scrape;

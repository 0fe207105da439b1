//! The build pipeline of a static navigation-site generator: slug
//! allocation, remote-icon classification and caching, per-mode link
//! projection, page context assembly, and sitemap and robots emission,
//! each with a verified contract. Reading configuration, fetching over
//! the network, rendering templates and writing files stay with the
//! caller.


pub mod icons;
pub mod model;
pub mod options;
pub mod pages;
pub mod paths;
pub mod project;
pub mod sitemap;
pub mod slug;
pub mod strutil;
pub mod urlutil;

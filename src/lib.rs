//! A blog content pipeline: front-matter parsing, post assembly, directory
//! scanning, a read-only registry of posts and the routing decisions that
//! serve it.
pub mod blog;
pub mod code;
pub mod cv;
pub mod front_matter;
pub mod metadata;
pub mod order;
pub mod post;
pub mod registry;
pub mod routes;
pub mod text;

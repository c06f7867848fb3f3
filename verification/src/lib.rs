//! Core of a small markdown blog server.
//!
//! The library loads a markdown document with optional front-matter
//! metadata, converts its body to HTML, and renders the result through a
//! named page template.  Reading files and serving HTTP stay outside; the
//! library works on plain strings and states exactly what it produces.

pub mod errors;
pub mod frontmatter;
pub mod post;
pub mod registry;
pub mod routes;
pub mod text;

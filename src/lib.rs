//! Extraction of post content (text runs, images, documents, embedded media)
//! from forum listing pages, with the reconstruction of each post's content
//! stream proved correct.

pub mod element;
pub mod reconstruct;
pub mod text;
pub mod classify;
pub mod dom;
pub mod pattern;
pub mod urls;
pub mod extract;
pub mod page;

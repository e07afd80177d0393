//! Rasterising the pages of an uploaded document: the rules of one conversion
//! request, from the access gate to the response.

pub mod error;
pub mod fingerprint;
pub mod format;
pub mod gate;
pub mod laws;
pub mod pages;
pub mod render;
pub mod request;
pub mod response;
pub mod scale;
pub mod text;
pub mod upload;

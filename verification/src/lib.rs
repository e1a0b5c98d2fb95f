//! Planning for the conversion of a PDF document into one PNG image per page:
//! the handle that remembers what was opened, and the names of the files that
//! a conversion writes.

pub mod converter;
pub mod decimal;
pub mod naming;

pub use converter::{OpenError, PdfToImage, PdfToImageView};

//! Extraction logic for a product search-results listing page: text
//! normalisation, field extraction with ordered selector fallbacks, link
//! resolution, and the capped report that the listing produces.

pub mod text;
pub mod fields;
pub mod page;
pub mod listing;

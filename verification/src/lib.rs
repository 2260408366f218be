//! Searching an index of documents: reading a query, preparing the search, and making its result.
pub mod document;
pub mod error;
pub mod facets;
pub mod fields;
pub mod filter;
pub mod float;
pub mod formatted;
pub mod geo;
pub mod hits;
pub mod index;
pub mod json;
pub mod matcher;
pub mod options;
pub mod pagination;
pub mod perform;
pub mod positions;
pub mod prepare;
pub mod query;
pub mod result;
pub mod selector;
pub mod text;

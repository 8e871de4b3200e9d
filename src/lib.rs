//! Command line documentation lookup over the HTML pages that rustdoc
//! generates: a query such as `std::path::PathBuf.file_name` is resolved to a
//! page on disk, the useful sections of that page are extracted and they are
//! laid out as aligned plain text.
pub mod extract;
pub mod filter;
pub mod locate;
pub mod markup;
pub mod parse;
pub mod pprint;
pub mod query;
pub mod table;
pub mod text;

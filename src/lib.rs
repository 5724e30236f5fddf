//! Validation of untrusted inputs before a storage workflow trusts them: file
//! paths, file contents sniffed by signature, identifiers derived from content,
//! and URLs, together with a write-once registry keyed by those identifiers.

pub mod chars;
pub mod content;
pub mod error;
pub mod identifier;
pub mod path;
pub mod registry;
pub mod test_helper;
pub mod url;

pub use content::{
    classify_content, classify_sniffed, extension_matches, is_sniffable, normalized_extension_matches,
    validate_file, ContentGroup, ContentSubtype,
};
pub use error::ValidationError;
pub use identifier::{generate_id, validate_file_uuid, validate_uuid};
pub use path::is_valid_file_path;
pub use registry::{storage_group_path, FileRecord, Registry};
pub use test_helper::result_helper;
pub use url::{is_valid_top_level_domain, validate_url};

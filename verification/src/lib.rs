//! Show a file or directory in the desktop's file manager.
//!
//! The heart of the crate is the normalization logic every backend needs
//! before it can hand a target to its native shell service: building a
//! `file://` URI from an absolute path with percent-encoded segments,
//! rewriting Windows verbatim path prefixes into the traditional forms the
//! shell parser accepts, truncating strings at an embedded nul, and packaging
//! the `ShowItems` request sent over the desktop's session message bus.

pub mod file_uri;
pub mod percent;
pub mod show;
pub mod win_path;

pub use file_uri::path_to_file_uri;
pub use show::show_items_request_for_path;
pub use show::show_items_request_for_uri;
pub use show::truncate_at_nul;
pub use show::ShowItemsRequest;
pub use win_path::to_shell_display_name;

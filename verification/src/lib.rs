//! Filesystem utility core: directory-tree traversal with filtering,
//! checksum rendering, tree-copy planning and bulk-deletion planning.
//!
//! The traversal logic works over an in-memory snapshot of a directory
//! tree; the surrounding application performs the actual platform calls
//! and hands the snapshot in as plain values.
pub mod accum;
pub mod copy;
pub mod digest;
pub mod laws;
pub mod model;
pub mod text;
pub mod walk;

pub use accum::FileInfoList;
pub use accum::visit;
pub use copy::CopyAction;
pub use copy::copy_dir;
pub use digest::digest;
pub use model::Entry;
pub use model::Filter;
pub use model::FilterV;
pub use model::FsError;
pub use model::Root;
pub use walk::delete_files_in_dir;
pub use walk::get_all_file;
pub use walk::get_dir_list;
pub use walk::get_filelist;
pub use walk::get_files;
pub use walk::is_dir;
pub use walk::is_file;
pub use walk::list_file;
pub use walk::walk;
pub use walk::walk_dir;

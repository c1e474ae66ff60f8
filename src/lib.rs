//! Rewrites absolute paths between the Windows namespace and the namespace of
//! a WSL distribution, byte for byte.
pub mod convert;
pub mod path_type;
pub mod util;
pub mod wsl_path;

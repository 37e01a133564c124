pub mod cache;
pub mod command;
pub mod listing;
pub mod locate;
pub mod package;
pub mod resolve;
pub mod text;

pub use cache::{cache_is_fresh, decode_index, is_fresh, stamp_is_fresh, CacheError, FetchError, CACHE_TTL_SECS};
pub use command::{Cli, Commands};
pub use listing::{color_match, list, render_list};
pub use locate::LocateError;
pub use package::{Arch, Package, ParseError};
pub use resolve::{resolve, version_is_valid, ResolveError};

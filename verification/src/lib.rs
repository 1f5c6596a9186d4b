pub mod builder;
pub mod driver;
pub mod errors;
pub mod item;
pub mod paths;
pub mod relpath;
pub mod search;
pub mod store;
pub mod tails;
pub mod temp;

pub use builder::{Builder, CommandPlan, Promotion};
pub use driver::{redo, redo_ifchange, redo_ifcreate, BuildContext};
pub use errors::{optionally_exists, BuildError, IoKind};
pub use item::Item;
pub use paths::dot_if_empty;
pub use relpath::relative_to_dir;
pub use store::Store;
pub use tails::{suffix_tails, FileSuffixTails};

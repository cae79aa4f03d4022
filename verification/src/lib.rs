pub mod block;
pub mod laws;
pub mod model;
pub mod render;
pub mod scanner;
pub mod text;

pub use block::{Block, BlockKind, ScanError};
pub use render::merge_blocks;
pub use scanner::build_blocks;

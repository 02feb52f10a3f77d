pub mod appfs;
pub mod arith;
pub mod clock;
pub mod cmd;
pub mod errno;
pub mod fs;
pub mod fsignore;
pub mod fuse;
pub mod json;
pub mod nfs;
pub mod nodes;
pub mod options;
pub mod overlay;
pub mod paths;
pub mod plan;
pub mod pool;
pub mod strmap;
pub mod text;
pub mod volume;
pub mod winfsp;

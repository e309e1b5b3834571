//! Assets: handles, the asset manager and the asset pipeline.

pub mod handle;
pub mod manager;
pub mod pipeline;

pub use handle::AssetHandle;
pub use manager::{Asset, AssetManager};

//! A linear (bump) memory arena, the `Lake`, with generation-tagged handles
//! (`Droplet`, `DropletDyn`) carved from it, borrowed sub-arenas (`LakeView`),
//! a scoped roll-back guard (`SandboxGuard`) and a per-thread arena slot.
pub mod droplet;
pub mod lake;
pub mod lake_view;
pub mod meta;
pub mod model;
pub mod sandbox;
pub mod small_lake;
pub mod thread_lake;
pub mod utils;

pub use droplet::{DropletBase, DropletDeserializeExt, DropletMeta, Pod};
pub use lake::Lake;
pub use lake_view::LakeView;
pub use meta::{LakeAllocatorExt, LakeError, LakeMemory, LakeMeta, LakeSnapshot, LakeStats};
pub use sandbox::{LakeSandboxExt, SandboxGuard};

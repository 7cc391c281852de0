//! A small entity component system: entities are plain identifiers, and each
//! component type is kept in a dense list of its own that is indexed by entity.

pub mod erased;
pub mod list;
pub mod model;
pub mod registry;
pub mod spec;
pub mod sync;
pub mod system;

pub use list::ComponentList;
pub use registry::EntityRegistry;
pub use spec::{Component, ComponentListBase, EcsError, Entity};
pub use system::Ecs;

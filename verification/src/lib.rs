//! An entity-component-system toolkit in two halves.
//!
//! The generation half turns a declarative description of component types,
//! event types, and system rules into the tables that a concrete runtime is
//! built from: derived field and collection names, an entity-field table, and
//! an event-to-system dispatch table.
//!
//! The runtime half is the contract those tables are built against: an entity
//! container with `add`/`import`/`remove`/`export`, a deferred-mutation
//! buffer (`Control`) that queues structural changes and applies them in one
//! batch, and event dispatch that invokes exactly the systems registered for
//! the triggered event.

pub mod container;
pub mod control;
pub mod names;
pub mod schema;
pub mod table;
pub mod dispatch;
pub mod generate;
pub mod minimal;
pub mod events;
pub mod scene;

pub use container::{components, Components, EntityContainer, EntityId};
pub use control::Control;

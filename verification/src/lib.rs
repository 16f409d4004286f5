//! A typed, in-process event dispatch registry.
//!
//! A finite set of event categories is addressed by dense ordinals. Callbacks
//! are registered against one category and run, in registration order, when
//! that category is fired; a callback that returns `true` has handled the
//! event and stops the run.
//!
//! `engine` holds the generic engine, which takes ordinals. `schema` and
//! `compiler` turn an ordered list of category declarations into a surface:
//! the ordinal of each category and the identifiers of the items that stand
//! for it. `names` writes the texts of those identifiers, `syntax` reads them,
//! and `limits` says how much a text may hold to be read. `render` writes a
//! surface as source text, and `system` runs it as a dispatch type whose
//! categories are addressed by name.

pub mod compiler;
pub mod engine;
pub mod limits;
pub mod names;
pub mod render;
pub mod schema;
pub mod syntax;
pub mod system;

pub use compiler::{check_surface, compile};
pub use engine::{CapacityExceeded, Events, FireOutcome};
pub use names::CaseStyle;
pub use render::{create_event_system, render};
pub use schema::{Category, EventDef, FieldDef, Schema, SchemaError, Surface};
pub use system::EventSystem;

//! The scene model of a reference-image board: items on an infinite canvas,
//! selection and stacking, undoable edits, arrangement modes, the project file
//! format's decisions, transform-handle picking and the interface texts.

pub mod arrange;
pub mod commands;
pub mod export;
pub mod handles;
pub mod i18n;
pub mod images;
pub mod item;
pub mod project;
pub mod scene;
pub mod schema;
pub mod spaces;
pub mod transform;

pub use commands::Command;
pub use item::{CropRect, Item, ItemId, ItemKind};
pub use scene::Scene;
pub use spaces::{CanvasSpace, CanvasVector, Scalar, ScreenSpace};
pub use transform::Transform;

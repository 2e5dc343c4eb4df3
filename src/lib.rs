//! Loads level-design projects written by the LDtk tile-map editor into typed records.
//!
//! A document is first parsed into a plain JSON tree (`json`), then decoded into the
//! schema records (`schema`). The loader (`loader`) resolves projects whose levels are
//! stored in separate files, reading them from a table of file contents.

pub mod json;
pub mod loader;
pub mod schema;

pub use json::JsonValue;
pub use loader::{directory_of, resolve_path, LdtkJson, LoadError};
pub use schema::{
    DefEntry, Definitions, EntityInstance, EntityRef, FieldInstance, FieldKind, FieldScalar,
    FieldValue, GridPoint, TileRect,
    LayerInstance, LayerPayload, Level, Project, TileInstance,
};


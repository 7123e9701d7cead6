//! Protocol-agnostic model of tags: values, qualities, definitions and the registry that
//! holds them.

pub mod error;
pub mod json;
pub mod order_laws;
pub mod registry;
pub mod sorted_map;
pub mod tag;
pub mod tag_definition;
pub mod tag_definition_store;
pub mod tag_laws;
pub mod tag_store;
pub mod tag_value;

pub use error::CoreError;
pub use registry::TagRegistry;
pub use tag::Tag;
pub use tag_definition::TagDefinition;
pub use tag_definition_store::TagDefinitionStore;
pub use tag_store::{TagChange, TagStore};
pub use tag_value::{Float32, Float64, TagDataType, TagQuality, TagValue, WordOrder};

pub mod codec;
pub mod json;
pub mod model;
pub mod schema;
pub mod validate;

//! A small HTTP routing library: it decides, for a request's method and
//! path, which response the server gives, and writes the JSON bodies of the
//! example records it serves.
pub mod text;
pub mod model;
pub mod json;
pub mod router;

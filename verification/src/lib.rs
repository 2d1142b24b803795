//! A terminal viewer for Swagger 2.0 and OpenAPI 3.x specifications: the
//! specification model, its checks, and the state of the viewer.
pub mod text;
pub mod model;
pub mod swagger;
pub mod validate;
pub mod app;
pub mod request;
pub mod keys;
pub mod render;
pub mod screen;
pub mod laws;

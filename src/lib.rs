//! Progress-chart rendering and the cache-first request pipeline that serves it.

pub mod caches;
pub mod pipeline;
pub mod quota;
pub mod render;
pub mod scan;
pub mod service;
pub mod text;
pub mod validation;

pub use render::{generate_svg, Star, Years};
pub use validation::{validate_input, ValidationError};

pub mod encode;
pub mod json;
pub mod model;
pub mod number;
pub mod path;
pub mod query;
pub mod resolve;
pub mod synth;
pub mod text;

use vstd::prelude::*;

pub mod desktop;
pub mod engine;
pub mod fixtures;
pub mod gcc;
pub mod http;
pub mod grounded;
pub mod json;
pub mod mcp;
pub mod laws;
pub mod model;
pub mod num;
pub mod oracle;
pub mod paths;
pub mod provenance;
pub mod query;
pub mod svd;
pub mod tasks;
pub mod text;
pub mod tiers;
pub mod toolchain;
pub mod xml;

//! A module-pipeline description library: a registry of named data-processing
//! modules (transform stages and accumulating stores), a resolver that computes
//! the concrete wire type each module binding must use, and two generators that
//! project the registry into function stubs and a deployment manifest.

pub mod codegen;
pub mod module_types;
pub mod modules;
pub mod sink;
pub mod text;

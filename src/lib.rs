//! Orchestration of a source-to-target transpiler: classifying inputs, loading
//! remap configurations, translating paths, naming entry files, synthesizing a
//! package manifest and planning the output tree.
pub mod error;
pub mod text;
pub mod paths;
pub mod lines;
pub mod unit;
pub mod remap;
pub mod plan;
pub mod manifest;
pub mod tp;
pub mod steps;
pub mod logging;

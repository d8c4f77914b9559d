//! Static analysis of codebases: framework detection, route and model
//! extraction from source text, documentation claims and status reporting.
pub mod text;
pub mod types;
pub mod extractors;
pub mod context_types;
pub mod patterns;
pub mod framework_detector;
pub mod claims;
pub mod documentation;
pub mod conflict;
pub mod status;
pub mod danet;
pub mod enhanced;
pub mod context_manager;
pub mod integration_tests;
pub mod self_test;
pub mod validation_suite;
pub mod fusion;
pub mod demo;
pub mod segment_fusion;
pub mod refinement;
pub mod overlap;

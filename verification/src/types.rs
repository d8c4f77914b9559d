//! Shared vocabulary of the analyzers: frameworks, ecosystems, usage extent.
use vstd::prelude::*;

verus! {

/// A framework that the analyzers can recognise.
#[derive(Debug, Clone, Copy, PartialEq, Eq, Structural, Hash)]
pub enum Framework {
    Flask,
    FastAPI,
    Django,
    React,
    Vue,
    Angular,
    Express,
    NestJS,
    NextJS,
    SpringBoot,
    Danet,
    Actix,
    Axum,
    Warp,
}

/// The language ecosystem of a codebase.
#[derive(Debug, Clone, Copy, PartialEq, Eq, Structural, Hash)]
pub enum LanguageEcosystem {
    Python,
    JavaScript,
    TypeScript,
    Java,
    Deno,
    Rust,
    Go,
    Mixed,
}

/// How much of a codebase a detected framework covers.
#[derive(Debug, Clone, Copy, PartialEq, Eq, Structural, Hash)]
pub enum UsageExtent {
    Core,
    Extensive,
    Moderate,
    Limited,
}

} // verus!

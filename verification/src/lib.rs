//! Audits rendered Kubernetes workload manifests against a declared
//! environment-variable schema.
//!
//! The crate normalizes heterogeneous workload documents into a uniform
//! "declared environment" view (extraction), resolves the schema that applies
//! to an environment/application pair, and classifies every declared variable
//! as satisfied, defaulted, missing, extraneous, or invalid (compliance
//! checking). Reading manifests, rendering them, and formatting reports are
//! left to the surrounding program; this crate works on plain values.

pub mod checker;
pub mod config;
pub mod k8s;
pub mod pattern;
pub mod report;

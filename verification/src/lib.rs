//! Resolution, validation, secret reconciliation and rollout orchestration
//! for per-service deployment manifests.
//!
//! A raw service manifest is merged with region overrides and global
//! defaults into one canonical [`manifest::Manifest`], validated against
//! structural and cross-field invariants, populated with secrets from a
//! vault-style store, ordered by the dependency graph, and finally driven
//! through a bounded-parallelism rollout.
#![allow(non_snake_case)]

pub mod config;
pub mod envvars;
pub mod ext;
pub mod grafana;
pub mod graph;
pub mod helm;
pub mod manifest;
pub mod structs;
pub mod merge;
pub mod orchestrate;
pub mod reconcile;
pub mod slack;
pub mod strutil;
pub mod validate;
pub mod vault;

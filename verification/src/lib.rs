//! Core of a template scaffolding tool: variable resolution with case
//! transforms, conditional template-tree rendering plans, text substitution,
//! command-outcome classification, and the phased command lifecycle.
pub mod command;
pub mod conditions;
pub mod config;
pub mod lifecycle;
pub mod render;
pub mod resolver;
pub mod select;
pub mod subst;
pub mod text;
pub mod transforms;
pub mod varmap;

//! Packs a project directory into a distributable archive, guided by a
//! declarative configuration script (`fxmanifest.lua`) that lists extra
//! paths to exclude and an optional web-UI entry point to build first.
//!
//! The configuration script is treated as attacker-controlled declarative
//! data: it is read by a restricted-grammar parser that recognizes only
//! declarative statements, never executed as general code.

pub mod errors;
pub mod globs;
pub mod manifest;
pub mod pack;
pub mod packer;
pub mod script;
pub mod strutil;
pub mod web;

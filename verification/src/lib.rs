//! Catalogue browsing for a large flat namespace of names: a collation order
//! over mixed-script strings, prefix navigation against a bucket oracle, and
//! the naming rules of a sharded book archive.

pub mod collation;
pub mod navigator;
pub mod text;
pub mod archive;
pub mod atom;
pub mod codec;
pub mod opds;
pub mod database;
pub mod listing;
pub mod feeds;
pub mod filters;
pub mod pages;

//! A root-confined directory explorer core.
//!
//! The library turns an untrusted requested path into a validated,
//! root-confined filesystem location, classifies the children of a listed
//! directory into link-safe entries, and orders them deterministically.
//! All filesystem access (canonicalization, directory iteration) is left to
//! the embedding program, which feeds the outcomes back in as plain values;
//! every decision taken on those outcomes is verified here.

pub mod controller;
pub mod entries;
pub mod listing;
pub mod paths;
pub mod resolver;
pub mod sorting;

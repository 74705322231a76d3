//! The fabricator document language: its text grammar and the register
//! graph a document describes.

pub mod display;
pub mod document;
pub mod lists;
pub mod names;
pub mod string;
pub mod structure;

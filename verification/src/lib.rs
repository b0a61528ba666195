//! Turns a deck of cards into a printable document: which images to fetch and
//! how to retry, in which order to fetch them, and where each image goes on
//! which page. Everything here is pure; the caller performs the network and
//! file operations that the functions ask for.

pub mod assemble;
pub mod batch;
pub mod deck;
pub mod fetch;
pub mod layout;
pub mod local;
pub mod remote;
pub mod source;
pub mod text;

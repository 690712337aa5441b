//! Verified extraction of per-spectrum metadata and binary peak arrays from
//! mzML documents: an offset-index reader, a byte-scanning spectrum block
//! extractor, and a base64 / zlib / IEEE-754 binary array decoder.
use vstd::prelude::*;

pub mod attrs;
pub mod base64;
pub mod binary;
pub mod foreign;
pub mod index;
pub mod parse;
pub mod pat;
pub mod scan;
pub mod spectrum;
pub mod tree;

verus! {

} // verus!

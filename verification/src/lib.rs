//! A composable grammar-matching engine.
//!
//! Grammars are built from small matching primitives (literal text, keywords,
//! character-class words, regular expressions) combined through operators
//! (sequence, alternation, repetition, grouping, suppression, concatenation,
//! deferred reference).  A grammar consumes a text buffer from a given offset
//! and either produces a structured result together with a new offset, or
//! fails with a location-tagged diagnostic.
//!
//! Offsets throughout the crate count Unicode scalar values (`char`s) of the
//! input, matching the `Seq<char>` view that contracts are stated over.

pub mod context;
pub mod elements;
pub mod engine;
pub mod exceptions;
pub mod laws;
pub mod parser;
pub mod results;
pub mod semantics;

use vstd::prelude::*;

verus! {

/// The ASCII letters, the conventional head set for identifiers.
pub fn alphas() -> (r: &'static str)
    ensures
        r@ == "ABCDEFGHIJKLMNOPQRSTUVWXYZabcdefghijklmnopqrstuvwxyz"@,
{
    "ABCDEFGHIJKLMNOPQRSTUVWXYZabcdefghijklmnopqrstuvwxyz"
}

/// The ASCII letters and digits.
pub fn alphanums() -> (r: &'static str)
    ensures
        r@ == "ABCDEFGHIJKLMNOPQRSTUVWXYZabcdefghijklmnopqrstuvwxyz0123456789"@,
{
    "ABCDEFGHIJKLMNOPQRSTUVWXYZabcdefghijklmnopqrstuvwxyz0123456789"
}

/// The ASCII digits.
pub fn nums() -> (r: &'static str)
    ensures
        r@ == "0123456789"@,
{
    "0123456789"
}

/// The printable ASCII characters other than space.
pub fn printables() -> (r: &'static str)
    ensures
        r@ == "0123456789abcdefghijklmnopqrstuvwxyzABCDEFGHIJKLMNOPQRSTUVWXYZ!\"#$%&'()*+,-./:;<=>?@[\\]^_`{|}~"@,
{
    "0123456789abcdefghijklmnopqrstuvwxyzABCDEFGHIJKLMNOPQRSTUVWXYZ!\"#$%&'()*+,-./:;<=>?@[\\]^_`{|}~"
}

} // verus!

//! Failure values produced by grammar matching.
//!
//! There are two kinds: a recoverable failure ([`ParseException`]) that
//! alternation and optional wrappers may route around, and a fatal failure
//! ([`ParseFatalException`]) intended to abort backtracking outright.  The
//! core combinators treat every failure they see as recoverable; the fatal
//! kind is part of the public vocabulary for callers that want to signal a
//! structural grammar error.

use vstd::prelude::*;

verus! {

/// A recoverable match failure: the offset at which matching stopped and a
/// human-readable expectation message.
#[derive(Debug, Clone)]
pub struct ParseException {
    pub loc: usize,
    pub msg: String,
}

impl ParseException {
    pub fn new(loc: usize, msg: &str) -> (e: ParseException)
        ensures
            e.loc == loc,
            e.msg@ == msg@,
    {
        ParseException { loc, msg: msg.to_owned() }
    }
}

/// A non-recoverable failure: alternation is not meant to try further
/// branches after seeing one of these.
#[derive(Debug, Clone)]
pub struct ParseFatalException {
    pub loc: usize,
    pub msg: String,
}

impl ParseFatalException {
    pub fn new(loc: usize, msg: &str) -> (e: ParseFatalException)
        ensures
            e.loc == loc,
            e.msg@ == msg@,
    {
        ParseFatalException { loc, msg: msg.to_owned() }
    }
}

} // verus!

use crate::span::Span;
use crate::types::Type;
use vstd::prelude::*;

verus! {

/// One diagnostic, as structured data: rendering to text is the host's
/// business, not this crate's. Every kind carries the source location it
/// points at, and whatever types or names explain it.
#[derive(Debug)]
pub enum Report {
    /// Two types failed to morph or equate: the type the context expected,
    /// where that expectation was declared ("expected because of this"), the
    /// type actually found, and where it was found.
    TypeMismatch {
        /// The type the context expected
        expected: Type,
        /// Where the expectation was declared
        expected_span: Span,
        /// The type actually found
        got: Type,
        /// Where the offending expression stands
        span: Span,
    },
    /// After finish-and-check, a slot still held a wildcard, an integer
    /// wildcard or an unresolved type variable: inference could not pin the
    /// type down.
    IncompleteType {
        /// The unresolved type as inference left it
        got: Type,
        /// Where the unresolved slot stands
        span: Span,
    },
    /// A symbol occurrence was never attached to its declaration.
    UnresolvedSymbol {
        /// The name as written at the occurrence
        name: String,
        /// Where the occurrence stands
        span: Span,
    },
}

/// An append-only sink of diagnostics. Errors accumulate here instead of
/// stopping traversal: one failed compilation reports every distinct error.
#[derive(Debug)]
pub struct Reporter {
    /// Every diagnostic reported so far, in the order reported
    pub reports: Vec<Report>,
}

impl Reporter {
    /// A fresh reporter with nothing reported.
    pub fn new() -> (r: Reporter)
        ensures
            r.reports@.len() == 0,
    {
        Reporter { reports: Vec::new() }
    }

    /// Append one diagnostic; nothing already reported is touched.
    pub fn report(&mut self, report: Report)
        ensures
            final(self).reports@ == old(self).reports@.push(report),
    {
        self.reports.push(report);
    }

    /// How many diagnostics have been reported.
    pub fn len(&self) -> (n: usize)
        ensures
            n == self.reports@.len(),
    {
        self.reports.len()
    }
}

} // verus!

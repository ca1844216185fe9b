use vstd::prelude::*;
use crate::pipeline::PipelineError;

verus! {

/// Everything of the document before the first fragment.
pub const DOCUMENT_HEAD: &'static str = "<!DOCTYPE html><html><head><meta charset='utf-8'><style>body { font-family: Consolas, monospace; }</style></head><body>";

/// Everything of the document after the last fragment.
pub const DOCUMENT_TAIL: &'static str = "</body></html>";

/// The fragments one after another.
pub open spec fn joined(fragments: Seq<String>) -> Seq<char>
    decreases fragments.len(),
{
    if fragments.len() == 0 {
        Seq::empty()
    } else {
        joined(fragments.drop_last()) + fragments.last()@
    }
}

/// The outcome of one entry: its fragment, or the failure that ends the run.
pub type EntryResult = Result<String, PipelineError>;

/// The report of a run: the fragments of the entries done so far, in order, and the
/// failure that stopped the run, if one did.
#[derive(Debug)]
pub struct Report {
    pub fragments: Vec<String>,
    pub failure: Option<PipelineError>,
}

/// The report after one more entry: once a failure is recorded nothing more is taken.
pub open spec fn after_entry(
    fragments: Seq<String>,
    failure: Option<PipelineError>,
    result: EntryResult,
) -> (Seq<String>, Option<PipelineError>) {
    if failure is Some {
        (fragments, failure)
    } else {
        match result {
            Ok(f) => (fragments.push(f), None),
            Err(e) => (fragments, Some(e)),
        }
    }
}

/// The report after the entries' results, from an empty one.
pub open spec fn after_entries(results: Seq<EntryResult>) -> (Seq<String>, Option<PipelineError>)
    decreases results.len(),
{
    if results.len() == 0 {
        (Seq::empty(), None)
    } else {
        let prev = after_entries(results.drop_last());
        after_entry(prev.0, prev.1, results.last())
    }
}

impl Report {
    pub fn new() -> (r: Report)
        ensures
            r.fragments@.len() == 0,
            r.failure is None,
    {
        Report { fragments: Vec::new(), failure: None }
    }

    /// Whether a failure has ended the run.
    pub fn is_halted(&self) -> (r: bool)
        ensures
            r == self.failure is Some,
    {
        self.failure.is_some()
    }

    /// Takes the outcome of the next entry.
    pub fn record(&mut self, result: EntryResult)
        ensures
            (final(self).fragments@, final(self).failure) == after_entry(
                old(self).fragments@,
                old(self).failure,
                result,
            ),
    {
        if self.failure.is_none() {
            match result {
                Ok(f) => self.fragments.push(f),
                Err(e) => self.failure = Some(e),
            }
        }
    }

    /// The whole document: the fixed head, the fragments in order, the closing tags.
    pub fn document(&self) -> (r: String)
        ensures
            r@ == DOCUMENT_HEAD@ + joined(self.fragments@) + DOCUMENT_TAIL@,
    {
        let mut r = String::from_str(DOCUMENT_HEAD);
        let mut i: usize = 0;
        while i < self.fragments.len()
            invariant
                i <= self.fragments@.len(),
                r@ == DOCUMENT_HEAD@ + joined(self.fragments@.subrange(0, i as int)),
            decreases self.fragments@.len() - i,
        {
            proof {
                assert(self.fragments@.subrange(0, i + 1).drop_last() == self.fragments@.subrange(0, i as int));
            }
            r.append(self.fragments[i].as_str());
            i = i + 1;
        }
        proof {
            assert(self.fragments@.subrange(0, i as int) == self.fragments@);
        }
        r.append(DOCUMENT_TAIL);
        r
    }
}

/// Once an entry fails, the run is over: the report holds the fragments of the entries
/// before it, and none of the entries after it, whatever they gave.
pub proof fn lemma_failure_stops_run(results: Seq<EntryResult>, k: int)
    requires
        0 <= k < results.len(),
        results[k] is Err,
    ensures
        after_entries(results).0 == after_entries(results.take(k)).0,
        after_entries(results).1 is Some,
    decreases results.len(),
{
    if results.len() == k + 1 {
        assert(results.drop_last() == results.take(k));
    } else {
        assert(results.drop_last().take(k) == results.take(k));
        assert(results.drop_last()[k] == results[k]);
        lemma_failure_stops_run(results.drop_last(), k);
    }
}

} // verus!

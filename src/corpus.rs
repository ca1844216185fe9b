use vstd::prelude::*;

verus! {

/// One repository of the corpus, with what it takes to fetch it and run the tool on it.
#[derive(Debug)]
pub struct RepositoryDescriptor {
    /// Unique key; names the scratch directory and heads the report fragment.
    pub id: String,
    /// The branch or tag to fetch.
    pub git_ref: String,
    /// Where the repository is fetched from.
    pub location: String,
    /// Passed as they are to both runs of the tool.
    pub invocation_args: Vec<String>,
    /// Whether the standard-definitions file must be generated before each run.
    pub needs_pregeneration: bool,
}

/// Lexicographic order on texts, character by character; a proper prefix comes first.
pub open spec fn id_less(a: Seq<char>, b: Seq<char>) -> bool
    decreases a.len(),
{
    if a.len() == 0 {
        b.len() > 0
    } else if b.len() == 0 {
        false
    } else if a[0] != b[0] {
        (a[0] as u32) < (b[0] as u32)
    } else {
        id_less(a.drop_first(), b.drop_first())
    }
}

pub proof fn lemma_less_irreflexive(a: Seq<char>)
    ensures
        !id_less(a, a),
    decreases a.len(),
{
    if a.len() > 0 {
        lemma_less_irreflexive(a.drop_first());
    }
}

pub proof fn lemma_less_asymmetric(a: Seq<char>, b: Seq<char>)
    ensures
        !(id_less(a, b) && id_less(b, a)),
    decreases a.len(),
{
    if a.len() > 0 && b.len() > 0 && a[0] == b[0] {
        lemma_less_asymmetric(a.drop_first(), b.drop_first());
    }
}

pub proof fn lemma_less_total(a: Seq<char>, b: Seq<char>)
    ensures
        a != b ==> id_less(a, b) || id_less(b, a),
    decreases a.len(),
{
    if a.len() == 0 && b.len() == 0 {
        assert(a =~= b);
    } else if a.len() > 0 && b.len() > 0 {
        if a[0] == b[0] {
            lemma_less_total(a.drop_first(), b.drop_first());
            if a.drop_first() == b.drop_first() {
                assert(a =~= seq![a[0]] + a.drop_first());
                assert(b =~= seq![b[0]] + b.drop_first());
            }
        } else {
            vstd::utf8::char_u32_cast(a[0], a[0] as u32);
            vstd::utf8::char_u32_cast(b[0], b[0] as u32);
        }
    }
}

pub proof fn lemma_less_transitive(a: Seq<char>, b: Seq<char>, c: Seq<char>)
    requires
        id_less(a, b),
        id_less(b, c),
    ensures
        id_less(a, c),
    decreases a.len(),
{
    if a.len() > 0 && b.len() > 0 && c.len() > 0 && a[0] == b[0] && b[0] == c[0] {
        lemma_less_transitive(a.drop_first(), b.drop_first(), c.drop_first());
    }
}

/// The ids of the entries, in order.
pub open spec fn ids(entries: Seq<RepositoryDescriptor>) -> Seq<Seq<char>> {
    entries.map_values(|e: RepositoryDescriptor| e.id@)
}

/// Each id comes before every later one: sorted, and no id twice.
pub open spec fn strictly_ordered(ids: Seq<Seq<char>>) -> bool {
    forall|i: int, j: int| 0 <= i < j < ids.len() ==> id_less(#[trigger] ids[i], #[trigger] ids[j])
}

/// Whether some two entries share an id.
pub open spec fn has_duplicate(entries: Seq<RepositoryDescriptor>) -> bool {
    exists|i: int, j: int| 0 <= i < j < entries.len() && #[trigger] entries[i].id@ == #[trigger] entries[j].id@
}

/// Why a manifest does not make a corpus.
#[derive(Debug)]
pub enum CorpusError {
    /// Two entries have this id.
    DuplicateId(String),
}

/// The corpus: its entries ordered by id.
#[derive(Debug)]
pub struct Corpus {
    pub entries: Vec<RepositoryDescriptor>,
}

/// Compares two ids in the corpus order.
pub fn compare_ids(a: &str, b: &str) -> (r: bool)
    ensures
        r == id_less(a@, b@),
{
    let la = a.unicode_len();
    let lb = b.unicode_len();
    let mut i: usize = 0;
    proof {
        assert(a@.skip(0) == a@);
        assert(b@.skip(0) == b@);
    }
    while i < la && i < lb
        invariant
            la == a@.len(),
            lb == b@.len(),
            i <= la,
            i <= lb,
            id_less(a@, b@) == id_less(a@.skip(i as int), b@.skip(i as int)),
        decreases la - i,
    {
        let ca = a.get_char(i);
        let cb = b.get_char(i);
        proof {
            assert(a@.skip(i as int)[0] == ca);
            assert(b@.skip(i as int)[0] == cb);
            assert(a@.skip(i as int).drop_first() == a@.skip(i + 1));
            assert(b@.skip(i as int).drop_first() == b@.skip(i + 1));
        }
        if ca != cb {
            return (ca as u32) < (cb as u32);
        }
        i = i + 1;
    }
    i < lb
}

/// Whether the corpus holds exactly the given entries.
pub open spec fn holds_exactly(c: Seq<RepositoryDescriptor>, given: Seq<RepositoryDescriptor>) -> bool {
    &&& c.len() == given.len()
    &&& forall|e: RepositoryDescriptor| c.contains(e) <==> given.contains(e)
}

impl Corpus {
    /// The entries are ordered by id with no id twice.
    pub open spec fn wf(&self) -> bool {
        strictly_ordered(ids(self.entries@))
    }

    pub fn new() -> (r: Corpus)
        ensures
            r.wf(),
            r.entries@.len() == 0,
    {
        Corpus { entries: Vec::new() }
    }

    /// Adds the entry in its place by id; an id that is there already is refused and the
    /// corpus stays as it was.
    pub fn insert(&mut self, entry: RepositoryDescriptor) -> (r: Result<(), CorpusError>)
        requires
            old(self).wf(),
        ensures
            final(self).wf(),
            r is Err <==> ids(old(self).entries@).contains(entry.id@),
            r matches Err(CorpusError::DuplicateId(d)) ==> d@ == entry.id@,
            r is Err ==> final(self).entries@ == old(self).entries@,
            r is Ok ==> exists|p: int| 0 <= p <= old(self).entries@.len()
                && final(self).entries@ == old(self).entries@.insert(p, entry),
    {
        let n = self.entries.len();
        let mut p: usize = 0;
        while p < n && compare_ids(self.entries[p].id.as_str(), entry.id.as_str())
            invariant
                n == self.entries@.len(),
                p <= n,
                self.entries@ == old(self).entries@,
                self.wf(),
                forall|i: int| 0 <= i < p ==> id_less(#[trigger] ids(self.entries@)[i], entry.id@),
            decreases n - p,
        {
            p = p + 1;
        }
        let ghost s = ids(self.entries@);
        let ghost x = entry.id@;
        if p < n && self.entries[p].id == entry.id {
            proof {
                assert(s[p as int] == x);
            }
            return Err(CorpusError::DuplicateId(entry.id));
        }
        proof {
            if p < n {
                lemma_less_total(s[p as int], x);
                assert(id_less(x, s[p as int]));
                assert forall|j: int| p <= j < n implies id_less(x, #[trigger] s[j]) by {
                    if j > p {
                        lemma_less_transitive(x, s[p as int], s[j]);
                    }
                }
            }
            assert forall|j: int| 0 <= j < s.len() implies #[trigger] s[j] != x by {
                if j < p {
                    lemma_less_irreflexive(x);
                } else {
                    lemma_less_irreflexive(x);
                }
            }
        }
        self.entries.insert(p, entry);
        proof {
            let t = ids(self.entries@);
            assert(t =~= s.insert(p as int, x));
            assert forall|i: int, j: int| 0 <= i < j < t.len() implies id_less(#[trigger] t[i], #[trigger] t[j]) by {
                if j < p {
                } else if j == p {
                } else if i < p {
                    assert(t[j] == s[j - 1]);
                } else if i == p {
                    assert(t[j] == s[j - 1]);
                } else {
                    assert(t[i] == s[i - 1]);
                    assert(t[j] == s[j - 1]);
                }
            }
            assert(!s.contains(x));
        }
        Ok(())
    }

    /// Builds the corpus from the manifest's entries, given in any order. Two entries
    /// with one id make the manifest malformed.
    #[verifier::loop_isolation(false)]
    pub fn load(entries: Vec<RepositoryDescriptor>) -> (r: Result<Corpus, CorpusError>)
        ensures
            r is Err <==> has_duplicate(entries@),
            r matches Ok(c) ==> c.wf() && holds_exactly(c.entries@, entries@),
            r matches Err(CorpusError::DuplicateId(d)) ==> ids(entries@).contains(d@),
    {
        let ghost all = entries@;
        let ghost n = entries@.len() as int;
        let mut rest = entries;
        let mut corpus = Corpus::new();
        proof {
            assert(all.subrange(n, n) =~= Seq::<RepositoryDescriptor>::empty());
            assert(rest@.subrange(0, n) == all);
        }
        while rest.len() > 0
            invariant
                rest@.len() <= n,
                rest@ == all.subrange(0, rest@.len() as int),
                n == all.len(),
                corpus.wf(),
                holds_exactly(corpus.entries@, all.subrange(rest@.len() as int, n)),
                !has_duplicate(all.subrange(rest@.len() as int, n)),
            decreases rest@.len(),
        {
            let ghost suf = all.subrange(rest@.len() as int, n);
            let ghost c = corpus.entries@;
            let e = rest.pop().unwrap();
            let ghost m = rest@.len() as int;
            let ghost suf2 = all.subrange(m, n);
            proof {
                assert(e == all[m]);
                assert(suf2 =~= seq![e] + suf);
            }
            let ghost eid = e.id@;
            match corpus.insert(e) {
                Err(err) => {
                    proof {
                        let k = choose|k: int| 0 <= k < ids(c).len() && ids(c)[k] == eid;
                        assert(c.contains(c[k]));
                        assert(suf.contains(c[k]));
                        let j = choose|j: int| 0 <= j < suf.len() && suf[j] == c[k];
                        assert(all[m] == e && all[m + 1 + j] == suf[j]);
                        assert(all[m].id@ == all[m + 1 + j].id@);
                        assert(ids(all)[m] == eid);
                        assert(ids(all).contains(eid));
                        assert(has_duplicate(all));
                    }
                    return Err(err);
                },
                Ok(()) => {
                    proof {
                        let c2 = corpus.entries@;
                        let p = choose|p: int| 0 <= p <= c.len() && c2 == c.insert(p, e);
                        assert forall|x: RepositoryDescriptor| c2.contains(x) <==> suf2.contains(x) by {
                            if c2.contains(x) {
                                let i = choose|i: int| 0 <= i < c2.len() && c2[i] == x;
                                if i < p {
                                    assert(c.contains(c[i]));
                                    let j = choose|j: int| 0 <= j < suf.len() && suf[j] == x;
                                    assert(suf2[j + 1] == x);
                                } else if i == p {
                                    assert(suf2[0] == x);
                                } else {
                                    assert(c2[i] == c[i - 1]);
                                    assert(c.contains(c[i - 1]));
                                    let j = choose|j: int| 0 <= j < suf.len() && suf[j] == x;
                                    assert(suf2[j + 1] == x);
                                }
                            }
                            if suf2.contains(x) {
                                let j = choose|j: int| 0 <= j < suf2.len() && suf2[j] == x;
                                if j == 0 {
                                    assert(c2[p] == x);
                                } else {
                                    assert(suf[j - 1] == x);
                                    assert(suf.contains(x));
                                    let i = choose|i: int| 0 <= i < c.len() && c[i] == x;
                                    if i < p {
                                        assert(c2[i] == x);
                                    } else {
                                        assert(c2[i + 1] == x);
                                    }
                                }
                            }
                        }
                        assert forall|i: int, j: int| 0 <= i < j < suf2.len() implies #[trigger] suf2[i].id@ != #[trigger] suf2[j].id@ by {
                            if i == 0 {
                                assert(suf2[j] == suf[j - 1]);
                                assert(suf.contains(suf[j - 1]));
                                assert(c.contains(suf[j - 1]));
                                let k = choose|k: int| 0 <= k < c.len() && c[k] == suf[j - 1];
                                assert(ids(c)[k] == suf2[j].id@);
                                if suf2[0].id@ == suf2[j].id@ {
                                    assert(ids(c).contains(eid));
                                }
                            } else {
                                assert(suf2[i] == suf[i - 1]);
                                assert(suf2[j] == suf[j - 1]);
                            }
                        }
                    }
                },
            }
        }
        proof {
            assert(all.subrange(0, n) == all);
        }
        Ok(corpus)
    }
}

/// Two lists ordered by id that hold the same entries are the same list.
pub proof fn lemma_same_entries_same_order(a: Seq<RepositoryDescriptor>, b: Seq<RepositoryDescriptor>)
    requires
        strictly_ordered(ids(a)),
        strictly_ordered(ids(b)),
        forall|e: RepositoryDescriptor| a.contains(e) <==> b.contains(e),
    ensures
        a == b,
    decreases a.len(),
{
    if a.len() == 0 {
        if b.len() > 0 {
            assert(b.contains(b[0]));
        }
        assert(a =~= b);
    } else {
        assert(a.contains(a[0]));
        assert(b.len() > 0);
        assert(b.contains(b[0]));
        let k = choose|k: int| 0 <= k < a.len() && a[k] == b[0];
        let l = choose|l: int| 0 <= l < b.len() && b[l] == a[0];
        if k > 0 && l > 0 {
            assert(ids(a)[0] == a[0].id@ && ids(a)[k] == b[0].id@);
            assert(ids(b)[0] == b[0].id@ && ids(b)[l] == a[0].id@);
            lemma_less_asymmetric(a[0].id@, b[0].id@);
        }
        assert(a[0] == b[0]);
        let ra = a.drop_first();
        let rb = b.drop_first();
        assert forall|i: int, j: int| 0 <= i < j < ids(ra).len() implies id_less(#[trigger] ids(ra)[i], #[trigger] ids(ra)[j]) by {
            assert(ids(ra)[i] == ids(a)[i + 1] && ids(ra)[j] == ids(a)[j + 1]);
        }
        assert forall|i: int, j: int| 0 <= i < j < ids(rb).len() implies id_less(#[trigger] ids(rb)[i], #[trigger] ids(rb)[j]) by {
            assert(ids(rb)[i] == ids(b)[i + 1] && ids(rb)[j] == ids(b)[j + 1]);
        }
        assert forall|e: RepositoryDescriptor| ra.contains(e) <==> rb.contains(e) by {
            if ra.contains(e) {
                let i = choose|i: int| 0 <= i < ra.len() && ra[i] == e;
                assert(a[i + 1] == e);
                assert(ids(a)[0] == a[0].id@ && ids(a)[i + 1] == e.id@);
                lemma_less_irreflexive(e.id@);
                assert(e != a[0]);
                assert(a.contains(e));
                let j = choose|j: int| 0 <= j < b.len() && b[j] == e;
                assert(j != 0);
                assert(rb[j - 1] == e);
            }
            if rb.contains(e) {
                let i = choose|i: int| 0 <= i < rb.len() && rb[i] == e;
                assert(b[i + 1] == e);
                assert(ids(b)[0] == b[0].id@ && ids(b)[i + 1] == e.id@);
                lemma_less_irreflexive(e.id@);
                assert(e != b[0]);
                assert(b.contains(e));
                let j = choose|j: int| 0 <= j < a.len() && a[j] == e;
                assert(j != 0);
                assert(ra[j - 1] == e);
            }
        }
        lemma_same_entries_same_order(ra, rb);
        assert(a =~= seq![a[0]] + ra);
        assert(b =~= seq![b[0]] + rb);
    }
}

/// Loading is deterministic: two corpora loaded from the same entries list them in the
/// same order, the order of their ids.
pub proof fn lemma_load_deterministic(entries: Seq<RepositoryDescriptor>, c1: Corpus, c2: Corpus)
    requires
        c1.wf(),
        c2.wf(),
        holds_exactly(c1.entries@, entries),
        holds_exactly(c2.entries@, entries),
    ensures
        c1.entries@ == c2.entries@,
        ids(c1.entries@) == ids(c2.entries@),
{
    lemma_same_entries_same_order(c1.entries@, c2.entries@);
}

} // verus!

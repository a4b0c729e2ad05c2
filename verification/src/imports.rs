//! The import collector: an accumulating set of support-library statements,
//! populated as a side effect of rendering and flushed once at the end.
//! Registration is idempotent and the flushed statements come out
//! deduplicated, in lexicographic order, independent of registration order.
//!
//! The collector keeps its statements in a vector whose invariant is strict
//! lexicographic sortedness, which makes deduplication and the deterministic
//! flush order part of the data structure itself.
use vstd::prelude::*;

verus! {

/// Lexicographic order on character sequences, by Unicode code point.
pub open spec fn seq_lt(a: Seq<char>, b: Seq<char>) -> bool
    decreases a.len(),
{
    if b.len() == 0 {
        false
    } else if a.len() == 0 {
        true
    } else if a[0] != b[0] {
        a[0] < b[0]
    } else {
        seq_lt(a.skip(1), b.skip(1))
    }
}

/// No sequence is lexicographically below itself.
pub proof fn lemma_seq_lt_irreflexive(a: Seq<char>)
    ensures
        !seq_lt(a, a),
    decreases a.len(),
{
    if a.len() > 0 {
        lemma_seq_lt_irreflexive(a.skip(1));
    }
}

/// Lexicographic order is transitive.
pub proof fn lemma_seq_lt_transitive(a: Seq<char>, b: Seq<char>, c: Seq<char>)
    requires
        seq_lt(a, b),
        seq_lt(b, c),
    ensures
        seq_lt(a, c),
    decreases a.len(),
{
    if a.len() == 0 {
    } else {
        if a[0] == b[0] && b[0] == c[0] {
            lemma_seq_lt_transitive(a.skip(1), b.skip(1), c.skip(1));
        }
    }
}

/// Any two sequences are ordered one way, the other, or equal.
pub proof fn lemma_seq_lt_trichotomy(a: Seq<char>, b: Seq<char>)
    ensures
        seq_lt(a, b) || seq_lt(b, a) || a == b,
    decreases a.len(),
{
    if a.len() == 0 && b.len() == 0 {
        assert(a =~= b);
    } else if a.len() > 0 && b.len() > 0 && a[0] == b[0] {
        lemma_seq_lt_trichotomy(a.skip(1), b.skip(1));
        if a.skip(1) == b.skip(1) {
            assert(a.skip(1).len() == b.skip(1).len());
            assert(a.len() == b.len());
            assert forall|i: int| 0 <= i < a.len() implies a[i] == b[i] by {
                if i > 0 {
                    assert(a[i] == a.skip(1)[i - 1]);
                    assert(b[i] == b.skip(1)[i - 1]);
                }
            }
            assert(a =~= b);
        }
    }
}

/// Comparing two sequences that agree on a common prefix comes down to
/// comparing what is left after that prefix.
pub proof fn lemma_seq_lt_skip(a: Seq<char>, b: Seq<char>, i: int)
    requires
        0 <= i <= a.len(),
        i <= b.len(),
        forall|j: int| 0 <= j < i ==> a[j] == b[j],
    ensures
        seq_lt(a, b) == seq_lt(a.skip(i), b.skip(i)),
    decreases i,
{
    if i == 0 {
        assert(a.skip(0) =~= a);
        assert(b.skip(0) =~= b);
    } else {
        lemma_seq_lt_skip(a.skip(1), b.skip(1), i - 1);
        assert(a.skip(1).skip(i - 1) =~= a.skip(i));
        assert(b.skip(1).skip(i - 1) =~= b.skip(i));
    }
}

/// Lexicographic comparison of two strings.
pub fn str_lt(a: &str, b: &str) -> (r: bool)
    ensures
        r == seq_lt(a@, b@),
{
    let alen = a.unicode_len();
    let blen = b.unicode_len();
    let mut i: usize = 0;
    while i < alen && i < blen
        invariant
            i <= alen,
            i <= blen,
            alen == a@.len(),
            blen == b@.len(),
            forall|j: int| 0 <= j < i ==> a@[j] == b@[j],
        decreases alen - i,
    {
        let ca = a.get_char(i);
        let cb = b.get_char(i);
        if ca != cb {
            proof {
                lemma_seq_lt_skip(a@, b@, i as int);
            }
            return ca < cb;
        }
        i = i + 1;
    }
    proof {
        lemma_seq_lt_skip(a@, b@, i as int);
    }
    alen < blen
}

/// The set of registered statements, deduplicated and in lexicographic
/// order. Statements are registered while the renderer walks the tree and
/// flushed once, at the end of a rendering pass.
pub struct ImportSet {
    statements: Vec<String>,
}

impl ImportSet {
    /// The registered statements, in their stored order.
    pub closed spec fn strs(self) -> Seq<Seq<char>> {
        self.statements@.map_values(|s: String| s@)
    }

    /// Well-formed: strictly sorted, hence free of duplicates.
    pub open spec fn wf(self) -> bool {
        forall|i: int, j: int|
            0 <= i < j < self.strs().len() ==> seq_lt(self.strs()[i], self.strs()[j])
    }

    /// A fresh, empty collector for one rendering pass.
    pub fn new() -> (r: ImportSet)
        ensures
            r.wf(),
            r.strs() == Seq::<Seq<char>>::empty(),
    {
        let r = ImportSet { statements: Vec::new() };
        proof {
            assert(r.strs() =~= Seq::<Seq<char>>::empty());
        }
        r
    }

    /// How many distinct statements have been registered.
    pub fn count(&self) -> (n: usize)
        ensures
            n == self.strs().len(),
    {
        self.statements.len()
    }

    /// The statement at a position of the sorted order.
    pub fn stmt_at(&self, i: usize) -> (r: &String)
        requires
            i < self.strs().len(),
        ensures
            r@ == self.strs()[i as int],
    {
        &self.statements[i]
    }

    /// Registers one statement. Idempotent: the set of statements afterwards
    /// is the old set plus this statement, and the sorted order is kept.
    pub fn register(&mut self, stmt: &str)
        requires
            old(self).wf(),
        ensures
            final(self).wf(),
            final(self).strs().to_set() == old(self).strs().to_set().insert(stmt@),
    {
        let len = self.statements.len();
        let mut idx: usize = 0;
        while idx < len && str_lt(self.statements[idx].as_str(), stmt)
            invariant
                idx <= len,
                len == self.strs().len(),
                self.wf(),
                forall|j: int| 0 <= j < idx ==> seq_lt(self.strs()[j], stmt@),
            decreases len - idx,
        {
            idx = idx + 1;
        }
        if idx < len && !str_lt(stmt, self.statements[idx].as_str()) {
            proof {
                lemma_seq_lt_trichotomy(stmt@, self.strs()[idx as int]);
                assert(self.strs()[idx as int] == stmt@);
                assert(self.strs().to_set().contains(stmt@));
                assert(self.strs().to_set() =~= old(self).strs().to_set().insert(stmt@));
            }
        } else {
            let ghost pre = self.strs();
            self.statements.insert(idx, stmt.to_owned());
            proof {
                let post = self.strs();
                assert(post =~= pre.insert(idx as int, stmt@));
                // The new statement sits below everything from idx on.
                assert forall|k: int| idx <= k < pre.len() implies seq_lt(stmt@, pre[k]) by {
                    if k > idx {
                        lemma_seq_lt_transitive(stmt@, pre[idx as int], pre[k]);
                    }
                }
                assert forall|i: int, j: int| 0 <= i < j < post.len() implies seq_lt(
                    post[i],
                    post[j],
                ) by {
                    if j < idx {
                    } else if i > idx {
                        assert(post[i] == pre[i - 1]);
                        assert(post[j] == pre[j - 1]);
                    } else if i == idx {
                        assert(post[j] == pre[j - 1]);
                    } else if j == idx {
                        // everything before idx is below stmt@.
                    } else {
                        // i < idx < j
                        assert(post[j] == pre[j - 1]);
                        lemma_seq_lt_transitive(pre[i], stmt@, pre[j - 1]);
                    }
                }
                assert forall|x: Seq<char>| post.to_set().contains(x) implies pre.to_set().insert(
                    stmt@,
                ).contains(x) by {
                    let k = choose|k: int| 0 <= k < post.len() && post[k] == x;
                    if k < idx {
                        assert(pre[k] == x);
                    } else if k > idx {
                        assert(pre[k - 1] == x);
                    }
                }
                assert forall|x: Seq<char>| pre.to_set().insert(stmt@).contains(x) implies post
                    .to_set().contains(x) by {
                    if x == stmt@ {
                        assert(post[idx as int] == x);
                    } else {
                        let k = choose|k: int| 0 <= k < pre.len() && pre[k] == x;
                        if k < idx {
                            assert(post[k] == x);
                        } else {
                            assert(post[k + 1] == x);
                        }
                    }
                }
                assert(post.to_set() =~= pre.to_set().insert(stmt@));
            }
        }
    }
}

/// A well-formed collector is determined by its set of statements: two
/// collectors that hold the same statements flush them in the same order.
pub proof fn lemma_sorted_unique_representation(a: Seq<Seq<char>>, b: Seq<Seq<char>>)
    requires
        forall|i: int, j: int| 0 <= i < j < a.len() ==> seq_lt(a[i], a[j]),
        forall|i: int, j: int| 0 <= i < j < b.len() ==> seq_lt(b[i], b[j]),
        a.to_set() == b.to_set(),
    ensures
        a == b,
    decreases a.len(),
{
    if a.len() == 0 && b.len() == 0 {
        assert(a =~= b);
    } else if a.len() == 0 {
        assert(b.to_set().contains(b[0]));
        assert(a.to_set().contains(b[0]));
        assert(false);
    } else if b.len() == 0 {
        assert(a.to_set().contains(a[0]));
        assert(false);
    } else {
        // The heads are the unique minimum of the common set, so they agree.
        assert(a.to_set().contains(b[0]));
        let ka = choose|k: int| 0 <= k < a.len() && a[k] == b[0];
        assert(b.to_set().contains(a[0]));
        let kb = choose|k: int| 0 <= k < b.len() && b[k] == a[0];
        if ka > 0 && kb > 0 {
            lemma_seq_lt_transitive(a[0], b[0], b[kb]);
            lemma_seq_lt_irreflexive(a[0]);
            assert(false);
        }
        assert(a[0] == b[0]);
        let at = a.skip(1);
        let bt = b.skip(1);
        assert forall|x: Seq<char>| at.to_set().contains(x) implies bt.to_set().contains(x) by {
            let k = choose|k: int| 0 <= k < at.len() && at[k] == x;
            assert(a[k + 1] == x);
            assert(b.to_set().contains(x));
            let m = choose|m: int| 0 <= m < b.len() && b[m] == x;
            if m == 0 {
                lemma_seq_lt_irreflexive(x);
                assert(false);
            }
            assert(bt[m - 1] == x);
        }
        assert forall|x: Seq<char>| bt.to_set().contains(x) implies at.to_set().contains(x) by {
            let k = choose|k: int| 0 <= k < bt.len() && bt[k] == x;
            assert(b[k + 1] == x);
            assert(a.to_set().contains(x));
            let m = choose|m: int| 0 <= m < a.len() && a[m] == x;
            if m == 0 {
                lemma_seq_lt_irreflexive(x);
                assert(false);
            }
            assert(at[m - 1] == x);
        }
        assert(at.to_set() =~= bt.to_set());
        lemma_sorted_unique_representation(at, bt);
        assert forall|i: int| 0 <= i < a.len() implies a[i] == b[i] by {
            if i > 0 {
                assert(a[i] == at[i - 1]);
                assert(b[i] == bt[i - 1]);
            }
        }
        assert(a =~= b);
    }
}

} // verus!

//! The identifier table of a container: every identifier once, in
//! ascending order.

use vstd::prelude::*;
use crate::ident::{
    Identifier,
    IdentifierView,
    identifier_lt,
    lemma_identifier_lt_total,
    lemma_identifier_lt_transitive,
};

verus! {

/// The views of a list of identifiers.
pub open spec fn identifier_views(ids: Seq<Identifier>) -> Seq<IdentifierView> {
    Seq::new(ids.len(), |i: int| ids[i]@)
}

/// Whether each identifier of `t` sorts strictly before all that follow it.
pub open spec fn strictly_sorted(t: Seq<IdentifierView>) -> bool {
    forall|i: int, j: int| 0 <= i < j < t.len() ==> identifier_lt(t[i], t[j])
}

/// Whether `t` lists the identifiers of `ids`, each once, in ascending
/// order.
pub open spec fn is_table_of(t: Seq<IdentifierView>, ids: Set<IdentifierView>) -> bool {
    &&& strictly_sorted(t)
    &&& forall|id: IdentifierView| t.contains(id) <==> ids.contains(id)
}

/// The table of a set of identifiers: the one list that holds each of them
/// once, in ascending order.
pub open spec fn identifier_table(ids: Set<IdentifierView>) -> Seq<IdentifierView> {
    choose|t: Seq<IdentifierView>| is_table_of(t, ids)
}

/// In a sorted list no identifier stands twice.
pub proof fn lemma_sorted_distinct(t: Seq<IdentifierView>, i: int, j: int)
    requires
        strictly_sorted(t),
        0 <= i < t.len(),
        0 <= j < t.len(),
        t[i] == t[j],
    ensures
        i == j,
{
    if i < j {
        lemma_identifier_lt_total(t[i], t[j]);
    } else if j < i {
        lemma_identifier_lt_total(t[j], t[i]);
    }
}

/// Two sorted lists that hold the same identifiers are the same list.
pub proof fn lemma_table_unique(a: Seq<IdentifierView>, b: Seq<IdentifierView>)
    requires
        strictly_sorted(a),
        strictly_sorted(b),
        forall|id: IdentifierView| a.contains(id) <==> b.contains(id),
    ensures
        a == b,
    decreases a.len(),
{
    if a.len() == 0 {
        if b.len() > 0 {
            assert(b.contains(b[0]));
        }
        assert(a =~= b);
    } else {
        assert(a.contains(a[0]));
        assert(b.contains(a[0]));
        assert(b.contains(b[0]));
        assert(a.contains(b[0]));
        let i = choose|i: int| 0 <= i < b.len() && b[i] == a[0];
        let j = choose|j: int| 0 <= j < a.len() && a[j] == b[0];
        lemma_identifier_lt_total(a[0], b[0]);
        if i > 0 && j > 0 {
            assert(identifier_lt(b[0], b[i]));
            assert(identifier_lt(a[0], a[j]));
        }
        assert(a[0] == b[0]);
        let ra = a.drop_first();
        let rb = b.drop_first();
        assert forall|id: IdentifierView| ra.contains(id) <==> rb.contains(id) by {
            if ra.contains(id) {
                let k = choose|k: int| 0 <= k < ra.len() && ra[k] == id;
                assert(a[k + 1] == id);
                assert(a.contains(id));
                assert(identifier_lt(a[0], a[k + 1]));
                lemma_identifier_lt_total(a[0], id);
                let l = choose|l: int| 0 <= l < b.len() && b[l] == id;
                assert(l > 0);
                assert(rb[l - 1] == id);
            }
            if rb.contains(id) {
                let k = choose|k: int| 0 <= k < rb.len() && rb[k] == id;
                assert(b[k + 1] == id);
                assert(b.contains(id));
                assert(identifier_lt(b[0], b[k + 1]));
                lemma_identifier_lt_total(b[0], id);
                let l = choose|l: int| 0 <= l < a.len() && a[l] == id;
                assert(l > 0);
                assert(ra[l - 1] == id);
            }
        }
        assert forall|x: int, y: int| 0 <= x < y < ra.len() implies identifier_lt(ra[x], ra[y]) by {
            assert(identifier_lt(a[x + 1], a[y + 1]));
        }
        assert forall|x: int, y: int| 0 <= x < y < rb.len() implies identifier_lt(rb[x], rb[y]) by {
            assert(identifier_lt(b[x + 1], b[y + 1]));
        }
        lemma_table_unique(ra, rb);
        assert(a =~= seq![a[0]] + ra);
        assert(b =~= seq![b[0]] + rb);
    }
}

/// A list that is a table of `ids` is the table of `ids`.
pub proof fn lemma_table_is(t: Seq<IdentifierView>, ids: Set<IdentifierView>)
    requires
        is_table_of(t, ids),
    ensures
        identifier_table(ids) == t,
{
    let c = identifier_table(ids);
    assert(is_table_of(c, ids));
    lemma_table_unique(c, t);
}

/// A list of identifiers, each once, in ascending order.
#[derive(Debug)]
pub struct IdentifierTable {
    entries: Vec<Identifier>,
}

impl View for IdentifierTable {
    type V = Seq<IdentifierView>;

    closed spec fn view(&self) -> Seq<IdentifierView> {
        identifier_views(self.entries@)
    }
}

impl IdentifierTable {
    #[verifier::type_invariant]
    spec fn sorted(self) -> bool {
        strictly_sorted(identifier_views(self.entries@))
    }

    /// The table without entries.
    pub fn new() -> (table: IdentifierTable)
        ensures
            table@ == Seq::<IdentifierView>::empty(),
    {
        let table = IdentifierTable { entries: Vec::new() };
        assert(table@ =~= Seq::<IdentifierView>::empty());
        table
    }

    /// The number of entries.
    pub fn len(&self) -> (n: usize)
        ensures
            n == self@.len(),
            strictly_sorted(self@),
    {
        proof {
            use_type_invariant(self);
        }
        self.entries.len()
    }

    /// The entry at position `i`.
    pub fn get(&self, i: usize) -> (id: &Identifier)
        requires
            i < self@.len(),
        ensures
            id@ == self@[i as int],
    {
        &self.entries[i]
    }

    /// Searches the table for `id` by bisection. Gives the position of
    /// `id`, or, as an error, the position at which `id` would have to be
    /// inserted.
    pub fn search(&self, id: &Identifier) -> (r: Result<usize, usize>)
        ensures
            strictly_sorted(self@),
            match r {
                Ok(i) => i < self@.len() && self@[i as int] == id@,
                Err(i) => {
                    &&& i <= self@.len()
                    &&& forall|j: int| 0 <= j < i ==> identifier_lt(#[trigger] self@[j], id@)
                    &&& forall|j: int|
                        i <= j < self@.len() ==> identifier_lt(id@, #[trigger] self@[j])
                },
            },
    {
        proof {
            use_type_invariant(self);
        }
        let mut lo: usize = 0;
        let mut hi: usize = self.entries.len();
        while lo < hi
            invariant
                lo <= hi <= self.entries@.len(),
                self@ == identifier_views(self.entries@),
                strictly_sorted(self@),
                forall|j: int| 0 <= j < lo ==> identifier_lt(#[trigger] self@[j], id@),
                forall|j: int| hi <= j < self@.len() ==> identifier_lt(id@, #[trigger] self@[j]),
            decreases hi - lo,
        {
            let mid = lo + (hi - lo) / 2;
            let entry = &self.entries[mid];
            assert(entry@ == self@[mid as int]);
            if entry.precedes(id) {
                assert forall|j: int| 0 <= j < mid + 1 implies identifier_lt(
                    #[trigger] self@[j],
                    id@,
                ) by {
                    if j < mid {
                        lemma_identifier_lt_transitive(self@[j], self@[mid as int], id@);
                    }
                }
                lo = mid + 1;
            } else if id.precedes(entry) {
                assert forall|j: int| mid <= j < self@.len() implies identifier_lt(
                    id@,
                    #[trigger] self@[j],
                ) by {
                    if j > mid {
                        lemma_identifier_lt_transitive(id@, self@[mid as int], self@[j]);
                    }
                }
                hi = mid;
            } else {
                proof {
                    lemma_identifier_lt_total(entry@, id@);
                }
                return Ok(mid);
            }
        }
        Err(lo)
    }

    /// The position of `id` in the table.
    pub fn position(&self, id: &Identifier) -> (at: Option<usize>)
        ensures
            match at {
                Some(i) => i < self@.len() && self@[i as int] == id@ && i == self@.index_of(id@),
                None => !self@.contains(id@),
            },
    {
        match self.search(id) {
            Ok(i) => {
                proof {
                    let k = self@.index_of(id@);
                    assert(self@.contains(id@));
                    lemma_sorted_distinct(self@, i as int, k);
                }
                Some(i)
            },
            Err(i) => {
                proof {
                    if self@.contains(id@) {
                        let k = choose|k: int| 0 <= k < self@.len() && self@[k] == id@;
                        lemma_identifier_lt_total(self@[k], id@);
                    }
                }
                None
            },
        }
    }

    /// Adds `id` to the table, unless the table holds it.
    pub fn insert(&mut self, id: &Identifier)
        ensures
            strictly_sorted(final(self)@),
            forall|x: IdentifierView| final(self)@.contains(x) <==> old(self)@.contains(x) || x == id@,
    {
        match self.search(id) {
            Ok(i) => {
                assert(self@.contains(id@));
            },
            Err(i) => {
                let ghost before = self@;
                let mut entries: Vec<Identifier> = Vec::new();
                proof {
                    assert(strictly_sorted(identifier_views(entries@)));
                }
                core::mem::swap(&mut self.entries, &mut entries);
                entries.insert(i, id.clone());
                proof {
                    let after = identifier_views(entries@);
                    assert(after =~= before.insert(i as int, id@));
                    assert forall|a: int, b: int| 0 <= a < b < after.len() implies identifier_lt(
                        after[a],
                        after[b],
                    ) by {
                        if b < i {
                            assert(after[a] == before[a] && after[b] == before[b]);
                        } else if b == i {
                            assert(after[a] == before[a]);
                        } else if a < i {
                            assert(after[a] == before[a] && after[b] == before[b - 1]);
                            if b - 1 == a {
                            }
                            lemma_identifier_lt_transitive(before[a], id@, before[b - 1]);
                        } else if a == i {
                            assert(after[b] == before[b - 1]);
                        } else {
                            assert(after[a] == before[a - 1] && after[b] == before[b - 1]);
                        }
                    }
                    assert forall|x: IdentifierView| after.contains(x) <==> before.contains(x) || x
                        == id@ by {
                        if after.contains(x) {
                            let k = choose|k: int| 0 <= k < after.len() && after[k] == x;
                            if k < i {
                                assert(before[k] == x);
                            } else if k > i {
                                assert(before[k - 1] == x);
                            }
                        }
                        if before.contains(x) {
                            let k = choose|k: int| 0 <= k < before.len() && before[k] == x;
                            if k < i {
                                assert(after[k] == x);
                            } else {
                                assert(after[k + 1] == x);
                            }
                        }
                        if x == id@ {
                            assert(after[i as int] == x);
                        }
                    }
                }
                self.entries = entries;
            },
        }
    }
}

} // verus!

//! The book store: the most recent order book per `(exchange, pair)`
//! key, with upsert, lookup, and grouping by canonical pair.

use vstd::prelude::*;

use crate::book::OrderBook;
use crate::symbols::canon_pair;
use crate::symbols::canonical_pair;
use crate::symbols::str_eq;

verus! {

/// The composite key under which one venue's book is stored: the
/// venue id and the venue-native pair spelling, joined by a colon.
pub open spec fn book_key(exchange: Seq<char>, pair: Seq<char>) -> Seq<char> {
    exchange + seq![':'] + pair
}

/// Builds the store key for a venue and pair.
pub fn make_book_key(exchange: &str, pair: &str) -> (r: String)
    ensures
        r@ == book_key(exchange@, pair@),
{
    proof {
        reveal_strlit(":");
        assert(":"@ =~= seq![':']);
    }
    let mut key = String::from_str(exchange);
    key.append(":");
    key.append(pair);
    proof {
        assert(key@ =~= book_key(exchange@, pair@));
    }
    key
}

/// One stored book together with its key.
pub struct StoreEntry {
    pub key: String,
    pub book: OrderBook,
}

/// All books in one canonical-pair group, as indices into the store's
/// entries.
pub struct PairGroup {
    pub canonical_pair: String,
    pub members: Vec<usize>,
}

/// The working set: the most recent book per key, last snapshot wins,
/// never deleted.
pub struct BookStore {
    pub entries: Vec<StoreEntry>,
}

/// Some group in `gs` carries canonical pair `c`.
pub open spec fn some_group_has(gs: Seq<PairGroup>, c: Seq<char>) -> bool {
    exists|g: int| 0 <= g < gs.len() && (#[trigger] gs[g]).canonical_pair@ == c
}

/// Some entry in `es` quotes on venue `x`.
pub open spec fn some_entry_quotes(es: Seq<StoreEntry>, x: Seq<char>) -> bool {
    exists|i: int| 0 <= i < es.len() && (#[trigger] es[i]).book.exchange@ == x
}

/// Some name in `vs` spells `x`.
pub open spec fn some_name_is(vs: Seq<String>, x: Seq<char>) -> bool {
    exists|a: int| 0 <= a < vs.len() && (#[trigger] vs[a])@ == x
}

impl BookStore {
    /// Keys are unique, derived from their book's venue and pair, and
    /// every book is within the representable range.
    pub open spec fn wf(self) -> bool {
        &&& forall|i: int|
            0 <= i < self.entries@.len() ==> (#[trigger] self.entries@[i]).book.wf()
        &&& forall|i: int|
            0 <= i < self.entries@.len() ==> (#[trigger] self.entries@[i]).key@ == book_key(
                self.entries@[i].book.exchange@,
                self.entries@[i].book.pair@,
            )
        &&& forall|i: int, j: int|
            #![trigger self.entries@[i], self.entries@[j]]
            0 <= i < j < self.entries@.len() ==> self.entries@[i].key@ != self.entries@[j].key@
    }

    /// Whether some entry is stored under `k`.
    pub open spec fn spec_has_key(self, k: Seq<char>) -> bool {
        exists|i: int| 0 <= i < self.entries@.len() && (#[trigger] self.entries@[i]).key@ == k
    }

    /// An empty store.
    pub fn new() -> (r: BookStore)
        ensures
            r.wf(),
            r.entries@.len() == 0,
    {
        BookStore { entries: Vec::new() }
    }

    /// How many books are held.
    pub fn book_count(&self) -> (r: usize)
        ensures
            r == self.entries@.len(),
    {
        self.entries.len()
    }

    /// The index of the entry stored under `key`, when one is.
    pub fn find_key_index(&self, key: &str) -> (r: Option<usize>)
        requires
            self.wf(),
        ensures
            match r {
                Some(i) => i < self.entries@.len() && self.entries@[i as int].key@ == key@,
                None => !self.spec_has_key(key@),
            },
    {
        let n = self.entries.len();
        let mut i: usize = 0;
        while i < n
            invariant
                n == self.entries@.len(),
                i <= n,
                forall|j: int| 0 <= j < i ==> (#[trigger] self.entries@[j]).key@ != key@,
            decreases n - i,
        {
            if str_eq(self.entries[i].key.as_str(), key) {
                return Some(i);
            }
            i = i + 1;
        }
        None
    }

    /// The book stored under `key`, when one is.
    pub fn get(&self, key: &str) -> (r: Option<&OrderBook>)
        requires
            self.wf(),
        ensures
            match r {
                Some(b) => exists|i: int|
                    0 <= i < self.entries@.len() && (#[trigger] self.entries@[i]).key@ == key@
                        && self.entries@[i].book == *b,
                None => !self.spec_has_key(key@),
            },
    {
        match self.find_key_index(key) {
            Some(i) => Some(&self.entries[i].book),
            None => None,
        }
    }

    /// Stores `book` under its own venue-and-pair key, overwriting an
    /// existing entry for that key and appending otherwise.
    pub fn upsert(&mut self, book: OrderBook)
        requires
            old(self).wf(),
            book.wf(),
        ensures
            final(self).wf(),
            old(self).spec_has_key(book_key(book.exchange@, book.pair@)) ==> {
                &&& final(self).entries@.len() == old(self).entries@.len()
                &&& exists|i: int|
                    0 <= i < old(self).entries@.len() && (#[trigger] old(
                        self,
                    ).entries@[i]).key@ == book_key(book.exchange@, book.pair@)
                        && final(self).entries@[i].book == book && final(self).entries@[i].key@
                        == book_key(book.exchange@, book.pair@) && (forall|j: int|
                        0 <= j < old(self).entries@.len() && j != i
                            ==> #[trigger] final(self).entries@[j] == old(self).entries@[j])
            },
            !old(self).spec_has_key(book_key(book.exchange@, book.pair@)) ==> {
                &&& final(self).entries@.len() == old(self).entries@.len() + 1
                &&& forall|j: int|
                    0 <= j < old(self).entries@.len() ==> #[trigger] final(self).entries@[j]
                        == old(self).entries@[j]
                &&& final(self).entries@[old(self).entries@.len() as int].book == book
                &&& final(self).entries@[old(self).entries@.len() as int].key@ == book_key(
                    book.exchange@,
                    book.pair@,
                )
            },
    {
        let key = make_book_key(book.exchange.as_str(), book.pair.as_str());
        match self.find_key_index(key.as_str()) {
            Some(i) => {
                self.entries.set(i, StoreEntry { key, book });
            },
            None => {
                self.entries.push(StoreEntry { key, book });
            },
        }
    }

    /// Groups the held books by canonical pair: for every held entry
    /// there is exactly one group whose canonical pair matches it, and
    /// that group's members are exactly the indices of the entries
    /// spelling that canonical pair, in ascending order.
    #[verifier::rlimit(100)]
    pub fn group_books_by_pair(&self) -> (r: Vec<PairGroup>)
        ensures
            forall|g: int, h: int|
                #![trigger r@[g], r@[h]]
                0 <= g < h < r@.len() ==> r@[g].canonical_pair@ != r@[h].canonical_pair@,
            forall|g: int, m: int|
                #![trigger r@[g].members@[m]]
                0 <= g < r@.len() && 0 <= m < r@[g].members@.len() ==> {
                    &&& r@[g].members@[m] < self.entries@.len()
                    &&& canon_pair(self.entries@[r@[g].members@[m] as int].book.pair@)
                        == r@[g].canonical_pair@
                },
            forall|g: int, m: int, p: int|
                #![trigger r@[g].members@[m], r@[g].members@[p]]
                0 <= g < r@.len() && 0 <= m < p < r@[g].members@.len() ==> r@[g].members@[m]
                    < r@[g].members@[p],
            forall|g: int, j: int|
                #![trigger r@[g], self.entries@[j]]
                0 <= g < r@.len() && 0 <= j < self.entries@.len() && canon_pair(
                    self.entries@[j].book.pair@,
                ) == r@[g].canonical_pair@ ==> exists|m: int|
                    0 <= m < r@[g].members@.len() && r@[g].members@[m] == j,
            forall|j: int|
                0 <= j < self.entries@.len() ==> some_group_has(
                    r@,
                    canon_pair((#[trigger] self.entries@[j]).book.pair@),
                ),
            forall|g: int| 0 <= g < r@.len() ==> (#[trigger] r@[g]).members@.len() >= 1,
    {
        let n = self.entries.len();
        let mut groups: Vec<PairGroup> = Vec::new();
        let ghost mut home: Seq<int> = Seq::empty();
        let mut i: usize = 0;
        while i < n
            invariant
                n == self.entries@.len(),
                i <= n,
                forall|g: int, h: int|
                    #![trigger groups@[g], groups@[h]]
                    0 <= g < h < groups@.len() ==> groups@[g].canonical_pair@
                        != groups@[h].canonical_pair@,
                forall|g: int, m: int|
                    #![trigger groups@[g].members@[m]]
                    0 <= g < groups@.len() && 0 <= m < groups@[g].members@.len() ==> {
                        &&& groups@[g].members@[m] < n
                        &&& canon_pair(
                            self.entries@[groups@[g].members@[m] as int].book.pair@,
                        ) == groups@[g].canonical_pair@
                    },
                forall|g: int, m: int, p: int|
                    #![trigger groups@[g].members@[m], groups@[g].members@[p]]
                    0 <= g < groups@.len() && 0 <= m < p < groups@[g].members@.len()
                        ==> groups@[g].members@[m] < groups@[g].members@[p],
                forall|g: int, j: int|
                    #![trigger groups@[g], self.entries@[j]]
                    0 <= g < groups@.len() && 0 <= j < n && canon_pair(
                        self.entries@[j].book.pair@,
                    ) == groups@[g].canonical_pair@ ==> exists|m: int|
                        0 <= m < groups@[g].members@.len() && groups@[g].members@[m] == j,
                forall|g: int| 0 <= g < groups@.len() ==> (#[trigger] groups@[g]).members@.len()
                    >= 1,
                home.len() == i as int,
                forall|j: int| 0 <= j < i ==> 0 <= #[trigger] home[j] < groups@.len(),
                forall|j: int|
                    0 <= j < i ==> (#[trigger] groups@[home[j]]).canonical_pair@ == canon_pair(
                        self.entries@[j].book.pair@,
                    ),
            decreases n - i,
        {
            let canon = canonical_pair(self.entries[i].book.pair.as_str());
            let mut found = false;
            let mut found_g: usize = 0;
            let mut g: usize = 0;
            let n_groups = groups.len();
            while g < n_groups
                invariant
                    n_groups == groups@.len(),
                    g <= n_groups,
                    !found ==> forall|h: int|
                        0 <= h < g ==> (#[trigger] groups@[h]).canonical_pair@ != canon@,
                    found ==> found_g < groups@.len() && groups@[found_g as int].canonical_pair@
                        == canon@,
                decreases n_groups - g,
            {
                if str_eq(groups[g].canonical_pair.as_str(), canon.as_str()) {
                    found = true;
                    found_g = g;
                    g = n_groups;
                } else {
                    g = g + 1;
                }
            }
            if !found {
                found_g = groups.len();
                let mut members: Vec<usize> = Vec::new();
                let mut j: usize = 0;
                while j < n
                    invariant
                        n == self.entries@.len(),
                        j <= n,
                        forall|m: int|
                            0 <= m < members@.len() ==> {
                                &&& (#[trigger] members@[m]) < j
                                &&& canon_pair(self.entries@[members@[m] as int].book.pair@)
                                    == canon@
                            },
                        forall|m: int, p: int|
                            #![trigger members@[m], members@[p]]
                            0 <= m < p < members@.len() ==> members@[m] < members@[p],
                        forall|q: int|
                            0 <= q < j && canon_pair(self.entries@[q].book.pair@) == canon@
                                ==> exists|m: int|
                                0 <= m < members@.len() && #[trigger] members@[m] == q,
                    decreases n - j,
                {
                    let cj = canonical_pair(self.entries[j].book.pair.as_str());
                    if str_eq(cj.as_str(), canon.as_str()) {
                        let ghost pm = members@;
                        members.push(j);
                        proof {
                            assert(forall|m: int| 0 <= m < pm.len() ==> members@[m] == pm[m]);
                            assert(members@[members@.len() - 1] == j);
                            assert forall|q: int|
                                0 <= q < j + 1 && canon_pair(self.entries@[q].book.pair@)
                                    == canon@ implies exists|m: int|
                                0 <= m < members@.len() && #[trigger] members@[m] == q by {
                                if q < j {
                                    let m0 = choose|m: int|
                                        0 <= m < pm.len() && #[trigger] pm[m] == q;
                                    assert(members@[m0] == q);
                                } else {
                                    assert(members@[members@.len() - 1] == q);
                                }
                            }
                        }
                    }
                    j = j + 1;
                }
                proof {
                    assert(canon_pair(self.entries@[i as int].book.pair@) == canon@);
                    assert(exists|m: int|
                        0 <= m < members@.len() && #[trigger] members@[m] == i as int);
                    assert(members@.len() >= 1);
                }
                let ghost pg = groups@;
                groups.push(PairGroup { canonical_pair: canon, members });
                proof {
                    assert(forall|g2: int| 0 <= g2 < pg.len() ==> groups@[g2] == pg[g2]);
                    assert(groups@[groups@.len() - 1].canonical_pair@ == canon@);
                    assert forall|g2: int, j2: int|
                        #![trigger groups@[g2], self.entries@[j2]]
                        0 <= g2 < groups@.len() && 0 <= j2 < n && canon_pair(
                            self.entries@[j2].book.pair@,
                        ) == groups@[g2].canonical_pair@ implies exists|m: int|
                        0 <= m < groups@[g2].members@.len() && groups@[g2].members@[m] == j2 by {
                        if g2 < pg.len() {
                            assert(pg[g2] == groups@[g2]);
                            let m0 = choose|m: int|
                                0 <= m < pg[g2].members@.len() && #[trigger] pg[g2].members@[m]
                                    == j2;
                            assert(groups@[g2].members@[m0] == j2);
                        } else {
                            let m0 = choose|m: int|
                                0 <= m < members@.len() && #[trigger] members@[m] == j2;
                            assert(groups@[g2].members@[m0] == j2);
                        }
                    }
                }
            }
            proof {
                home = home.push(found_g as int);
                assert(groups@[home[i as int]].canonical_pair@ == canon_pair(
                    self.entries@[i as int].book.pair@,
                ));
            }
            i = i + 1;
        }
        proof {
            assert forall|j: int| 0 <= j < self.entries@.len() implies some_group_has(
                groups@,
                canon_pair((#[trigger] self.entries@[j]).book.pair@),
            ) by {
                assert(0 <= home[j] < groups@.len() && (#[trigger] groups@[home[j]]).canonical_pair@
                    == canon_pair(self.entries@[j].book.pair@));
            }
        }
        groups
    }

    /// The distinct venue identifiers among the held books: free of
    /// duplicates, holding a venue exactly when some held book quotes
    /// on it.
    #[verifier::rlimit(100)]
    pub fn distinct_exchanges(&self) -> (r: Vec<String>)
        ensures
            forall|a: int, b: int|
                #![trigger r@[a], r@[b]]
                0 <= a < b < r@.len() ==> r@[a]@ != r@[b]@,
            forall|a: int|
                0 <= a < r@.len() ==> some_entry_quotes(self.entries@, (#[trigger] r@[a])@),
            forall|i: int|
                0 <= i < self.entries@.len() ==> some_name_is(
                    r@,
                    (#[trigger] self.entries@[i]).book.exchange@,
                ),
    {
        let n = self.entries.len();
        let mut out: Vec<String> = Vec::new();
        let ghost mut src: Seq<int> = Seq::empty();
        let ghost mut loc: Seq<int> = Seq::empty();
        let mut i: usize = 0;
        while i < n
            invariant
                n == self.entries@.len(),
                i <= n,
                forall|a: int, b: int|
                    #![trigger out@[a], out@[b]]
                    0 <= a < b < out@.len() ==> out@[a]@ != out@[b]@,
                src.len() == out@.len(),
                forall|a: int| 0 <= a < out@.len() ==> 0 <= #[trigger] src[a] < n,
                forall|a: int|
                    0 <= a < out@.len() ==> (#[trigger] out@[a])@
                        == self.entries@[src[a]].book.exchange@,
                loc.len() == i as int,
                forall|q: int| 0 <= q < i ==> 0 <= #[trigger] loc[q] < out@.len(),
                forall|q: int|
                    0 <= q < i ==> (#[trigger] out@[loc[q]])@
                        == self.entries@[q].book.exchange@,
            decreases n - i,
        {
            let ex = self.entries[i].book.exchange.as_str();
            let mut seen = false;
            let mut found_at: usize = 0;
            let mut a: usize = 0;
            let n_out = out.len();
            while a < n_out
                invariant
                    n_out == out@.len(),
                    a <= n_out,
                    !seen ==> forall|b: int| 0 <= b < a ==> (#[trigger] out@[b])@ != ex@,
                    seen ==> found_at < out@.len() && out@[found_at as int]@ == ex@,
                decreases n_out - a,
            {
                if str_eq(out[a].as_str(), ex) {
                    seen = true;
                    found_at = a;
                    a = n_out;
                } else {
                    a = a + 1;
                }
            }
            if !seen {
                found_at = out.len();
                let ghost prior = out@;
                out.push(String::from_str(ex));
                proof {
                    assert(forall|b: int| 0 <= b < prior.len() ==> out@[b] == prior[b]);
                    assert(out@[out@.len() - 1]@ == ex@);
                    src = src.push(i as int);
                }
            }
            proof {
                loc = loc.push(found_at as int);
                assert(out@[loc[i as int]]@ == self.entries@[i as int].book.exchange@);
            }
            i = i + 1;
        }
        proof {
            assert forall|a: int| 0 <= a < out@.len() implies some_entry_quotes(
                self.entries@,
                (#[trigger] out@[a])@,
            ) by {
                assert(0 <= src[a] < self.entries@.len() && (#[trigger] self.entries@[src[a]]).book.exchange@
                    == out@[a]@);
            }
            assert forall|q: int| 0 <= q < self.entries@.len() implies some_name_is(
                out@,
                (#[trigger] self.entries@[q]).book.exchange@,
            ) by {
                assert(0 <= loc[q] < out@.len() && (#[trigger] out@[loc[q]])@
                    == self.entries@[q].book.exchange@);
            }
        }
        out
    }
}

} // verus!

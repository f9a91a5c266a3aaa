//! The spread-analysis driver: full-universe scans over every pair of
//! comparable books, targeted scans around one updated key, and the
//! descending-ROI ordering of results.

use vstd::prelude::*;
use vstd::multiset::Multiset;

use crate::book::OrderBook;
use crate::evaluate::evaluate_opportunity;
use crate::evaluate::opp_model;
use crate::evaluate::spec_evaluate;
use crate::evaluate::ArbitrageOpportunity;
use crate::evaluate::OppModel;
use crate::fees::FeeSchedule;
use crate::store::book_key;
use crate::store::BookStore;
use crate::store::StoreEntry;
use crate::symbols::canon_pair;
use crate::symbols::normalize_pair_symbols;
use crate::symbols::pair_adjustment;
use crate::symbols::str_eq;
use crate::symbols::PRICE_ADJ_DEN;

verus! {

broadcast use vstd::seq_lib::group_to_multiset_ensures;

/// A recoverable analysis error: the targeted scan was asked about a
/// key that is not in the store.
#[derive(Clone, Copy, PartialEq, Eq, Structural, Debug)]
pub enum AnalyzeError {
    UnknownKey,
}

/// One skipped comparison: both books quote the same canonical pair on
/// different venues, but one of them has no bids or no asks.
pub struct ScanWarning {
    pub first_key: String,
    pub second_key: String,
}

/// What one scan returns: the accepted opportunities and the
/// comparisons skipped over empty books.
pub struct ScanReport {
    pub opportunities: Vec<ArbitrageOpportunity>,
    pub warnings: Vec<ScanWarning>,
}

/// The deterministic content of a sequence of opportunity records.
pub open spec fn models_of(s: Seq<ArbitrageOpportunity>) -> Seq<OppModel> {
    s.map_values(|o: ArbitrageOpportunity| opp_model(o))
}

/// The key pairs of a sequence of warnings.
pub open spec fn warn_views(s: Seq<ScanWarning>) -> Seq<(Seq<char>, Seq<char>)> {
    s.map_values(|w: ScanWarning| (w.first_key@, w.second_key@))
}

/// Non-increasing ROI through the whole sequence.
pub open spec fn sorted_by_roi_desc(s: Seq<ArbitrageOpportunity>) -> bool {
    forall|k: int, l: int|
        #![trigger s[k], s[l]]
        0 <= k <= l < s.len() ==> s[k].roi_micro_pct >= s[l].roi_micro_pct
}

/// Whether two stored books are comparable: same canonical pair,
/// different venues.
pub open spec fn comparable(e1: StoreEntry, e2: StoreEntry) -> bool {
    &&& canon_pair(e1.book.pair@) == canon_pair(e2.book.pair@)
    &&& e1.book.exchange@ != e2.book.exchange@
}

/// Whether comparing the two books is skipped with a warning: they are
/// comparable but at least one side has no bids or no asks.
pub open spec fn pair_warn(e1: StoreEntry, e2: StoreEntry) -> bool {
    comparable(e1, e2) && !(e1.book.usable() && e2.book.usable())
}

/// The buy-side price for buying at `e1`'s best ask, with the wrapped
/// discount applied when either spelling mentions the wrapped ticker.
pub open spec fn spec_buy_price(e1: StoreEntry, e2: StoreEntry) -> int {
    (e1.book.spec_best_ask().price_micro as int) * pair_adjustment(
        e1.book.pair@,
        e2.book.pair@,
    ) / (PRICE_ADJ_DEN as int)
}

/// The evaluator's outcome for buying at `e1`'s best ask and selling
/// into `e2`'s best bid, under the canonical pair the two books share;
/// nothing when they are not comparable or one is unusable.
pub open spec fn compare_books(s: FeeSchedule, e1: StoreEntry, e2: StoreEntry) -> Option<
    OppModel,
> {
    if comparable(e1, e2) && e1.book.usable() && e2.book.usable() {
        spec_evaluate(
            s,
            e1.book.exchange@,
            e2.book.exchange@,
            canon_pair(e1.book.pair@),
            spec_buy_price(e1, e2),
            e2.book.spec_best_bid().price_micro as int,
            e1.book.spec_best_ask().size_micro as int,
            e2.book.spec_best_bid().size_micro as int,
        )
    } else {
        None
    }
}

/// The opportunities of the full scan's row `i`: comparisons of entry
/// `i` against entries `j, j+1, ...`, in order.
pub open spec fn opps_in_row(
    s: FeeSchedule,
    entries: Seq<StoreEntry>,
    i: int,
    j: int,
) -> Seq<OppModel>
    decreases entries.len() - j,
{
    if j >= entries.len() {
        Seq::empty()
    } else {
        let rest = opps_in_row(s, entries, i, j + 1);
        match compare_books(s, entries[i], entries[j]) {
            Some(m) => seq![m] + rest,
            None => rest,
        }
    }
}

/// The opportunities of the full scan's rows `i, i+1, ...`: each row
/// compares its entry against every later entry.
pub open spec fn opps_from(s: FeeSchedule, entries: Seq<StoreEntry>, i: int) -> Seq<OppModel>
    decreases entries.len() - i,
{
    if i >= entries.len() {
        Seq::empty()
    } else {
        opps_in_row(s, entries, i, i + 1) + opps_from(s, entries, i + 1)
    }
}

/// Everything the full scan accepts, before sorting.
pub open spec fn all_opps(s: FeeSchedule, entries: Seq<StoreEntry>) -> Seq<OppModel> {
    opps_from(s, entries, 0)
}

/// The warnings of the full scan's row `i`, from column `j` on.
pub open spec fn warns_in_row(entries: Seq<StoreEntry>, i: int, j: int) -> Seq<
    (Seq<char>, Seq<char>),
>
    decreases entries.len() - j,
{
    if j >= entries.len() {
        Seq::empty()
    } else {
        let rest = warns_in_row(entries, i, j + 1);
        if pair_warn(entries[i], entries[j]) {
            seq![(entries[i].key@, entries[j].key@)] + rest
        } else {
            rest
        }
    }
}

/// The warnings of the full scan's rows `i, i+1, ...`.
pub open spec fn warns_from(entries: Seq<StoreEntry>, i: int) -> Seq<(Seq<char>, Seq<char>)>
    decreases entries.len() - i,
{
    if i >= entries.len() {
        Seq::empty()
    } else {
        warns_in_row(entries, i, i + 1) + warns_from(entries, i + 1)
    }
}

/// Every warning the full scan records.
pub open spec fn all_warns(entries: Seq<StoreEntry>) -> Seq<(Seq<char>, Seq<char>)> {
    warns_from(entries, 0)
}

/// The opportunities of the targeted scan around the updated entry
/// `u`, from entry `k` on: every other entry is the buy side, the
/// updated entry the sell side.
pub open spec fn targeted_opps(
    s: FeeSchedule,
    entries: Seq<StoreEntry>,
    u: int,
    k: int,
) -> Seq<OppModel>
    decreases entries.len() - k,
{
    if k >= entries.len() {
        Seq::empty()
    } else {
        let rest = targeted_opps(s, entries, u, k + 1);
        if k == u {
            rest
        } else {
            match compare_books(s, entries[k], entries[u]) {
                Some(m) => seq![m] + rest,
                None => rest,
            }
        }
    }
}

/// The warnings of the targeted scan around `u`, from entry `k` on.
pub open spec fn targeted_warns(entries: Seq<StoreEntry>, u: int, k: int) -> Seq<
    (Seq<char>, Seq<char>),
>
    decreases entries.len() - k,
{
    if k >= entries.len() {
        Seq::empty()
    } else {
        let rest = targeted_warns(entries, u, k + 1);
        if k != u && pair_warn(entries[k], entries[u]) {
            seq![(entries[k].key@, entries[u].key@)] + rest
        } else {
            rest
        }
    }
}

/// Compares one ordered pair of stored entries, as the scans do: skip
/// silently when not comparable, record a warning when a side is
/// empty, evaluate otherwise.
fn compare_entries(
    fees: &FeeSchedule,
    e1: &StoreEntry,
    e2: &StoreEntry,
) -> (r: (Option<ArbitrageOpportunity>, bool))
    requires
        fees.wf(),
        e1.book.wf(),
        e2.book.wf(),
    ensures
        match r.0 {
            Some(o) => compare_books(*fees, *e1, *e2) == Some(opp_model(o)) && o.id@.len()
                == 36,
            None => compare_books(*fees, *e1, *e2) is None,
        },
        r.1 == pair_warn(*e1, *e2),
{
    let (c1, c2, adj) = normalize_pair_symbols(e1.book.pair.as_str(), e2.book.pair.as_str());
    if !str_eq(c1.as_str(), c2.as_str()) {
        return (None, false);
    }
    if str_eq(e1.book.exchange.as_str(), e2.book.exchange.as_str()) {
        return (None, false);
    }
    if !e1.book.is_usable() || !e2.book.is_usable() {
        return (None, true);
    }
    let ask = e1.book.best_ask();
    let bid = e2.book.best_bid();
    proof {
        assert(e1.book.asks@[0].wf());
        assert(e2.book.bids@[0].wf());
        assert((ask.price_micro as int) * (adj as int) / (PRICE_ADJ_DEN as int)
            <= ask.price_micro as int) by (nonlinear_arith)
            requires
                0 <= ask.price_micro,
                0 <= adj <= PRICE_ADJ_DEN,
                PRICE_ADJ_DEN == 10_000,
        ;
    }
    let buy_price: u64 = ((ask.price_micro as u128) * (adj as u128) / (PRICE_ADJ_DEN as u128))
        as u64;
    let r = evaluate_opportunity(
        fees,
        e1.book.exchange.as_str(),
        e2.book.exchange.as_str(),
        c1.as_str(),
        buy_price,
        bid.price_micro,
        ask.size_micro,
        bid.size_micro,
    );
    proof {
        assert(buy_price as int == spec_buy_price(*e1, *e2));
        assert(comparable(*e1, *e2) && e1.book.usable() && e2.book.usable());
    }
    (r, false)
}

/// Sorts opportunity records by ROI, highest first, keeping exactly
/// the same records.
fn sort_by_roi(v: Vec<ArbitrageOpportunity>) -> (r: Vec<ArbitrageOpportunity>)
    ensures
        sorted_by_roi_desc(r@),
        r@.to_multiset() == v@.to_multiset(),
        models_of(r@).to_multiset() == models_of(v@).to_multiset(),
{
    let mut rest = v;
    let mut out: Vec<ArbitrageOpportunity> = Vec::new();
    proof {
        assert(models_of(out@) =~= Seq::<OppModel>::empty());
        assert(out@.to_multiset().add(rest@.to_multiset()) =~= v@.to_multiset());
        assert(models_of(out@).to_multiset().add(models_of(rest@).to_multiset())
            =~= models_of(v@).to_multiset());
    }
    while rest.len() > 0
        invariant
            sorted_by_roi_desc(out@),
            forall|k: int, l: int|
                #![trigger out@[k], rest@[l]]
                0 <= k < out@.len() && 0 <= l < rest@.len() ==> out@[k].roi_micro_pct
                    >= rest@[l].roi_micro_pct,
            out@.to_multiset().add(rest@.to_multiset()) == v@.to_multiset(),
            models_of(out@).to_multiset().add(models_of(rest@).to_multiset()) == models_of(
                v@,
            ).to_multiset(),
        decreases rest@.len(),
    {
        let n = rest.len();
        let mut best: usize = 0;
        let mut c: usize = 1;
        while c < n
            invariant
                n == rest@.len(),
                best < n,
                c <= n,
                forall|l: int|
                    0 <= l < c ==> rest@[best as int].roi_micro_pct >= (#[trigger] rest@[l]).roi_micro_pct,
            decreases n - c,
        {
            if rest[c].roi_micro_pct > rest[best].roi_micro_pct {
                best = c;
            }
            c = c + 1;
        }
        let ghost prev_rest = rest@;
        let ghost prev_out = out@;
        let picked = rest.remove(best);
        out.push(picked);
        proof {
            assert(prev_rest[best as int] == picked);
            assert(out@ =~= prev_out.push(picked));
            assert(rest@ =~= prev_rest.remove(best as int));
            assert(out@.to_multiset() =~= prev_out.to_multiset().insert(picked));
            assert(rest@.to_multiset() =~= prev_rest.to_multiset().remove(picked));
            assert(out@.to_multiset().add(rest@.to_multiset()) =~= v@.to_multiset());
            assert(models_of(out@) =~= models_of(prev_out).push(opp_model(picked)));
            assert(models_of(rest@) =~= models_of(prev_rest).remove(best as int));
            assert(models_of(prev_rest)[best as int] == opp_model(picked));
            assert(models_of(out@).to_multiset() =~= models_of(prev_out).to_multiset().insert(
                opp_model(picked),
            ));
            assert(models_of(rest@).to_multiset() =~= models_of(
                prev_rest,
            ).to_multiset().remove(opp_model(picked)));
            assert(models_of(out@).to_multiset().add(models_of(rest@).to_multiset())
                =~= models_of(v@).to_multiset());
            assert(forall|l: int|
                0 <= l < rest@.len() ==> picked.roi_micro_pct >= (#[trigger] rest@[l]).roi_micro_pct);
        }
    }
    proof {
        assert(rest@.to_multiset() =~= Multiset::<ArbitrageOpportunity>::empty());
        assert(models_of(rest@) =~= Seq::<OppModel>::empty());
        assert(out@.to_multiset() =~= v@.to_multiset());
        assert(models_of(out@).to_multiset() =~= models_of(v@).to_multiset());
    }
    out
}

/// The opportunity-detection engine: the working set of books and the
/// fee schedule, with the two scan modes.
pub struct SpreadAnalyzer {
    pub store: BookStore,
    pub fees: FeeSchedule,
}

impl SpreadAnalyzer {
    pub open spec fn wf(self) -> bool {
        self.store.wf() && self.fees.wf()
    }

    /// An analyzer with an empty working set and the given schedule.
    pub fn new(fees: FeeSchedule) -> (r: SpreadAnalyzer)
        requires
            fees.wf(),
        ensures
            r.wf(),
            r.store.entries@.len() == 0,
            r.fees == fees,
    {
        SpreadAnalyzer { store: BookStore::new(), fees }
    }

    /// Stores the latest snapshot under its own venue-and-pair key:
    /// an existing entry for that key is overwritten in place, any
    /// other entry is untouched, and a new key is appended.
    pub fn upsert_book(&mut self, book: OrderBook)
        requires
            old(self).wf(),
            book.wf(),
        ensures
            final(self).wf(),
            final(self).fees == old(self).fees,
            final(self).store.spec_has_key(book_key(book.exchange@, book.pair@)),
            old(self).store.spec_has_key(book_key(book.exchange@, book.pair@)) ==> {
                &&& final(self).store.entries@.len() == old(self).store.entries@.len()
                &&& exists|i: int|
                    {
                        &&& 0 <= i < old(self).store.entries@.len()
                        &&& (#[trigger] old(self).store.entries@[i]).key@ == book_key(
                            book.exchange@,
                            book.pair@,
                        )
                        &&& final(self).store.entries@[i].book == book
                        &&& final(self).store.entries@[i].key@ == book_key(
                            book.exchange@,
                            book.pair@,
                        )
                        &&& forall|j: int|
                            0 <= j < old(self).store.entries@.len() && j != i
                                ==> #[trigger] final(self).store.entries@[j]
                                == old(self).store.entries@[j]
                    }
            },
            !old(self).store.spec_has_key(book_key(book.exchange@, book.pair@)) ==> {
                &&& final(self).store.entries@.len() == old(self).store.entries@.len() + 1
                &&& forall|j: int|
                    0 <= j < old(self).store.entries@.len()
                        ==> #[trigger] final(self).store.entries@[j]
                        == old(self).store.entries@[j]
                &&& final(self).store.entries@[old(self).store.entries@.len() as int].book
                    == book
                &&& final(self).store.entries@[old(self).store.entries@.len() as int].key@
                    == book_key(book.exchange@, book.pair@)
            },
    {
        self.store.upsert(book);
    }

    /// The full scan: every ordered pair `(i, j)` with `i < j` of
    /// comparable stored books is evaluated, buying at `i`'s best ask
    /// and selling into `j`'s best bid; results are sorted by ROI,
    /// highest first, and each skipped empty-book comparison is
    /// recorded as a warning, in scan order.
    pub fn analyze_all_spreads(&self) -> (r: ScanReport)
        requires
            self.wf(),
        ensures
            sorted_by_roi_desc(r.opportunities@),
            models_of(r.opportunities@).to_multiset() == all_opps(
                self.fees,
                self.store.entries@,
            ).to_multiset(),
            warn_views(r.warnings@) == all_warns(self.store.entries@),
            forall|k: int|
                0 <= k < r.opportunities@.len() ==> (#[trigger] r.opportunities@[k]).id@.len()
                    == 36,
    {
        let ghost entries = self.store.entries@;
        let n = self.store.entries.len();
        let mut opps: Vec<ArbitrageOpportunity> = Vec::new();
        let mut warns: Vec<ScanWarning> = Vec::new();
        let mut i: usize = 0;
        proof {
            assert(models_of(opps@) =~= Seq::<OppModel>::empty());
            assert(warn_views(warns@) =~= Seq::<(Seq<char>, Seq<char>)>::empty());
            assert(models_of(opps@) + opps_from(self.fees, entries, 0) =~= all_opps(
                self.fees,
                entries,
            ));
            assert(warn_views(warns@) + warns_from(entries, 0) =~= all_warns(entries));
        }
        while i < n
            invariant
                self.wf(),
                entries == self.store.entries@,
                n == entries.len(),
                i <= n,
                models_of(opps@) + opps_from(self.fees, entries, i as int) == all_opps(
                    self.fees,
                    entries,
                ),
                warn_views(warns@) + warns_from(entries, i as int) == all_warns(entries),
                forall|k: int|
                    0 <= k < opps@.len() ==> (#[trigger] opps@[k]).id@.len() == 36,
            decreases n - i,
        {
            let mut j: usize = i + 1;
            proof {
                assert(opps_from(self.fees, entries, i as int) == opps_in_row(
                    self.fees,
                    entries,
                    i as int,
                    i + 1,
                ) + opps_from(self.fees, entries, i + 1));
                assert(models_of(opps@) + opps_in_row(self.fees, entries, i as int, i + 1)
                    + opps_from(self.fees, entries, i + 1) =~= all_opps(self.fees, entries));
                assert(warns_from(entries, i as int) == warns_in_row(entries, i as int, i + 1)
                    + warns_from(entries, i + 1));
                assert(warn_views(warns@) + warns_in_row(entries, i as int, i + 1)
                    + warns_from(entries, i + 1) =~= all_warns(entries));
            }
            while j < n
                invariant
                    self.wf(),
                    entries == self.store.entries@,
                    n == entries.len(),
                    i < n,
                    i + 1 <= j <= n,
                    models_of(opps@) + opps_in_row(self.fees, entries, i as int, j as int)
                        + opps_from(self.fees, entries, i + 1) == all_opps(self.fees, entries),
                    warn_views(warns@) + warns_in_row(entries, i as int, j as int)
                        + warns_from(entries, i + 1) == all_warns(entries),
                    forall|k: int|
                        0 <= k < opps@.len() ==> (#[trigger] opps@[k]).id@.len() == 36,
                decreases n - j,
            {
                proof {
                    assert(entries[i as int].book.wf());
                    assert(entries[j as int].book.wf());
                }
                let (found, warn) = compare_entries(
                    &self.fees,
                    &self.store.entries[i],
                    &self.store.entries[j],
                );
                let ghost prev_opps = opps@;
                let ghost prev_warns = warns@;
                match found {
                    Some(o) => {
                        opps.push(o);
                        proof {
                            assert(models_of(opps@) =~= models_of(prev_opps).push(opp_model(o)));
                            assert(opps_in_row(self.fees, entries, i as int, j as int)
                                == seq![opp_model(o)] + opps_in_row(
                                self.fees,
                                entries,
                                i as int,
                                j + 1,
                            ));
                            assert(models_of(opps@) + opps_in_row(
                                self.fees,
                                entries,
                                i as int,
                                j + 1,
                            ) + opps_from(self.fees, entries, i + 1) =~= models_of(prev_opps)
                                + opps_in_row(self.fees, entries, i as int, j as int)
                                + opps_from(self.fees, entries, i + 1));
                        }
                    },
                    None => {
                        proof {
                            assert(opps_in_row(self.fees, entries, i as int, j as int)
                                == opps_in_row(self.fees, entries, i as int, j + 1));
                        }
                    },
                }
                if warn {
                    let w = ScanWarning {
                        first_key: self.store.entries[i].key.clone(),
                        second_key: self.store.entries[j].key.clone(),
                    };
                    warns.push(w);
                    proof {
                        assert(warn_views(warns@) =~= warn_views(prev_warns).push(
                            (entries[i as int].key@, entries[j as int].key@),
                        ));
                        assert(warns_in_row(entries, i as int, j as int) == seq![
                            (entries[i as int].key@, entries[j as int].key@),
                        ] + warns_in_row(entries, i as int, j + 1));
                        assert(warn_views(warns@) + warns_in_row(entries, i as int, j + 1)
                            + warns_from(entries, i + 1) =~= warn_views(prev_warns)
                            + warns_in_row(entries, i as int, j as int) + warns_from(
                            entries,
                            i + 1,
                        ));
                    }
                } else {
                    proof {
                        assert(warns_in_row(entries, i as int, j as int) == warns_in_row(
                            entries,
                            i as int,
                            j + 1,
                        ));
                    }
                }
                j = j + 1;
            }
            proof {
                assert(opps_in_row(self.fees, entries, i as int, n as int) =~= Seq::<
                    OppModel,
                >::empty());
                assert(warns_in_row(entries, i as int, n as int) =~= Seq::<
                    (Seq<char>, Seq<char>),
                >::empty());
                assert(models_of(opps@) + opps_from(self.fees, entries, i + 1) =~= all_opps(
                    self.fees,
                    entries,
                ));
                assert(warn_views(warns@) + warns_from(entries, i + 1) =~= all_warns(entries));
            }
            i = i + 1;
        }
        proof {
            assert(opps_from(self.fees, entries, n as int) =~= Seq::<OppModel>::empty());
            assert(warns_from(entries, n as int) =~= Seq::<(Seq<char>, Seq<char>)>::empty());
            assert(models_of(opps@) =~= all_opps(self.fees, entries));
            assert(warn_views(warns@) =~= all_warns(entries));
        }
        let sorted = sort_by_roi(opps);
        proof {
            assert forall|k: int| 0 <= k < sorted@.len() implies (#[trigger] sorted@[k]).id@.len()
                == 36 by {
                assert(sorted@.to_multiset().contains(sorted@[k]));
            }
        }
        ScanReport { opportunities: sorted, warnings: warns }
    }

    /// The targeted scan around one updated key: the stored book for
    /// that key is the fixed sell side, every other stored book the
    /// buy side, in store order and unsorted; an unknown key is a
    /// recoverable error.
    pub fn analyze_spread(&self, updated_key: &str) -> (r: Result<ScanReport, AnalyzeError>)
        requires
            self.wf(),
        ensures
            r is Err <==> !self.store.spec_has_key(updated_key@),
            r matches Ok(rep) ==> forall|u: int|
                0 <= u < self.store.entries@.len() && (#[trigger] self.store.entries@[u]).key@
                    == updated_key@ ==> {
                    &&& models_of(rep.opportunities@) == targeted_opps(
                        self.fees,
                        self.store.entries@,
                        u,
                        0,
                    )
                    &&& warn_views(rep.warnings@) == targeted_warns(self.store.entries@, u, 0)
                },
            r matches Ok(rep) ==> forall|k: int|
                0 <= k < rep.opportunities@.len() ==> (#[trigger] rep.opportunities@[k]).id@.len()
                    == 36,
    {
        let ghost entries = self.store.entries@;
        let u = match self.store.find_key_index(updated_key) {
            Some(u) => u,
            None => {
                return Err(AnalyzeError::UnknownKey);
            },
        };
        let n = self.store.entries.len();
        let mut opps: Vec<ArbitrageOpportunity> = Vec::new();
        let mut warns: Vec<ScanWarning> = Vec::new();
        let mut k: usize = 0;
        proof {
            assert(models_of(opps@) =~= Seq::<OppModel>::empty());
            assert(warn_views(warns@) =~= Seq::<(Seq<char>, Seq<char>)>::empty());
            assert(models_of(opps@) + targeted_opps(self.fees, entries, u as int, 0)
                =~= targeted_opps(self.fees, entries, u as int, 0));
            assert(warn_views(warns@) + targeted_warns(entries, u as int, 0) =~= targeted_warns(
                entries,
                u as int,
                0,
            ));
        }
        while k < n
            invariant
                self.wf(),
                entries == self.store.entries@,
                n == entries.len(),
                k <= n,
                u < n,
                models_of(opps@) + targeted_opps(self.fees, entries, u as int, k as int)
                    == targeted_opps(self.fees, entries, u as int, 0),
                warn_views(warns@) + targeted_warns(entries, u as int, k as int)
                    == targeted_warns(entries, u as int, 0),
                forall|q: int|
                    0 <= q < opps@.len() ==> (#[trigger] opps@[q]).id@.len() == 36,
            decreases n - k,
        {
            let ghost prev_opps = opps@;
            let ghost prev_warns = warns@;
            if k != u {
                proof {
                    assert(entries[k as int].book.wf());
                    assert(entries[u as int].book.wf());
                }
                let (found, warn) = compare_entries(
                    &self.fees,
                    &self.store.entries[k],
                    &self.store.entries[u],
                );
                match found {
                    Some(o) => {
                        opps.push(o);
                        proof {
                            assert(models_of(opps@) =~= models_of(prev_opps).push(opp_model(o)));
                            assert(targeted_opps(self.fees, entries, u as int, k as int)
                                == seq![opp_model(o)] + targeted_opps(
                                self.fees,
                                entries,
                                u as int,
                                k + 1,
                            ));
                            assert(models_of(opps@) + targeted_opps(
                                self.fees,
                                entries,
                                u as int,
                                k + 1,
                            ) =~= models_of(prev_opps) + targeted_opps(
                                self.fees,
                                entries,
                                u as int,
                                k as int,
                            ));
                        }
                    },
                    None => {
                        proof {
                            assert(targeted_opps(self.fees, entries, u as int, k as int)
                                == targeted_opps(self.fees, entries, u as int, k + 1));
                        }
                    },
                }
                if warn {
                    let w = ScanWarning {
                        first_key: self.store.entries[k].key.clone(),
                        second_key: self.store.entries[u].key.clone(),
                    };
                    warns.push(w);
                    proof {
                        assert(warn_views(warns@) =~= warn_views(prev_warns).push(
                            (entries[k as int].key@, entries[u as int].key@),
                        ));
                        assert(targeted_warns(entries, u as int, k as int) == seq![
                            (entries[k as int].key@, entries[u as int].key@),
                        ] + targeted_warns(entries, u as int, k + 1));
                        assert(warn_views(warns@) + targeted_warns(entries, u as int, k + 1)
                            =~= warn_views(prev_warns) + targeted_warns(
                            entries,
                            u as int,
                            k as int,
                        ));
                    }
                } else {
                    proof {
                        assert(targeted_warns(entries, u as int, k as int) == targeted_warns(
                            entries,
                            u as int,
                            k + 1,
                        ));
                    }
                }
            } else {
                proof {
                    assert(targeted_opps(self.fees, entries, u as int, k as int)
                        == targeted_opps(self.fees, entries, u as int, k + 1));
                    assert(targeted_warns(entries, u as int, k as int) == targeted_warns(
                        entries,
                        u as int,
                        k + 1,
                    ));
                }
            }
            k = k + 1;
        }
        proof {
            assert(targeted_opps(self.fees, entries, u as int, n as int) =~= Seq::<
                OppModel,
            >::empty());
            assert(targeted_warns(entries, u as int, n as int) =~= Seq::<
                (Seq<char>, Seq<char>),
            >::empty());
            assert(models_of(opps@) =~= targeted_opps(self.fees, entries, u as int, 0));
            assert(warn_views(warns@) =~= targeted_warns(entries, u as int, 0));
            assert forall|u2: int|
                0 <= u2 < entries.len() && (#[trigger] entries[u2]).key@ == updated_key@
                    implies u2 == u as int by {
                if u2 != u as int {
                    assert(entries[u2].key@ != entries[u as int].key@);
                }
            }
        }
        Ok(ScanReport { opportunities: opps, warnings: warns })
    }
}

} // verus!

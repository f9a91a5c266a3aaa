//! The library's general laws, proved once and for all inputs: sizing
//! monotonicity, fee-estimate monotonicity and non-negativity, the
//! two-book full scan, and that a lone book for a canonical pair never
//! yields an opportunity.

use vstd::prelude::*;

use crate::evaluate::spec_execution_size;
use crate::evaluate::OppModel;
use crate::evaluate::ROI_UNBOUNDED;
use crate::fees::FeeSchedule;
use crate::scan::all_opps;
use crate::scan::comparable;
use crate::scan::compare_books;
use crate::scan::opps_from;
use crate::scan::opps_in_row;
use crate::scan::spec_buy_price;
use crate::scan::targeted_opps;
use crate::store::StoreEntry;
use crate::symbols::canon_pair;
use crate::MIN_ABSOLUTE_PROFIT;
use crate::MIN_ROI_MICRO_PCT;
use crate::SCALE;
use vstd::arithmetic::div_mod::lemma_div_is_ordered;
use vstd::arithmetic::div_mod::lemma_div_pos_is_pos;
use vstd::arithmetic::mul::lemma_mul_inequality;

verus! {

/// The sizing policy is monotonic: no larger quoted sizes ever give a
/// smaller executable size. (That it is bounded by both quoted sizes
/// and by the fixed cap is part of `choose_execution_size`'s own
/// contract.)
pub proof fn lemma_execution_size_monotonic(a1: int, b1: int, a2: int, b2: int)
    requires
        0 <= a1 <= a2,
        0 <= b1 <= b2,
    ensures
        spec_execution_size(a1, b1) <= spec_execution_size(a2, b2),
{
    let raw1 = if a1 <= b1 {
        a1
    } else {
        b1
    };
    let raw2 = if a2 <= b2 {
        a2
    } else {
        b2
    };
    assert(raw1 <= raw2);
    lemma_mul_inequality(raw1, raw2, 8);
    lemma_div_is_ordered(raw1 * 8, raw2 * 8, 10);
}

/// One side's fee contribution is non-negative and monotonically
/// non-decreasing in the traded size.
proof fn lemma_side_fee_monotonic(s: FeeSchedule, venue: Seq<char>, size1: int, size2: int)
    requires
        0 <= size1 <= size2,
    ensures
        0 <= s.spec_side_fee(venue, size1) <= s.spec_side_fee(venue, size2),
{
    match crate::fees::lookup_venue(s.venue_fees@, venue) {
        Some(vf) => {
            let rate = s.selected_rate(vf);
            lemma_mul_inequality(size1, size2, rate);
            lemma_div_is_ordered(size1 * rate, size2 * rate, crate::FEE_RATE_DEN as int);
            lemma_div_pos_is_pos(size1 * rate, crate::FEE_RATE_DEN as int);
        },
        None => {
            let rate = s.default_fee_ppm as int;
            lemma_mul_inequality(size1, size2, rate);
            lemma_div_is_ordered(size1 * rate, size2 * rate, crate::FEE_RATE_DEN as int);
            lemma_div_pos_is_pos(size1 * rate, crate::FEE_RATE_DEN as int);
        },
    }
}

/// The fee estimate is non-negative, and monotonically non-decreasing
/// in the traded size for fixed venues and pair.
pub proof fn lemma_fee_estimate_monotonic(
    s: FeeSchedule,
    size1: int,
    size2: int,
    buy_venue: Seq<char>,
    sell_venue: Seq<char>,
    pair: Seq<char>,
)
    requires
        0 <= size1 <= size2,
    ensures
        0 <= s.spec_estimate(size1, buy_venue, sell_venue, pair),
        s.spec_estimate(size1, buy_venue, sell_venue, pair) <= s.spec_estimate(
            size2,
            buy_venue,
            sell_venue,
            pair,
        ),
{
    lemma_side_fee_monotonic(s, buy_venue, size1, size2);
    lemma_side_fee_monotonic(s, sell_venue, size1, size2);
    match crate::fees::lookup_withdrawal(
        s.withdrawal_fees@,
        crate::symbols::fee_lookup_currency(pair),
    ) {
        Some(w) => {
            lemma_mul_inequality(size1, size2, w as int);
            assert((w as int) * size1 == size1 * (w as int)) by (nonlinear_arith);
            assert((w as int) * size2 == size2 * (w as int)) by (nonlinear_arith);
            lemma_div_is_ordered((w as int) * size1, (w as int) * size2, SCALE as int);
            lemma_div_pos_is_pos((w as int) * size1, SCALE as int);
        },
        None => {},
    }
}

/// A full scan over exactly two comparable, usable books whose sell
/// side out-quotes the adjusted buy side yields exactly the
/// evaluator's outcome: one opportunity meeting both profitability
/// thresholds, or none at all when the sizing or either threshold
/// rejects it.
pub proof fn lemma_two_book_scan(s: FeeSchedule, e1: StoreEntry, e2: StoreEntry)
    requires
        comparable(e1, e2),
        e1.book.usable(),
        e2.book.usable(),
        e2.book.spec_best_bid().price_micro as int > spec_buy_price(e1, e2),
    ensures
        all_opps(s, seq![e1, e2]) == (match compare_books(s, e1, e2) {
            Some(m) => seq![m],
            None => Seq::<OppModel>::empty(),
        }),
        compare_books(s, e1, e2) matches Some(m) ==> {
            &&& m.net_profit >= MIN_ABSOLUTE_PROFIT as int
            &&& m.roi_micro_pct >= MIN_ROI_MICRO_PCT as int
            &&& m.buy_exchange == e1.book.exchange@
            &&& m.sell_exchange == e2.book.exchange@
            &&& m.pair == canon_pair(e1.book.pair@)
        },
        compare_books(s, e1, e2) is None ==> ({
            let size = spec_execution_size(
                e1.book.spec_best_ask().size_micro as int,
                e2.book.spec_best_bid().size_micro as int,
            );
            let gross_per_unit = e2.book.spec_best_bid().price_micro as int - spec_buy_price(
                e1,
                e2,
            );
            let fees = s.spec_estimate(
                size,
                e1.book.exchange@,
                e2.book.exchange@,
                canon_pair(e1.book.pair@),
            );
            let net = gross_per_unit * size / (SCALE as int) - fees;
            let notional = spec_buy_price(e1, e2) * size / (SCALE as int);
            let roi = if notional > 0 {
                net * 100 * (SCALE as int) / notional
            } else {
                ROI_UNBOUNDED as int
            };
            size <= 0 || net < MIN_ABSOLUTE_PROFIT as int || roi < MIN_ROI_MICRO_PCT as int
        }),
{
    let entries = seq![e1, e2];
    assert(entries.len() == 2);
    assert(entries[0] == e1);
    assert(entries[1] == e2);
    assert(opps_in_row(s, entries, 0, 2) =~= Seq::<OppModel>::empty());
    assert(opps_in_row(s, entries, 1, 2) =~= Seq::<OppModel>::empty());
    assert(opps_from(s, entries, 2) =~= Seq::<OppModel>::empty());
    assert(opps_from(s, entries, 1) =~= Seq::<OppModel>::empty());
    match compare_books(s, e1, e2) {
        Some(m) => {
            assert(opps_in_row(s, entries, 0, 1) =~= seq![m]);
            assert(all_opps(s, entries) =~= seq![m]);
        },
        None => {
            assert(opps_in_row(s, entries, 0, 1) =~= Seq::<OppModel>::empty());
            assert(all_opps(s, entries) =~= Seq::<OppModel>::empty());
        },
    }
}

/// `m` arises from comparing two distinct stored entries.
pub open spec fn from_comparison(s: FeeSchedule, entries: Seq<StoreEntry>, m: OppModel) -> bool {
    exists|i: int, j: int|
        0 <= i < entries.len() && 0 <= j < entries.len() && i != j && #[trigger] compare_books(
            s,
            entries[i],
            entries[j],
        ) == Some(m)
}

proof fn lemma_row_sound(s: FeeSchedule, entries: Seq<StoreEntry>, i: int, j: int)
    requires
        0 <= i < entries.len(),
        i < j,
    ensures
        forall|k: int|
            0 <= k < opps_in_row(s, entries, i, j).len() ==> from_comparison(
                s,
                entries,
                #[trigger] opps_in_row(s, entries, i, j)[k],
            ),
    decreases entries.len() - j,
{
    if j >= entries.len() {
    } else {
        lemma_row_sound(s, entries, i, j + 1);
        let rest = opps_in_row(s, entries, i, j + 1);
        match compare_books(s, entries[i], entries[j]) {
            Some(m) => {
                assert(opps_in_row(s, entries, i, j) == seq![m] + rest);
                assert forall|k: int|
                    0 <= k < opps_in_row(s, entries, i, j).len() implies from_comparison(
                    s,
                    entries,
                    #[trigger] opps_in_row(s, entries, i, j)[k],
                ) by {
                    if k == 0 {
                        assert((seq![m] + rest)[0] == m);
                        assert(compare_books(s, entries[i], entries[j]) == Some(m));
                    } else {
                        assert((seq![m] + rest)[k] == rest[k - 1]);
                    }
                }
            },
            None => {
                assert(opps_in_row(s, entries, i, j) == rest);
            },
        }
    }
}

proof fn lemma_opps_from_sound(s: FeeSchedule, entries: Seq<StoreEntry>, i: int)
    requires
        0 <= i,
    ensures
        forall|k: int|
            0 <= k < opps_from(s, entries, i).len() ==> from_comparison(
                s,
                entries,
                #[trigger] opps_from(s, entries, i)[k],
            ),
    decreases entries.len() - i,
{
    if i >= entries.len() {
    } else {
        lemma_row_sound(s, entries, i, i + 1);
        lemma_opps_from_sound(s, entries, i + 1);
        let row = opps_in_row(s, entries, i, i + 1);
        let rest = opps_from(s, entries, i + 1);
        assert(opps_from(s, entries, i) == row + rest);
        assert forall|k: int|
            0 <= k < opps_from(s, entries, i).len() implies from_comparison(
            s,
            entries,
            #[trigger] opps_from(s, entries, i)[k],
        ) by {
            if k < row.len() {
                assert((row + rest)[k] == row[k]);
            } else {
                assert((row + rest)[k] == rest[k - row.len()]);
            }
        }
    }
}

/// Every opportunity a full scan produces arises from comparing two
/// distinct stored entries.
pub proof fn lemma_all_opps_sound(s: FeeSchedule, entries: Seq<StoreEntry>)
    ensures
        forall|k: int|
            0 <= k < all_opps(s, entries).len() ==> from_comparison(
                s,
                entries,
                #[trigger] all_opps(s, entries)[k],
            ),
{
    lemma_opps_from_sound(s, entries, 0);
}

proof fn lemma_targeted_sound(s: FeeSchedule, entries: Seq<StoreEntry>, u: int, k: int)
    requires
        0 <= u < entries.len(),
        0 <= k,
    ensures
        forall|q: int|
            0 <= q < targeted_opps(s, entries, u, k).len() ==> from_comparison(
                s,
                entries,
                #[trigger] targeted_opps(s, entries, u, k)[q],
            ),
    decreases entries.len() - k,
{
    if k >= entries.len() {
    } else {
        lemma_targeted_sound(s, entries, u, k + 1);
        let rest = targeted_opps(s, entries, u, k + 1);
        if k != u {
            match compare_books(s, entries[k], entries[u]) {
                Some(m) => {
                    assert(targeted_opps(s, entries, u, k) == seq![m] + rest);
                    assert forall|q: int|
                        0 <= q < targeted_opps(s, entries, u, k).len() implies from_comparison(
                        s,
                        entries,
                        #[trigger] targeted_opps(s, entries, u, k)[q],
                    ) by {
                        if q == 0 {
                            assert((seq![m] + rest)[0] == m);
                            assert(compare_books(s, entries[k], entries[u]) == Some(m));
                        } else {
                            assert((seq![m] + rest)[q] == rest[q - 1]);
                        }
                    }
                },
                None => {
                    assert(targeted_opps(s, entries, u, k) == rest);
                },
            }
        } else {
            assert(targeted_opps(s, entries, u, k) == rest);
        }
    }
}

proof fn lemma_comparison_pair(s: FeeSchedule, entries: Seq<StoreEntry>, m: OppModel, p: Seq<char>)
    requires
        from_comparison(s, entries, m),
        m.pair == p,
    ensures
        exists|i: int, j: int|
            0 <= i < entries.len() && 0 <= j < entries.len() && i != j && canon_pair(
                (#[trigger] entries[i]).book.pair@,
            ) == p && canon_pair((#[trigger] entries[j]).book.pair@) == p,
{
    let (i, j) = choose|i: int, j: int|
        0 <= i < entries.len() && 0 <= j < entries.len() && i != j && #[trigger] compare_books(
            s,
            entries[i],
            entries[j],
        ) == Some(m);
    assert(comparable(entries[i], entries[j]));
    assert(m.pair == canon_pair(entries[i].book.pair@));
    assert(canon_pair((#[trigger] entries[i]).book.pair@) == p && canon_pair(
        (#[trigger] entries[j]).book.pair@,
    ) == p);
}

/// A store holding exactly one book whose canonical pair is `p` never
/// yields an opportunity for `p`: not in a full scan, and not in a
/// targeted scan around any key.
pub proof fn lemma_lone_book_yields_nothing(
    s: FeeSchedule,
    entries: Seq<StoreEntry>,
    p: Seq<char>,
    lone: int,
)
    requires
        0 <= lone < entries.len(),
        canon_pair(entries[lone].book.pair@) == p,
        forall|i: int|
            0 <= i < entries.len() && i != lone ==> canon_pair(
                (#[trigger] entries[i]).book.pair@,
            ) != p,
    ensures
        forall|k: int|
            0 <= k < all_opps(s, entries).len() ==> (#[trigger] all_opps(s, entries)[k]).pair
                != p,
        forall|u: int, k: int|
            0 <= u < entries.len() && 0 <= k < targeted_opps(s, entries, u, 0).len() ==> (
            #[trigger] targeted_opps(s, entries, u, 0)[k]).pair != p,
{
    lemma_all_opps_sound(s, entries);
    assert forall|k: int| 0 <= k < all_opps(s, entries).len() implies (#[trigger] all_opps(
        s,
        entries,
    )[k]).pair != p by {
        let m = all_opps(s, entries)[k];
        if m.pair == p {
            lemma_comparison_pair(s, entries, m, p);
            let (i, j) = choose|i: int, j: int|
                0 <= i < entries.len() && 0 <= j < entries.len() && i != j && canon_pair(
                    (#[trigger] entries[i]).book.pair@,
                ) == p && canon_pair((#[trigger] entries[j]).book.pair@) == p;
            assert(i == lone || canon_pair(entries[i].book.pair@) != p);
            assert(j == lone || canon_pair(entries[j].book.pair@) != p);
            assert(false);
        }
    }
    assert forall|u: int, k: int|
        0 <= u < entries.len() && 0 <= k < targeted_opps(s, entries, u, 0).len() implies (
    #[trigger] targeted_opps(s, entries, u, 0)[k]).pair != p by {
        lemma_targeted_sound(s, entries, u, 0);
        let m = targeted_opps(s, entries, u, 0)[k];
        if m.pair == p {
            lemma_comparison_pair(s, entries, m, p);
            let (i, j) = choose|i: int, j: int|
                0 <= i < entries.len() && 0 <= j < entries.len() && i != j && canon_pair(
                    (#[trigger] entries[i]).book.pair@,
                ) == p && canon_pair((#[trigger] entries[j]).book.pair@) == p;
            assert(i == lone || canon_pair(entries[i].book.pair@) != p);
            assert(j == lone || canon_pair(entries[j].book.pair@) != p);
            assert(false);
        }
    }
}

} // verus!

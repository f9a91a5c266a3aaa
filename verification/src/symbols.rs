//! Trading-pair symbol handling: canonicalization of wrapped-asset
//! tickers, the buy-side price adjustment for wrapped assets, and the
//! base-asset extraction heuristic used by the fee model.

use vstd::prelude::*;

verus! {

/// Denominator of the buy-side price adjustment factor.
pub const PRICE_ADJ_DEN: u64 = 10_000;

/// Numerator of the adjustment applied when a wrapped ticker is
/// involved: the wrapped asset trades at a slight structural discount.
pub const WRAPPED_ADJ_NUM: u64 = 9_999;

/// True when `pat` occurs in `s` starting at index `i`.
pub open spec fn match_at(s: Seq<char>, pat: Seq<char>, i: int) -> bool {
    0 <= i && i + pat.len() <= s.len() && s.subrange(i, i + pat.len() as int) == pat
}

/// True when `pat` occurs somewhere in `s`.
pub open spec fn contains_pat(s: Seq<char>, pat: Seq<char>) -> bool {
    exists|i: int| match_at(s, pat, i)
}

/// `s` with every non-overlapping occurrence of `pat`, scanned left to
/// right, replaced by `to`; mirrors `str::replace` for non-empty `pat`.
pub open spec fn replace_pat(s: Seq<char>, pat: Seq<char>, to: Seq<char>) -> Seq<char>
    decreases s.len(),
{
    if pat.len() == 0 || s.len() == 0 {
        s
    } else if match_at(s, pat, 0) {
        to + replace_pat(s.skip(pat.len() as int), pat, to)
    } else {
        seq![s[0]] + replace_pat(s.skip(1), pat, to)
    }
}

/// The prefix of `s` up to (excluding) the first occurrence of `c`;
/// all of `s` when `c` does not occur.
pub open spec fn prefix_before(s: Seq<char>, c: char) -> Seq<char>
    decreases s.len(),
{
    if s.len() == 0 {
        s
    } else if s[0] == c {
        Seq::empty()
    } else {
        seq![s[0]] + prefix_before(s.skip(1), c)
    }
}

pub open spec fn wrapped_ticker() -> Seq<char> {
    seq!['W', 'B', 'T', 'C']
}

pub open spec fn underlying_ticker() -> Seq<char> {
    seq!['B', 'T', 'C']
}

pub open spec fn usdt_suffix() -> Seq<char> {
    seq!['U', 'S', 'D', 'T']
}

pub open spec fn usd_suffix() -> Seq<char> {
    seq!['U', 'S', 'D']
}

/// Canonical spelling of a trading pair: every occurrence of the
/// wrapped ticker collapsed to its underlying ticker.
pub open spec fn canon_pair(p: Seq<char>) -> Seq<char> {
    replace_pat(p, wrapped_ticker(), underlying_ticker())
}

/// True when the pair mentions the wrapped ticker.
pub open spec fn mentions_wrapped(p: Seq<char>) -> bool {
    contains_pat(p, wrapped_ticker())
}

/// The price-adjustment numerator (over `PRICE_ADJ_DEN`) for a
/// comparison of two venue-native pair spellings.
pub open spec fn pair_adjustment(p1: Seq<char>, p2: Seq<char>) -> int {
    if mentions_wrapped(p1) || mentions_wrapped(p2) {
        WRAPPED_ADJ_NUM as int
    } else {
        PRICE_ADJ_DEN as int
    }
}

/// The base-asset symbol derived from a pair spelling: the part before
/// a `/` separator when present, else the pair with a `USDT` (or
/// `USD`) quote spelling removed, else the first four characters.
/// The heuristic is lossy for unusual spellings; it is kept as the fee
/// model's documented behaviour.
pub open spec fn base_currency(p: Seq<char>) -> Seq<char> {
    if contains_pat(p, seq!['/']) {
        prefix_before(p, '/')
    } else if contains_pat(p, usdt_suffix()) {
        replace_pat(p, usdt_suffix(), Seq::empty())
    } else if contains_pat(p, usd_suffix()) {
        replace_pat(p, usd_suffix(), Seq::empty())
    } else if p.len() <= 4 {
        p
    } else {
        p.take(4)
    }
}

/// The asset name under which withdrawal fees are looked up: the base
/// asset with the wrapped ticker collapsed to the underlying one.
pub open spec fn fee_lookup_currency(p: Seq<char>) -> Seq<char> {
    replace_pat(base_currency(p), wrapped_ticker(), underlying_ticker())
}

/// Character-for-character equality of two string slices.
pub fn str_eq(a: &str, b: &str) -> (r: bool)
    ensures
        r == (a@ == b@),
{
    let n = a.unicode_len();
    let m = b.unicode_len();
    if n != m {
        return false;
    }
    let mut i: usize = 0;
    while i < n
        invariant
            n == a@.len(),
            n == b@.len(),
            i <= n,
            forall|j: int| 0 <= j < i ==> a@[j] == b@[j],
        decreases n - i,
    {
        if a.get_char(i) != b.get_char(i) {
            return false;
        }
        i = i + 1;
    }
    proof {
        assert(a@ =~= b@);
    }
    true
}

/// Whether `pat` occurs in `s` at position `i`, by character comparison.
pub fn str_matches_at(s: &str, pat: &str, i: usize) -> (b: bool)
    requires
        i + pat@.len() <= s@.len(),
    ensures
        b == match_at(s@, pat@, i as int),
{
    let n = s.unicode_len();
    let m = pat.unicode_len();
    let mut k: usize = 0;
    while k < m
        invariant
            n == s@.len(),
            m == pat@.len(),
            i + m <= n,
            k <= m,
            forall|q: int| 0 <= q < k ==> s@[i + q] == pat@[q],
        decreases m - k,
    {
        if s.get_char(i + k) != pat.get_char(k) {
            proof {
                assert(s@.subrange(i as int, i + m as int)[k as int] != pat@[k as int]);
            }
            return false;
        }
        k = k + 1;
    }
    proof {
        assert(s@.subrange(i as int, i + m as int) =~= pat@);
    }
    true
}

/// Whether `pat` occurs anywhere in `s`.
pub fn contains_str(s: &str, pat: &str) -> (b: bool)
    requires
        pat@.len() >= 1,
    ensures
        b == contains_pat(s@, pat@),
{
    let n = s.unicode_len();
    let m = pat.unicode_len();
    if m > n {
        return false;
    }
    let mut i: usize = 0;
    while i <= n - m
        invariant
            n == s@.len(),
            m == pat@.len(),
            1 <= m <= n,
            i <= n - m + 1,
            forall|j: int| 0 <= j < i ==> !match_at(s@, pat@, j),
        decreases n - m - i + 1,
    {
        if str_matches_at(s, pat, i) {
            return true;
        }
        i = i + 1;
    }
    false
}

/// `s` with every occurrence of `pat` replaced by `to`, scanning left
/// to right without overlap.
pub fn replace_str(s: &str, pat: &str, to: &str) -> (r: String)
    requires
        pat@.len() >= 1,
    ensures
        r@ == replace_pat(s@, pat@, to@),
{
    let n = s.unicode_len();
    let m = pat.unicode_len();
    let mut out = String::new();
    let mut i: usize = 0;
    proof {
        assert(s@.skip(0) =~= s@);
        assert(out@ + replace_pat(s@, pat@, to@) =~= replace_pat(s@, pat@, to@));
    }
    while i < n
        invariant
            n == s@.len(),
            m == pat@.len(),
            1 <= m,
            i <= n,
            out@ + replace_pat(s@.skip(i as int), pat@, to@) == replace_pat(s@, pat@, to@),
        decreases n - i,
    {
        let ghost tail = s@.skip(i as int);
        if m <= n - i && str_matches_at(s, pat, i) {
            proof {
                assert(tail.subrange(0, m as int) =~= s@.subrange(i as int, i + m as int));
                assert(match_at(tail, pat@, 0));
                assert(tail.skip(m as int) =~= s@.skip(i + m as int));
                assert(replace_pat(tail, pat@, to@) == to@ + replace_pat(
                    s@.skip(i + m as int),
                    pat@,
                    to@,
                ));
            }
            out.append(to);
            i = i + m;
            proof {
                assert(out@ + replace_pat(s@.skip(i as int), pat@, to@) =~= replace_pat(
                    s@,
                    pat@,
                    to@,
                ));
            }
        } else {
            proof {
                if i + m <= n {
                    assert(tail.subrange(0, m as int) =~= s@.subrange(i as int, i + m as int));
                }
                assert(!match_at(tail, pat@, 0));
                assert(tail.skip(1) =~= s@.skip(i + 1));
                assert(replace_pat(tail, pat@, to@) == seq![s@[i as int]] + replace_pat(
                    s@.skip(i + 1),
                    pat@,
                    to@,
                ));
            }
            let piece = s.substring_char(i, i + 1);
            proof {
                assert(piece@ =~= seq![s@[i as int]]);
            }
            out.append(piece);
            i = i + 1;
            proof {
                assert(out@ + replace_pat(s@.skip(i as int), pat@, to@) =~= replace_pat(
                    s@,
                    pat@,
                    to@,
                ));
            }
        }
    }
    proof {
        assert(s@.skip(n as int) =~= Seq::<char>::empty());
        assert(out@ =~= replace_pat(s@, pat@, to@));
    }
    out
}

/// The prefix of `s` before the first occurrence of `c`.
pub fn prefix_before_char(s: &str, c: char) -> (r: String)
    ensures
        r@ == prefix_before(s@, c),
{
    let n = s.unicode_len();
    let mut out = String::new();
    let mut i: usize = 0;
    proof {
        assert(s@.skip(0) =~= s@);
        assert(out@ + prefix_before(s@, c) =~= prefix_before(s@, c));
    }
    while i < n
        invariant
            n == s@.len(),
            i <= n,
            out@ + prefix_before(s@.skip(i as int), c) == prefix_before(s@, c),
        decreases n - i,
    {
        let ghost tail = s@.skip(i as int);
        let ch = s.get_char(i);
        if ch == c {
            proof {
                assert(prefix_before(tail, c) =~= Seq::<char>::empty());
                assert(out@ =~= prefix_before(s@, c));
            }
            return out;
        }
        proof {
            assert(tail.skip(1) =~= s@.skip(i + 1));
            assert(prefix_before(tail, c) == seq![s@[i as int]] + prefix_before(
                s@.skip(i + 1),
                c,
            ));
        }
        let piece = s.substring_char(i, i + 1);
        proof {
            assert(piece@ =~= seq![s@[i as int]]);
        }
        out.append(piece);
        i = i + 1;
        proof {
            assert(out@ + prefix_before(s@.skip(i as int), c) =~= prefix_before(s@, c));
        }
    }
    proof {
        assert(s@.skip(n as int) =~= Seq::<char>::empty());
        assert(out@ =~= prefix_before(s@, c));
    }
    out
}

/// The canonical spelling of a venue-native pair.
pub fn canonical_pair(p: &str) -> (r: String)
    ensures
        r@ == canon_pair(p@),
{
    proof {
        reveal_strlit("WBTC");
        reveal_strlit("BTC");
        assert("WBTC"@ =~= wrapped_ticker());
        assert("BTC"@ =~= underlying_ticker());
    }
    replace_str(p, "WBTC", "BTC")
}

/// Whether the pair mentions the wrapped ticker.
pub fn mentions_wrapped_str(p: &str) -> (b: bool)
    ensures
        b == mentions_wrapped(p@),
{
    proof {
        reveal_strlit("WBTC");
        assert("WBTC"@ =~= wrapped_ticker());
    }
    contains_str(p, "WBTC")
}

/// Canonicalizes both pair spellings and gives the buy-side price
/// adjustment numerator (over `PRICE_ADJ_DEN`): the wrapped discount
/// whenever either spelling mentions the wrapped ticker, else one.
pub fn normalize_pair_symbols(pair1: &str, pair2: &str) -> (r: (String, String, u64))
    ensures
        r.0@ == canon_pair(pair1@),
        r.1@ == canon_pair(pair2@),
        r.2 == pair_adjustment(pair1@, pair2@),
        r.2 <= PRICE_ADJ_DEN,
{
    let c1 = canonical_pair(pair1);
    let c2 = canonical_pair(pair2);
    let adj: u64 = if mentions_wrapped_str(pair1) || mentions_wrapped_str(pair2) {
        WRAPPED_ADJ_NUM
    } else {
        PRICE_ADJ_DEN
    };
    (c1, c2, adj)
}

/// The base-asset symbol of a pair spelling, per the documented
/// heuristic.
pub fn base_currency_of(pair: &str) -> (r: String)
    ensures
        r@ == base_currency(pair@),
{
    proof {
        reveal_strlit("/");
        reveal_strlit("USDT");
        reveal_strlit("USD");
        reveal_strlit("");
        assert("/"@ =~= seq!['/']);
        assert("USDT"@ =~= usdt_suffix());
        assert("USD"@ =~= usd_suffix());
        assert(""@ =~= Seq::<char>::empty());
    }
    if contains_str(pair, "/") {
        prefix_before_char(pair, '/')
    } else if contains_str(pair, "USDT") {
        replace_str(pair, "USDT", "")
    } else if contains_str(pair, "USD") {
        replace_str(pair, "USD", "")
    } else {
        let n = pair.unicode_len();
        if n <= 4 {
            String::from_str(pair)
        } else {
            let head = pair.substring_char(0, 4);
            proof {
                assert(head@ =~= pair@.take(4));
            }
            String::from_str(head)
        }
    }
}

/// The asset under which withdrawal fees are looked up for a pair.
pub fn fee_lookup_currency_of(pair: &str) -> (r: String)
    ensures
        r@ == fee_lookup_currency(pair@),
{
    proof {
        reveal_strlit("WBTC");
        reveal_strlit("BTC");
        assert("WBTC"@ =~= wrapped_ticker());
        assert("BTC"@ =~= underlying_ticker());
    }
    let base = base_currency_of(pair);
    replace_str(base.as_str(), "WBTC", "BTC")
}

} // verus!

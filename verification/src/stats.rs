//! Integer statistics used by the run and aggregate reports: permille ratios,
//! truncating means, medians, extremes and modal labels.
use vstd::prelude::*;
use vstd::relations::{sorted_by, total_ordering};
use crate::text::{chars_lt, lemma_chars_lt_trichotomy};

verus! {

broadcast use vstd::seq_lib::group_to_multiset_ensures;

pub open spec fn clamp_u32(x: int) -> int {
    if x > u32::MAX { u32::MAX as int } else { x }
}

pub open spec fn clamp_u64(x: int) -> int {
    if x > u64::MAX { u64::MAX as int } else { x }
}

/// `numerator * 1000 / denominator`, with the product saturating at `u32::MAX`
/// and a zero denominator giving zero.
pub open spec fn permille(numerator: int, denominator: int) -> int {
    if denominator == 0 { 0 } else { clamp_u32(numerator * 1000) / denominator }
}

/// Parts per thousand of `numerator` over `denominator` (zero when the
/// denominator is zero; the scaled numerator saturates at `u32::MAX`).
pub fn ratio_permille(numerator: u32, denominator: u32) -> (r: u32)
    ensures
        r == permille(numerator as int, denominator as int),
{
    if denominator == 0 {
        return 0;
    }
    let scaled: u64 = (numerator as u64) * 1000;
    let scaled: u32 = if scaled > u32::MAX as u64 { u32::MAX } else { scaled as u32 };
    scaled / denominator
}

/// Sum of the values.
pub open spec fn sum_u32(s: Seq<u32>) -> int
    decreases s.len(),
{
    if s.len() == 0 { 0 } else { sum_u32(s.drop_last()) + s.last() }
}

/// The truncating mean that the reports use: the sum saturates at `u64::MAX`,
/// the quotient at `u32::MAX`, and an empty list has mean zero.
pub open spec fn mean_u32(s: Seq<u32>) -> u32 {
    if s.len() == 0 { 0 } else { clamp_u32(clamp_u64(sum_u32(s)) / (s.len() as int)) as u32 }
}

proof fn lemma_sum_nonneg(s: Seq<u32>)
    ensures
        sum_u32(s) >= 0,
    decreases s.len(),
{
    if s.len() > 0 {
        lemma_sum_nonneg(s.drop_last());
    }
}

/// Mean of the values (see `mean_u32`).
pub fn average_u32(values: &Vec<u32>) -> (r: u32)
    ensures
        r == mean_u32(values@),
{
    let n = values.len();
    if n == 0 {
        return 0;
    }
    let mut acc: u64 = 0;
    let mut i: usize = 0;
    while i < n
        invariant
            n == values@.len(),
            i <= n,
            acc as int == clamp_u64(sum_u32(values@.take(i as int))),
        decreases n - i,
    {
        proof {
            assert(values@.take(i + 1).drop_last() =~= values@.take(i as int));
            lemma_sum_nonneg(values@.take(i as int));
        }
        acc = acc.saturating_add(values[i] as u64);
        i = i + 1;
    }
    assert(values@.take(n as int) =~= values@);
    let q = acc / (n as u64);
    if q > u32::MAX as u64 { u32::MAX } else { q as u32 }
}

/// The values that are present, in order.
pub open spec fn present_values(s: Seq<Option<u32>>) -> Seq<u32>
    decreases s.len(),
{
    if s.len() == 0 {
        Seq::empty()
    } else {
        let rest = present_values(s.drop_last());
        match s.last() {
            Some(v) => rest.push(v),
            None => rest,
        }
    }
}

/// The mean of the present values, or `None` when no value is present.
pub open spec fn mean_option_u32(s: Seq<Option<u32>>) -> Option<u32> {
    if present_values(s).len() == 0 { None } else { Some(mean_u32(present_values(s))) }
}

/// The present values of `values`, in order.
pub fn flatten_options(values: &Vec<Option<u32>>) -> (r: Vec<u32>)
    ensures
        r@ == present_values(values@),
{
    let mut out: Vec<u32> = Vec::new();
    let mut i: usize = 0;
    while i < values.len()
        invariant
            i <= values@.len(),
            out@ == present_values(values@.take(i as int)),
        decreases values@.len() - i,
    {
        assert(values@.take(i + 1).drop_last() =~= values@.take(i as int));
        match values[i] {
            Some(v) => out.push(v),
            None => {},
        }
        i = i + 1;
    }
    assert(values@.take(values@.len() as int) =~= values@);
    out
}

/// Mean of the present values; `None` when there is none.
pub fn average_option_u32(values: &Vec<Option<u32>>) -> (r: Option<u32>)
    ensures
        r == mean_option_u32(values@),
{
    let present = flatten_options(values);
    if present.len() == 0 {
        None
    } else {
        Some(average_u32(&present))
    }
}

pub open spec fn u32_leq() -> spec_fn(u32, u32) -> bool {
    |a: u32, b: u32| a <= b
}

/// The ascending arrangement of the values.
pub open spec fn sorted_values(s: Seq<u32>) -> Seq<u32> {
    s.sort_by(u32_leq())
}

/// The upper median: the element at index `len / 2` of the ascending
/// arrangement; `None` for an empty list.
pub open spec fn median_of(s: Seq<u32>) -> Option<u32> {
    if s.len() == 0 { None } else { Some(sorted_values(s)[(s.len() / 2) as int]) }
}

proof fn lemma_u32_leq_total()
    ensures
        total_ordering(u32_leq()),
{
}

/// Returns the values in ascending order.
pub fn sort_ascending(values: &Vec<u32>) -> (r: Vec<u32>)
    ensures
        r@ == sorted_values(values@),
{
    let mut out: Vec<u32> = Vec::new();
    let mut i: usize = 0;
    while i < values.len()
        invariant
            i <= values@.len(),
            sorted_by(out@, u32_leq()),
            out@.to_multiset() == values@.take(i as int).to_multiset(),
        decreases values@.len() - i,
    {
        let x = values[i];
        let mut pos: usize = 0;
        while pos < out.len() && out[pos] <= x
            invariant
                pos <= out@.len(),
                forall|k: int| 0 <= k < pos ==> out@[k] <= x,
            decreases out@.len() - pos,
        {
            pos = pos + 1;
        }
        let ghost before = out@;
        out.insert(pos, x);
        proof {
            assert forall|a: int, b: int| 0 <= a < b < out@.len() implies #[trigger] (u32_leq())(
                out@[a],
                out@[b],
            ) by {
                if b < pos {
                    assert(out@[a] == before[a] && out@[b] == before[b]);
                } else if b == pos {
                    assert(out@[a] == before[a]);
                } else if a == pos {
                    assert(out@[b] == before[b - 1]);
                    if pos < before.len() {
                        assert(x < before[pos as int]);
                        assert((u32_leq())(before[pos as int], before[b - 1]) || pos == b - 1);
                    }
                } else if a < pos {
                    assert(out@[a] == before[a] && out@[b] == before[b - 1]);
                    assert((u32_leq())(before[a], before[b - 1]));
                } else {
                    assert(out@[a] == before[a - 1] && out@[b] == before[b - 1]);
                    assert((u32_leq())(before[a - 1], before[b - 1]));
                }
            }
            assert(values@.take(i + 1) =~= values@.take(i as int).push(x));
        }
        i = i + 1;
    }
    proof {
        assert(values@.take(values@.len() as int) =~= values@);
        lemma_u32_leq_total();
        values@.lemma_sort_by_ensures(u32_leq());
        vstd::seq_lib::lemma_sorted_unique(out@, sorted_values(values@), u32_leq());
    }
    out
}

/// The upper median of the values (`None` for none).
pub fn median_u32(values: &Vec<u32>) -> (r: Option<u32>)
    ensures
        r == median_of(values@),
{
    if values.len() == 0 {
        return None;
    }
    let sorted = sort_ascending(values);
    proof {
        lemma_u32_leq_total();
        values@.lemma_sort_by_ensures(u32_leq());
        assert(sorted@.to_multiset().len() == values@.to_multiset().len());
        assert(sorted@.len() == values@.len());
    }
    Some(sorted[sorted.len() / 2])
}

/// Smallest value of a non-empty list.
pub open spec fn min_of(s: Seq<u32>) -> u32
    decreases s.len(),
{
    if s.len() <= 1 {
        s[0]
    } else {
        let m = min_of(s.drop_last());
        if s.last() < m { s.last() } else { m }
    }
}

/// Largest value of a non-empty list.
pub open spec fn max_of(s: Seq<u32>) -> u32
    decreases s.len(),
{
    if s.len() <= 1 {
        s[0]
    } else {
        let m = max_of(s.drop_last());
        if s.last() > m { s.last() } else { m }
    }
}

/// `(min, max, max - min)` of the values; `(0, 0, 0)` for an empty list.
pub open spec fn min_max_spread(s: Seq<u32>) -> (u32, u32, u32) {
    if s.len() == 0 {
        (0, 0, 0)
    } else {
        (min_of(s), max_of(s), (max_of(s) - min_of(s)) as u32)
    }
}

/// The extremes bound every element, and each is an element.
pub proof fn lemma_min_max_bounds(s: Seq<u32>)
    requires
        s.len() > 0,
    ensures
        forall|k: int| 0 <= k < s.len() ==> min_of(s) <= #[trigger] s[k] <= max_of(s),
        s.contains(min_of(s)),
        s.contains(max_of(s)),
    decreases s.len(),
{
    if s.len() > 1 {
        lemma_min_max_bounds(s.drop_last());
        assert forall|k: int| 0 <= k < s.len() implies min_of(s) <= #[trigger] s[k] <= max_of(s) by {
            if k < s.len() - 1 {
                assert(s[k] == s.drop_last()[k]);
            }
        }
        let m = min_of(s.drop_last());
        if !(s.last() < m) {
            let j = choose|j: int| 0 <= j < s.drop_last().len() && s.drop_last()[j] == m;
            assert(s[j] == m);
        }
        let x = max_of(s.drop_last());
        if !(s.last() > x) {
            let j = choose|j: int| 0 <= j < s.drop_last().len() && s.drop_last()[j] == x;
            assert(s[j] == x);
        }
    }
}

/// The minimum, maximum and their difference (zeros for an empty list).
pub fn min_max_spread_u32(values: &Vec<u32>) -> (r: (u32, u32, u32))
    ensures
        r == min_max_spread(values@),
{
    let n = values.len();
    if n == 0 {
        return (0, 0, 0);
    }
    let mut lo = values[0];
    let mut hi = values[0];
    let mut i: usize = 1;
    assert(values@.take(1).drop_last() =~= Seq::<u32>::empty());
    while i < n
        invariant
            n == values@.len(),
            1 <= i <= n,
            lo == min_of(values@.take(i as int)),
            hi == max_of(values@.take(i as int)),
        decreases n - i,
    {
        assert(values@.take(i + 1).drop_last() =~= values@.take(i as int));
        if values[i] < lo {
            lo = values[i];
        }
        if values[i] > hi {
            hi = values[i];
        }
        i = i + 1;
    }
    assert(values@.take(n as int) =~= values@);
    proof {
        lemma_min_max_bounds(values@);
    }
    (lo, hi, hi - lo)
}

/// Law: a mean lies between the smallest and the largest value, as long as
/// the sum does not saturate (fewer than 2^32 values).
pub proof fn lemma_mean_between_extremes(s: Seq<u32>)
    requires
        0 < s.len() <= u32::MAX,
    ensures
        min_of(s) <= mean_u32(s) <= max_of(s),
{
    lemma_min_max_bounds(s);
    lemma_sum_bounds(s, min_of(s), max_of(s));
    let n = s.len() as int;
    let t = sum_u32(s);
    assert(t <= n * (u32::MAX as int)) by (nonlinear_arith)
        requires t <= n * (max_of(s) as int), max_of(s) <= u32::MAX, n >= 0;
    assert(n * (u32::MAX as int) <= (u32::MAX as int) * (u32::MAX as int)) by (nonlinear_arith)
        requires n <= u32::MAX;
    assert(t <= u64::MAX);
    assert(min_of(s) <= t / n <= max_of(s)) by (nonlinear_arith)
        requires n * (min_of(s) as int) <= t <= n * (max_of(s) as int), n > 0;
}

proof fn lemma_sum_bounds(s: Seq<u32>, lo: u32, hi: u32)
    requires
        forall|k: int| 0 <= k < s.len() ==> lo <= #[trigger] s[k] <= hi,
    ensures
        s.len() * (lo as int) <= sum_u32(s) <= s.len() * (hi as int),
    decreases s.len(),
{
    if s.len() > 0 {
        assert forall|k: int| 0 <= k < s.drop_last().len() implies lo <= #[trigger] s.drop_last()[k] <= hi by {
            assert(s.drop_last()[k] == s[k]);
        }
        lemma_sum_bounds(s.drop_last(), lo, hi);
        assert(lo <= s.last() <= hi);
        let n = s.len() as int;
        assert((n - 1) * (lo as int) + lo == n * (lo as int)) by (nonlinear_arith);
        assert((n - 1) * (hi as int) + hi == n * (hi as int)) by (nonlinear_arith);
    }
}

/// Law: a count that does not exceed its total is at most a thousand permille.
pub proof fn lemma_permille_of_part_is_bounded(numerator: u32, denominator: u32)
    requires
        numerator <= denominator,
    ensures
        permille(numerator as int, denominator as int) <= 1000,
{
    if denominator > 0 {
        let p = clamp_u32(numerator * 1000);
        assert(p <= (denominator as int) * 1000);
        assert(p / (denominator as int) <= 1000) by (nonlinear_arith)
            requires p <= (denominator as int) * 1000, denominator > 0;
    }
}

/// Number of entries of `s` whose characters are `v`.
pub open spec fn label_count(s: Seq<String>, v: Seq<char>) -> nat
    decreases s.len(),
{
    if s.len() == 0 {
        0
    } else {
        label_count(s.drop_last(), v) + if s.last()@ == v { 1nat } else { 0nat }
    }
}

/// `(count(a), a)` is at least `(count(b), b)`, comparing counts first and the
/// labels second.
pub open spec fn ranks_at_least(ca: nat, a: Seq<char>, cb: nat, b: Seq<char>) -> bool {
    ca > cb || (ca == cb && !chars_lt(a, b))
}

/// The modal label: the most frequent value, ties going to the greatest
/// label; `None` for an empty list.
pub open spec fn is_mode(s: Seq<String>, r: Option<String>) -> bool {
    match r {
        None => s.len() == 0,
        Some(m) => {
            &&& exists|i: int| 0 <= i < s.len() && s[i] == m
            &&& forall|j: int|
                0 <= j < s.len() ==> ranks_at_least(
                    label_count(s, m@),
                    m@,
                    label_count(s, #[trigger] s[j]@),
                    s[j]@,
                )
        }
    }
}

/// Counts how many entries carry the label `v`.
pub fn count_label(values: &Vec<String>, v: &String) -> (r: u64)
    requires
        values@.len() <= u64::MAX,
    ensures
        r == label_count(values@, v@),
{
    let mut c: u64 = 0;
    let mut i: usize = 0;
    while i < values.len()
        invariant
            i <= values@.len(),
            values@.len() <= u64::MAX,
            c == label_count(values@.take(i as int), v@),
            c <= i,
        decreases values@.len() - i,
    {
        assert(values@.take(i + 1).drop_last() =~= values@.take(i as int));
        if values[i] == *v {
            c = c + 1;
        }
        i = i + 1;
    }
    assert(values@.take(values@.len() as int) =~= values@);
    c
}

/// The most frequent label, ties broken toward the greatest label.
pub fn mode(values: &Vec<String>) -> (r: Option<String>)
    requires
        values@.len() <= u64::MAX,
    ensures
        is_mode(values@, r),
{
    let n = values.len();
    if n == 0 {
        return None;
    }
    let mut best: usize = 0;
    let mut best_count = count_label(values, &values[0]);
    let mut i: usize = 1;
    proof {
        lemma_chars_lt_trichotomy(values@[0]@, values@[0]@);
    }
    while i < n
        invariant
            n == values@.len(),
            values@.len() <= u64::MAX,
            1 <= i <= n,
            best < n,
            best_count == label_count(values@, values@[best as int]@),
            forall|j: int|
                0 <= j < i ==> ranks_at_least(
                    label_count(values@, values@[best as int]@),
                    values@[best as int]@,
                    label_count(values@, #[trigger] values@[j]@),
                    values@[j]@,
                ),
        decreases n - i,
    {
        let c = count_label(values, &values[i]);
        let better = c > best_count || (c == best_count && crate::text::str_lt(
            values[best].as_str(),
            values[i].as_str(),
        ));
        proof {
            lemma_chars_lt_trichotomy(values@[best as int]@, values@[i as int]@);
        }
        if better {
            proof {
                assert forall|j: int| 0 <= j < i + 1 implies ranks_at_least(
                    label_count(values@, values@[i as int]@),
                    values@[i as int]@,
                    label_count(values@, #[trigger] values@[j]@),
                    values@[j]@,
                ) by {
                    lemma_chars_lt_trichotomy(values@[i as int]@, values@[j]@);
                    lemma_chars_lt_trichotomy(values@[best as int]@, values@[j]@);
                    if j < i {
                        if chars_lt(values@[i as int]@, values@[j]@) && label_count(values@, values@[i as int]@) == label_count(values@, values@[j]@) {
                            crate::text::lemma_chars_lt_transitive(values@[best as int]@, values@[i as int]@, values@[j]@);
                        }
                    }
                }
            }
            best = i;
            best_count = c;
        }
        i = i + 1;
    }
    Some(values[best].clone())
}


proof fn lemma_sum_ext(s: Seq<u32>)
    ensures
        s.len() > 0 ==> sum_u32(s) == sum_u32(s.drop_first()) + s[0],
    decreases s.len(),
{
    if s.len() > 1 {
        lemma_sum_ext(s.drop_last());
        assert(s.drop_last().drop_first() =~= s.drop_first().drop_last());
        assert(s.drop_first().last() == s.last());
        assert(s.drop_last()[0] == s[0]);
        assert(sum_u32(s.drop_first()) == sum_u32(s.drop_first().drop_last()) + s.drop_first().last());
        assert(sum_u32(s) == sum_u32(s.drop_last()) + s.last());
    } else if s.len() == 1 {
        assert(s.drop_first().len() == 0);
        assert(s.drop_last().len() == 0);
        assert(sum_u32(s.drop_first()) == 0);
        assert(sum_u32(s.drop_last()) == 0);
        assert(sum_u32(s) == sum_u32(s.drop_last()) + s.last());
        assert(s.last() == s[0]);
    }
}

/// Law: the sum adds up the values: the empty list sums to zero, and a
/// list sums to its first value plus the sum of the rest.
pub proof fn lemma_sum_adds_values(s: Seq<u32>)
    ensures
        s.len() == 0 ==> sum_u32(s) == 0,
        s.len() > 0 ==> sum_u32(s) == s[0] + sum_u32(s.drop_first()),
{
    lemma_sum_ext(s);
}

/// Law: for at most `u32::MAX` values, the mean is their average rounded
/// down: mean times count is at most the sum, and the sum is below (mean + 1)
/// times count; the mean of no values is zero.
pub proof fn lemma_mean_is_floor_average(s: Seq<u32>)
    requires
        s.len() <= u32::MAX,
    ensures
        s.len() == 0 ==> mean_u32(s) == 0,
        s.len() > 0 ==> mean_u32(s) * s.len() <= sum_u32(s) < (mean_u32(s) + 1) * s.len(),
{
    if s.len() > 0 {
        lemma_sum_bounds(s, 0, u32::MAX);
        lemma_sum_nonneg(s);
        let n = s.len() as int;
        let total = sum_u32(s);
        assert(total <= n * 0xffff_ffff);
        assert(n * 0xffff_ffff <= 0xffff_ffff * 0xffff_ffff) by (nonlinear_arith)
            requires n <= 0xffff_ffff;
        assert(clamp_u64(total) == total);
        assert(total / n <= 0xffff_ffff) by (nonlinear_arith)
            requires 0 <= total <= n * 0xffff_ffff, n > 0;
        assert((total / n) * n <= total < (total / n + 1) * n) by (nonlinear_arith)
            requires total >= 0, n > 0;
    }
}


/// Law: a share in parts per thousand is the share rounded down: when the
/// scaled numerator fits in a `u32`, the share times the denominator is at
/// most a thousand times the numerator, which is below the next share times
/// the denominator; a zero denominator gives zero.
pub proof fn lemma_permille_rounds_down(numerator: u32, denominator: u32)
    ensures
        denominator == 0 ==> permille(numerator as int, denominator as int) == 0,
        denominator > 0 && numerator * 1000 <= u32::MAX ==> {
            let p = permille(numerator as int, denominator as int);
            &&& p * denominator <= numerator * 1000
            &&& numerator * 1000 < (p + 1) * denominator
        },
{
    if denominator > 0 && numerator * 1000 <= u32::MAX {
        let x = numerator * 1000;
        let d = denominator as int;
        assert((x / d) * d <= x < (x / d + 1) * d) by (nonlinear_arith)
            requires x >= 0, d > 0;
    }
}

/// The present values are the values of the entries that hold one, in order.
pub proof fn lemma_present_values_filter(s: Seq<Option<u32>>)
    ensures
        present_values(s) == s.filter(|o: Option<u32>| o is Some).map_values(|o: Option<u32>| o->0),
    decreases s.len(),
{
    reveal_with_fuel(Seq::filter, 1);
    if s.len() > 0 {
        lemma_present_values_filter(s.drop_last());
        let f = s.drop_last().filter(|o: Option<u32>| o is Some);
        let g = |o: Option<u32>| o->0;
        if s.last() is Some {
            assert(f.push(s.last()).map_values(g) =~= f.map_values(g).push(g(s.last())));
        }
    }
}

/// A label's count is the number of entries whose characters are the label's.
pub proof fn lemma_label_count_filter(s: Seq<String>, v: Seq<char>)
    ensures
        label_count(s, v) == s.filter(|x: String| x@ == v).len(),
    decreases s.len(),
{
    reveal_with_fuel(Seq::filter, 1);
    if s.len() > 0 {
        lemma_label_count_filter(s.drop_last(), v);
    }
}

} // verus!

//! The latency histogram: a compressed, bounded-memory distribution of
//! successful-request latencies kept by an outside histogram, modelled here
//! as the multiset of its stored sample values, with a verified nearest-rank
//! percentile query over the listed contents.
use vstd::prelude::*;
use vstd::multiset::Multiset;

verus! {

/// The run's latency histogram: an outside compressed histogram held behind
/// an opaque wrapper, since its type cannot be declared to the verifier
/// directly.
#[verifier::external_body]
pub struct LatencyHistogram {
    inner: hdrhistogram::Histogram<u64>,
}

/// The multiset of sample values stored by the histogram. Samples are stored
/// quantized to the histogram's resolution, so a stored value may differ from
/// the recorded one within that resolution.
pub uninterp spec fn histogram_contents(h: LatencyHistogram) -> Multiset<u64>;

/// The number of significant decimal figures the histogram was created with,
/// which fixes its quantization resolution for good.
pub uninterp spec fn histogram_sigfigs(h: LatencyHistogram) -> u8;

/// Relies on hdrhistogram::Histogram::new: a fresh auto-resizing histogram
/// with nothing recorded, quantizing at the requested number of significant
/// figures; creation succeeds whenever that number is at most five.
#[verifier::external_body]
pub(crate) fn new_histogram(sigfigs: u8) -> (r: Option<LatencyHistogram>)
    ensures
        sigfigs <= 5 ==> r is Some,
        r matches Some(h) ==> histogram_contents(h) == Multiset::<u64>::empty()
            && histogram_sigfigs(h) == sigfigs,
{
    match hdrhistogram::Histogram::new(sigfigs) {
        Ok(inner) => Some(LatencyHistogram { inner }),
        Err(_) => None,
    }
}

/// Recording stored one sample: the contents after differ from the contents
/// before by one inserted value no smaller than the recorded one and, at
/// three or more significant figures, larger by at most one part in a
/// thousand.
pub open spec fn records_within_resolution(
    pre: LatencyHistogram,
    post: LatencyHistogram,
    value: u64,
) -> bool {
    exists|q: u64|
        histogram_contents(post) == histogram_contents(pre).insert(q) && value <= q && (
        histogram_sigfigs(pre) >= 3 ==> q <= value + value / 1000 + 1)
}

/// Relies on hdrhistogram::Histogram::record on the auto-resizing histograms
/// this module creates: exactly one sample is stored, at the highest value
/// the histogram treats as equivalent to the recorded one — no smaller than
/// it, and, at three or more significant figures, larger by at most one part
/// in a thousand. The call's one failure path, growing the internal counts
/// array beyond what `usize` can index, is unreachable here: the array length
/// is a `u32` bin count; and with fewer samples than the requires admits no
/// count can saturate. The resolution never changes.
#[verifier::external_body]
pub(crate) fn histogram_record(h: &mut LatencyHistogram, value: u64)
    requires
        histogram_contents(*old(h)).len() < u64::MAX,
    ensures
        histogram_sigfigs(*final(h)) == histogram_sigfigs(*old(h)),
        records_within_resolution(*old(h), *final(h), value),
{
    let _ = h.inner.record(value);
}

/// Relies on hdrhistogram::Histogram::iter_recorded: it yields each distinct
/// stored value in ascending order together with its positive count, listing
/// the histogram's contents exactly.
#[verifier::external_body]
pub(crate) fn histogram_entries(h: &LatencyHistogram) -> (entries: Vec<(u64, u64)>)
    requires
        histogram_contents(*h).len() <= u64::MAX,
    ensures
        entries_wf(entries@),
        pairs_multiset(entries@) == histogram_contents(*h),
{
    let mut out: Vec<(u64, u64)> = Vec::new();
    for v in h.inner.iter_recorded() {
        out.push((v.value_iterated_to(), v.count_at_value()));
    }
    out
}

/// A well-formed entry list: distinct values in strictly ascending order,
/// each with a positive count. This is the canonical listing of a sample
/// multiset, and it is unique (`lemma_entries_unique`).
pub open spec fn entries_wf(entries: Seq<(u64, u64)>) -> bool {
    &&& forall|i: int| 0 <= i < entries.len() ==> (#[trigger] entries[i]).1 > 0
    &&& forall|i: int, j: int|
        0 <= i < j < entries.len() ==> (#[trigger] entries[i]).0 < (#[trigger] entries[j]).0
}

/// The multiset holding `n` copies of `v`.
pub open spec fn repeat_value(v: u64, n: nat) -> Multiset<u64>
    decreases n,
{
    if n == 0 {
        Multiset::empty()
    } else {
        repeat_value(v, (n - 1) as nat).insert(v)
    }
}

/// The multiset listed by an entry list: each value repeated its count times.
pub open spec fn pairs_multiset(entries: Seq<(u64, u64)>) -> Multiset<u64>
    decreases entries.len(),
{
    if entries.len() == 0 {
        Multiset::empty()
    } else {
        repeat_value(entries[0].0, entries[0].1 as nat).add(pairs_multiset(entries.drop_first()))
    }
}

/// The number of samples listed by an entry list: the sum of its counts.
pub open spec fn pairs_total(entries: Seq<(u64, u64)>) -> int
    decreases entries.len(),
{
    if entries.len() == 0 {
        0
    } else {
        entries[0].1 + pairs_total(entries.drop_first())
    }
}

/// The nearest-rank position for a percentile over `total` samples: the
/// smallest rank whose share of the samples reaches the percentile, and at
/// least one.
pub open spec fn percentile_rank(total: int, percentile: int) -> int {
    let r = (percentile * total + 99) / 100;
    if r < 1 {
        1
    } else {
        r
    }
}

/// The value holding the sample of the given rank (counting from one) in an
/// entry list; zero past the end.
pub open spec fn value_at_rank(entries: Seq<(u64, u64)>, rank: int) -> u64
    decreases entries.len(),
{
    if entries.len() == 0 {
        0
    } else if rank <= entries[0].1 {
        entries[0].0
    } else {
        value_at_rank(entries.drop_first(), rank - entries[0].1)
    }
}

/// The pinned percentile semantics of this library: the nearest-rank value of
/// the listed samples, and zero when nothing was recorded.
pub open spec fn percentile_value_spec(entries: Seq<(u64, u64)>, percentile: int) -> u64 {
    if pairs_total(entries) == 0 {
        0
    } else {
        value_at_rank(entries, percentile_rank(pairs_total(entries), percentile))
    }
}

/// Count and size of a multiset of `n` copies of `v`.
proof fn lemma_repeat_value(v: u64, n: nat, x: u64)
    ensures
        repeat_value(v, n).count(x) == if x == v {
            n
        } else {
            0nat
        },
        repeat_value(v, n).len() == n,
    decreases n,
{
    broadcast use vstd::multiset::group_multiset_axioms;
    broadcast use vstd::multiset::group_multiset_properties;

    if n > 0 {
        lemma_repeat_value(v, (n - 1) as nat, x);
    }
}

/// Dropping the head of a well-formed entry list leaves it well formed.
proof fn lemma_wf_drop_first(entries: Seq<(u64, u64)>)
    requires
        entries_wf(entries),
        entries.len() > 0,
    ensures
        entries_wf(entries.drop_first()),
{
    let rest = entries.drop_first();
    assert forall|i: int| 0 <= i < rest.len() implies (#[trigger] rest[i]).1 > 0 by {
        assert(rest[i] == entries[i + 1]);
    }
    assert forall|i: int, j: int|
        0 <= i < j < rest.len() implies (#[trigger] rest[i]).0 < (#[trigger] rest[j]).0 by {
        assert(rest[i] == entries[i + 1]);
        assert(rest[j] == entries[j + 1]);
    }
}

/// A value below every listed value is not contained at all.
proof fn lemma_pm_count_below(entries: Seq<(u64, u64)>, x: u64)
    requires
        entries_wf(entries),
        forall|i: int| 0 <= i < entries.len() ==> x < (#[trigger] entries[i]).0,
    ensures
        pairs_multiset(entries).count(x) == 0,
    decreases entries.len(),
{
    broadcast use vstd::multiset::group_multiset_axioms;

    if entries.len() > 0 {
        lemma_repeat_value(entries[0].0, entries[0].1 as nat, x);
        lemma_wf_drop_first(entries);
        let rest = entries.drop_first();
        assert forall|i: int| 0 <= i < rest.len() implies x < (#[trigger] rest[i]).0 by {
            assert(rest[i] == entries[i + 1]);
        }
        lemma_pm_count_below(rest, x);
    }
}

/// The head value's multiplicity is exactly the head's count.
proof fn lemma_pm_head(entries: Seq<(u64, u64)>)
    requires
        entries_wf(entries),
        entries.len() > 0,
    ensures
        pairs_multiset(entries).count(entries[0].0) == entries[0].1,
    decreases entries.len(),
{
    broadcast use vstd::multiset::group_multiset_axioms;

    let head = entries[0];
    lemma_repeat_value(head.0, head.1 as nat, head.0);
    lemma_wf_drop_first(entries);
    let rest = entries.drop_first();
    assert forall|i: int| 0 <= i < rest.len() implies head.0 < (#[trigger] rest[i]).0 by {
        assert(rest[i] == entries[i + 1]);
    }
    lemma_pm_count_below(rest, head.0);
}

/// An entry list lists as many samples as its counts sum to.
pub proof fn lemma_pairs_multiset_len(entries: Seq<(u64, u64)>)
    ensures
        pairs_multiset(entries).len() == pairs_total(entries),
    decreases entries.len(),
{
    broadcast use vstd::multiset::group_multiset_axioms;

    if entries.len() > 0 {
        lemma_repeat_value(entries[0].0, entries[0].1 as nat, entries[0].0);
        lemma_pairs_multiset_len(entries.drop_first());
    }
}

/// The canonical listing of a sample multiset is unique: two well-formed
/// entry lists that list the same samples are the same list.
pub proof fn lemma_entries_unique(a: Seq<(u64, u64)>, b: Seq<(u64, u64)>)
    requires
        entries_wf(a),
        entries_wf(b),
        pairs_multiset(a) == pairs_multiset(b),
    ensures
        a == b,
    decreases a.len(),
{
    broadcast use vstd::multiset::group_multiset_axioms;

    if a.len() == 0 && b.len() == 0 {
        assert(a =~= b);
    } else if a.len() == 0 {
        lemma_pm_head(b);
        assert(pairs_multiset(a).count(b[0].0) == 0);
    } else if b.len() == 0 {
        lemma_pm_head(a);
        assert(pairs_multiset(b).count(a[0].0) == 0);
    } else {
        let va = a[0].0;
        let vb = b[0].0;
        lemma_pm_head(a);
        lemma_pm_head(b);
        if va < vb {
            assert forall|i: int| 0 <= i < b.len() implies va < (#[trigger] b[i]).0 by {
                if i > 0 {
                    assert(b[0].0 < b[i].0);
                }
            }
            lemma_pm_count_below(b, va);
        }
        if vb < va {
            assert forall|i: int| 0 <= i < a.len() implies vb < (#[trigger] a[i]).0 by {
                if i > 0 {
                    assert(a[0].0 < a[i].0);
                }
            }
            lemma_pm_count_below(a, vb);
        }
        assert(va == vb);
        assert(a[0].1 == b[0].1);
        assert forall|x: u64|
            pairs_multiset(a.drop_first()).count(x) == pairs_multiset(
                b.drop_first(),
            ).count(x) by {
            lemma_repeat_value(va, a[0].1 as nat, x);
            lemma_repeat_value(vb, b[0].1 as nat, x);
            assert(pairs_multiset(a).count(x) == repeat_value(va, a[0].1 as nat).count(x)
                + pairs_multiset(a.drop_first()).count(x));
            assert(pairs_multiset(b).count(x) == repeat_value(vb, b[0].1 as nat).count(x)
                + pairs_multiset(b.drop_first()).count(x));
        }
        assert(pairs_multiset(a.drop_first()) =~= pairs_multiset(b.drop_first()));
        lemma_wf_drop_first(a);
        lemma_wf_drop_first(b);
        lemma_entries_unique(a.drop_first(), b.drop_first());
        assert(a[0] == b[0]);
        assert forall|i: int| 0 <= i < a.len() implies a[i] == b[i] by {
            if i > 0 {
                assert(a.drop_first()[i - 1] == a[i]);
                assert(b.drop_first()[i - 1] == b[i]);
            }
        }
        assert(a =~= b);
    }
}

/// The canonical listing of a sample multiset: the one well-formed entry list
/// carrying exactly those samples.
pub open spec fn canonical_entries(samples: Multiset<u64>) -> Seq<(u64, u64)> {
    choose|entries: Seq<(u64, u64)>|
        entries_wf(entries) && pairs_multiset(entries) == samples
}

/// The nearest-rank percentile of a sample multiset, through its canonical
/// listing.
pub open spec fn percentile_of(samples: Multiset<u64>, percentile: int) -> u64 {
    percentile_value_spec(canonical_entries(samples), percentile)
}

/// A well-formed entry list is the canonical listing of the samples it lists.
pub proof fn lemma_canonical_of_wf(entries: Seq<(u64, u64)>)
    requires
        entries_wf(entries),
    ensures
        canonical_entries(pairs_multiset(entries)) == entries,
{
    let samples = pairs_multiset(entries);
    assert(entries_wf(entries) && pairs_multiset(entries) == samples);
    let picked = canonical_entries(samples);
    assert(entries_wf(picked) && pairs_multiset(picked) == samples);
    lemma_entries_unique(picked, entries);
}

/// Every count is non-negative, so the sum of any suffix is too.
proof fn lemma_pairs_total_nonneg(entries: Seq<(u64, u64)>)
    ensures
        pairs_total(entries) >= 0,
    decreases entries.len(),
{
    if entries.len() > 0 {
        lemma_pairs_total_nonneg(entries.drop_first());
    }
}

/// Extending a prefix by one entry adds exactly that entry's count.
proof fn lemma_pairs_total_take_step(entries: Seq<(u64, u64)>, i: int)
    requires
        0 <= i < entries.len(),
    ensures
        pairs_total(entries.take(i + 1)) == pairs_total(entries.take(i)) + entries[i].1,
    decreases i,
{
    if i == 0 {
        assert(entries.take(1).drop_first() =~= Seq::<(u64, u64)>::empty());
        assert(entries.take(0) =~= Seq::<(u64, u64)>::empty());
    } else {
        assert(entries.take(i + 1).drop_first() =~= entries.drop_first().take(i));
        assert(entries.take(i).drop_first() =~= entries.drop_first().take(i - 1));
        lemma_pairs_total_take_step(entries.drop_first(), i - 1);
    }
}

/// A prefix never lists more samples than the whole.
proof fn lemma_pairs_total_take_le(entries: Seq<(u64, u64)>, i: int)
    requires
        0 <= i <= entries.len(),
    ensures
        pairs_total(entries.take(i)) <= pairs_total(entries),
    decreases entries.len(),
{
    if i == 0 {
        assert(entries.take(0) =~= Seq::<(u64, u64)>::empty());
        lemma_pairs_total_nonneg(entries);
    } else {
        assert(entries.take(i).drop_first() =~= entries.drop_first().take(i - 1));
        lemma_pairs_total_take_le(entries.drop_first(), i - 1);
    }
}

/// The rank that falls inside position `i`'s count range is held by entry
/// `i`'s value.
proof fn lemma_value_at_rank_locate(entries: Seq<(u64, u64)>, rank: int, i: int)
    requires
        0 <= i < entries.len(),
        pairs_total(entries.take(i)) < rank,
        rank <= pairs_total(entries.take(i + 1)),
    ensures
        value_at_rank(entries, rank) == entries[i].0,
    decreases i,
{
    if i == 0 {
        assert(entries.take(0) =~= Seq::<(u64, u64)>::empty());
        assert(entries.take(1).drop_first() =~= Seq::<(u64, u64)>::empty());
    } else {
        assert(entries.take(i).drop_first() =~= entries.drop_first().take(i - 1));
        assert(entries.take(i + 1).drop_first() =~= entries.drop_first().take(i));
        lemma_pairs_total_nonneg(entries.drop_first().take(i - 1));
        lemma_value_at_rank_locate(entries.drop_first(), rank - entries[0].1, i - 1);
    }
}

/// The nearest-rank value of the listed samples: the smallest listed value
/// whose cumulative count reaches the percentile's rank; zero when the list
/// is empty.
pub fn value_at_percentile(entries: &Vec<(u64, u64)>, percentile: u64) -> (v: u64)
    requires
        entries_wf(entries@),
        percentile <= 100,
        pairs_total(entries@) <= u32::MAX,
    ensures
        v == percentile_value_spec(entries@, percentile as int),
{
    let ghost whole = entries@;
    let n = entries.len();

    let mut total: u64 = 0;
    let mut i: usize = 0;
    while i < n
        invariant
            0 <= i <= n,
            n == whole.len(),
            entries@ == whole,
            pairs_total(whole) <= u32::MAX,
            total == pairs_total(whole.take(i as int)),
        decreases n - i,
    {
        proof {
            lemma_pairs_total_take_step(whole, i as int);
            lemma_pairs_total_take_le(whole, i as int + 1);
            lemma_pairs_total_nonneg(whole.take(i as int));
        }
        total = total + entries[i].1;
        i = i + 1;
    }
    proof {
        assert(whole.take(n as int) =~= whole);
    }

    if total == 0 {
        return 0;
    }

    proof {
        assert(percentile as int * total as int + 99 < 0x10000000000000000int)
            by (nonlinear_arith)
            requires percentile <= 100, total <= 0xFFFF_FFFFu64;
    }
    let mut target: u64 = (percentile * total + 99) / 100;
    if target < 1 {
        target = 1;
    }
    proof {
        assert(target == percentile_rank(pairs_total(whole), percentile as int));
        assert(percentile as int * pairs_total(whole) + 99 <= 100 * pairs_total(whole) + 99)
            by (nonlinear_arith)
            requires percentile <= 100, pairs_total(whole) >= 0;
        assert((100 * pairs_total(whole) + 99) / 100 == pairs_total(whole) + 99int / 100) by {
            vstd::arithmetic::div_mod::lemma_div_multiples_vanish_fancy(
                pairs_total(whole),
                99,
                100,
            );
        }
        assert(target <= pairs_total(whole)) by {
            vstd::arithmetic::div_mod::lemma_div_is_ordered(
                percentile as int * pairs_total(whole) + 99,
                100 * pairs_total(whole) + 99,
                100,
            );
        }
    }

    let mut cum: u64 = 0;
    let mut j: usize = 0;
    while j < n
        invariant
            0 <= j <= n,
            n == whole.len(),
            entries@ == whole,
            pairs_total(whole) <= u32::MAX,
            1 <= target <= pairs_total(whole),
            target == percentile_rank(pairs_total(whole), percentile as int),
            pairs_total(whole) > 0,
            cum == pairs_total(whole.take(j as int)),
            cum < target,
        decreases n - j,
    {
        proof {
            lemma_pairs_total_take_step(whole, j as int);
            lemma_pairs_total_take_le(whole, j as int + 1);
            lemma_pairs_total_nonneg(whole.take(j as int));
        }
        let entry = entries[j];
        cum = cum + entry.1;
        if cum >= target {
            proof {
                lemma_value_at_rank_locate(whole, target as int, j as int);
            }
            return entry.0;
        }
        j = j + 1;
    }
    proof {
        assert(whole.take(n as int) =~= whole);
        assert(false);
    }
    0
}

} // verus!

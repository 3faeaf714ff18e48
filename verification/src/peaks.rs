//! Beat peak detection: the loudest sample of each chunk of a filtered
//! signal, and the loudest half of those peaks in time order.
use vstd::prelude::*;

verus! {

/// A detected peak: its sample position and its amplitude.
pub type Peak = (usize, i16);

/// Whether `k` is the position, within the chunk `[start, start + len)`, of
/// the chunk's loudest sample; when the loudest amplitude occurs more than
/// once, the last occurrence.
pub open spec fn is_chunk_peak(samples: Seq<i16>, start: int, len: int, k: int) -> bool {
    &&& 0 <= k < len
    &&& forall|j: int| 0 <= j < len ==> #[trigger] samples[start + j] <= samples[start + k]
    &&& forall|j: int| k < j < len ==> #[trigger] samples[start + j] < samples[start + k]
}

/// Whether `peaks` holds one peak per whole chunk of `part_size` samples,
/// in chunk order: the position of the chunk's loudest sample and its
/// amplitude. A trailing partial chunk has no peak.
pub open spec fn chunk_peaks(samples: Seq<i16>, part_size: int, peaks: Seq<Peak>) -> bool {
    &&& peaks.len() == samples.len() as int / part_size
    &&& forall|p: int| 0 <= p < peaks.len() ==> {
        &&& #[trigger] peaks[p].0 as int >= p * part_size
        &&& is_chunk_peak(samples, p * part_size, part_size, peaks[p].0 - p * part_size)
        &&& peaks[p].1 == samples[peaks[p].0 as int]
    }
}

/// Whether peak `j` comes before peak `i` when the peaks are ordered by
/// amplitude, loudest first, earlier first among equal amplitudes.
pub open spec fn ranked_before(peaks: Seq<Peak>, j: int, i: int) -> bool {
    peaks[j].1 > peaks[i].1 || (peaks[j].1 == peaks[i].1 && j < i)
}

/// The number of peaks ranked before peak `i` when ranking by amplitude,
/// loudest first, earlier first among equal amplitudes; counted over the
/// peaks `0..upto`.
pub open spec fn rank_upto(peaks: Seq<Peak>, i: int, upto: int) -> nat
    decreases upto,
{
    if upto <= 0 {
        0
    } else {
        let j = upto - 1;
        rank_upto(peaks, i, j) + if ranked_before(peaks, j, i) {
            1nat
        } else {
            0nat
        }
    }
}

/// The place of peak `i` when the peaks are ordered by amplitude, loudest
/// first, keeping time order among equal amplitudes.
pub open spec fn rank(peaks: Seq<Peak>, i: int) -> nat {
    rank_upto(peaks, i, peaks.len() as int)
}

/// The peaks from index `from` on that rank among the `keep` loudest, in
/// time order.
pub open spec fn loudest_from(peaks: Seq<Peak>, keep: nat, from: int) -> Seq<Peak>
    decreases peaks.len() - from,
{
    if from >= peaks.len() || from < 0 {
        Seq::empty()
    } else if rank(peaks, from) < keep {
        seq![peaks[from]].add(loudest_from(peaks, keep, from + 1))
    } else {
        loudest_from(peaks, keep, from + 1)
    }
}

/// The loudest half (rounded down) of the peaks, in time order.
pub open spec fn loudest_half(peaks: Seq<Peak>) -> Seq<Peak> {
    loudest_from(peaks, peaks.len() / 2, 0)
}

/// A chunk has one peak position.
pub proof fn lemma_chunk_peak_unique(samples: Seq<i16>, start: int, len: int, k1: int, k2: int)
    requires
        is_chunk_peak(samples, start, len, k1),
        is_chunk_peak(samples, start, len, k2),
    ensures
        k1 == k2,
{
    if k1 < k2 {
        assert(samples[start + k2] < samples[start + k1]);
        assert(samples[start + k1] <= samples[start + k2]);
    } else if k2 < k1 {
        assert(samples[start + k1] < samples[start + k2]);
        assert(samples[start + k2] <= samples[start + k1]);
    }
}

/// The chunk peaks of a signal are determined by it.
pub proof fn lemma_chunk_peaks_unique(samples: Seq<i16>, part_size: int, a: Seq<Peak>, b: Seq<Peak>)
    requires
        part_size > 0,
        chunk_peaks(samples, part_size, a),
        chunk_peaks(samples, part_size, b),
    ensures
        a == b,
{
    assert forall|p: int| 0 <= p < a.len() implies a[p] == b[p] by {
        lemma_chunk_peak_unique(samples, p * part_size, part_size, a[p].0 - p * part_size, b[p].0 - p * part_size);
    }
    assert(a =~= b);
}

proof fn lemma_rank_upto_bound(peaks: Seq<Peak>, i: int, upto: int)
    requires
        0 <= i < peaks.len(),
        0 <= upto <= peaks.len(),
    ensures
        rank_upto(peaks, i, upto) <= upto,
        upto > i ==> rank_upto(peaks, i, upto) < upto,
    decreases upto,
{
    if upto > 0 {
        lemma_rank_upto_bound(peaks, i, upto - 1);
    }
}

proof fn lemma_rank_upto_order(peaks: Seq<Peak>, i: int, j: int, upto: int)
    requires
        0 <= i < peaks.len(),
        0 <= j < peaks.len(),
        ranked_before(peaks, i, j),
        0 <= upto <= peaks.len(),
    ensures
        rank_upto(peaks, i, upto) <= rank_upto(peaks, j, upto),
        upto > i ==> rank_upto(peaks, i, upto) < rank_upto(peaks, j, upto),
    decreases upto,
{
    if upto > 0 {
        lemma_rank_upto_order(peaks, i, j, upto - 1);
    }
}

/// Two different peaks never share a place in the amplitude order, and
/// every place is below the number of peaks.
pub proof fn lemma_rank_injective(peaks: Seq<Peak>, i: int, j: int)
    requires
        0 <= i < peaks.len(),
        0 <= j < peaks.len(),
        i != j,
    ensures
        rank(peaks, i) != rank(peaks, j),
        rank(peaks, i) < peaks.len(),
{
    lemma_rank_upto_bound(peaks, i, peaks.len() as int);
    if ranked_before(peaks, i, j) {
        lemma_rank_upto_order(peaks, i, j, peaks.len() as int);
    } else {
        lemma_rank_upto_order(peaks, j, i, peaks.len() as int);
    }
}

/// The positions `from..` of the peaks that rank among the `keep` loudest.
pub open spec fn kept_from(peaks: Seq<Peak>, keep: nat, from: int) -> Set<int> {
    Set::new(|i: int| from <= i < peaks.len() && rank(peaks, i) < keep)
}

proof fn lemma_loudest_from_len(peaks: Seq<Peak>, keep: nat, from: int)
    requires
        0 <= from <= peaks.len(),
    ensures
        kept_from(peaks, keep, from).finite(),
        loudest_from(peaks, keep, from).len() == kept_from(peaks, keep, from).len(),
    decreases peaks.len() - from,
{
    if from == peaks.len() {
        assert(kept_from(peaks, keep, from) =~= Set::<int>::empty());
    } else {
        lemma_loudest_from_len(peaks, keep, from + 1);
        if rank(peaks, from) < keep {
            assert(kept_from(peaks, keep, from) =~= kept_from(peaks, keep, from + 1).insert(from));
        } else {
            assert(kept_from(peaks, keep, from) =~= kept_from(peaks, keep, from + 1));
        }
    }
}

proof fn lemma_kept_count(peaks: Seq<Peak>, keep: nat)
    requires
        keep <= peaks.len(),
    ensures
        kept_from(peaks, keep, 0).finite(),
        kept_from(peaks, keep, 0).len() == keep,
{
    let n = peaks.len() as int;
    let idx = vstd::set_lib::set_int_range(0, n);
    let f = |i: int| rank(peaks, i) as int;
    vstd::set_lib::lemma_int_range(0, n);
    vstd::set_lib::lemma_int_range(0, keep as int);
    assert(vstd::relations::injective_on(f, idx)) by {
        assert forall|a: int, b: int| idx.contains(a) && idx.contains(b) && #[trigger] f(a) == #[trigger] f(b)
            implies a == b by {
            if a != b {
                lemma_rank_injective(peaks, a, b);
            }
        }
    }
    vstd::set_lib::lemma_map_size(idx, idx.map(f), f);
    assert(idx.map(f).subset_of(idx)) by {
        assert forall|r: int| idx.map(f).contains(r) implies idx.contains(r) by {
            let i = choose|i: int| idx.contains(i) && f(i) == r;
            if n > 1 {
                lemma_rank_injective(peaks, i, if i == 0 { 1 } else { 0 });
            } else {
                lemma_rank_upto_bound(peaks, i, n);
            }
        }
    }
    vstd::set_lib::lemma_subset_equality(idx.map(f), idx);
    let kept = kept_from(peaks, keep, 0);
    assert(kept.subset_of(idx));
    vstd::set_lib::lemma_set_subset_finite(idx, kept);
    assert(kept.map(f) =~= vstd::set_lib::set_int_range(0, keep as int)) by {
        assert forall|r: int| vstd::set_lib::set_int_range(0, keep as int).contains(r) implies kept.map(f).contains(r) by {
            assert(idx.contains(r));
            assert(idx.map(f).contains(r));
            let i = choose|i: int| idx.contains(i) && f(i) == r;
            assert(kept.contains(i));
        }
    }
    assert(vstd::relations::injective_on(f, kept));
    vstd::set_lib::lemma_map_size(kept, kept.map(f), f);
}

/// Of `n` peaks, the loudest half holds `n / 2`.
pub proof fn lemma_loudest_half_len(peaks: Seq<Peak>)
    ensures
        loudest_half(peaks).len() == peaks.len() / 2,
{
    lemma_loudest_from_len(peaks, peaks.len() / 2, 0);
    lemma_kept_count(peaks, peaks.len() / 2);
}

proof fn lemma_loudest_from_picks(peaks: Seq<Peak>, keep: nat, from: int)
    requires
        0 <= from <= peaks.len(),
        forall|p: int, q: int| 0 <= p < q < peaks.len() ==> peaks[p].0 < peaks[q].0,
    ensures
        forall|a: int| 0 <= a < loudest_from(peaks, keep, from).len() ==> exists|i: int|
            from <= i < peaks.len() && #[trigger] loudest_from(peaks, keep, from)[a] == peaks[i],
        forall|a: int, b: int| 0 <= a < b < loudest_from(peaks, keep, from).len() ==>
            (#[trigger] loudest_from(peaks, keep, from)[a]).0 < (#[trigger] loudest_from(peaks, keep, from)[b]).0,
    decreases peaks.len() - from,
{
    if from < peaks.len() {
        lemma_loudest_from_picks(peaks, keep, from + 1);
        lemma_loudest_from_step(peaks, keep, from);
        let rest = loudest_from(peaks, keep, from + 1);
        let all = loudest_from(peaks, keep, from);
        if rank(peaks, from) < keep {
            assert(all =~= seq![peaks[from]] + rest);
            assert forall|a: int| 0 <= a < all.len() implies exists|i: int| from <= i < peaks.len() && #[trigger] all[a] == peaks[i] by {
                if a == 0 {
                    assert(all[0] == peaks[from]);
                } else {
                    assert(all[a] == rest[a - 1]);
                }
            }
            assert forall|a: int, b: int| 0 <= a < b < all.len() implies (#[trigger] all[a]).0 < (#[trigger] all[b]).0 by {
                assert(all[b] == rest[b - 1]);
                let j = choose|j: int| from + 1 <= j < peaks.len() && rest[b - 1] == peaks[j];
                if a == 0 {
                    assert(all[0] == peaks[from]);
                } else {
                    assert(all[a] == rest[a - 1]);
                }
            }
        } else {
            assert(all =~= rest);
        }
    }
}

/// Peaks given in strictly increasing position keep that order in the
/// loudest half.
pub proof fn lemma_loudest_half_in_time_order(peaks: Seq<Peak>)
    requires
        forall|p: int, q: int| 0 <= p < q < peaks.len() ==> peaks[p].0 < peaks[q].0,
    ensures
        forall|a: int, b: int| 0 <= a < b < loudest_half(peaks).len() ==>
            (#[trigger] loudest_half(peaks)[a]).0 < (#[trigger] loudest_half(peaks)[b]).0,
{
    lemma_loudest_from_picks(peaks, peaks.len() / 2, 0);
}

/// The peak of each whole chunk of `part_size` samples.
pub fn chunk_maxima(samples: &Vec<i16>, part_size: usize) -> (peaks: Vec<Peak>)
    requires
        part_size > 0,
    ensures
        chunk_peaks(samples@, part_size as int, peaks@),
{
    let parts = samples.len() / part_size;
    let mut peaks: Vec<Peak> = Vec::new();
    let mut part: usize = 0;
    while part < parts
        invariant
            parts == samples.len() / part_size,
            part_size > 0,
            part <= parts,
            peaks.len() == part,
            forall|p: int| 0 <= p < peaks.len() ==> {
                &&& #[trigger] peaks@[p].0 as int >= p * part_size
                &&& is_chunk_peak(samples@, p * part_size, part_size as int, peaks@[p].0 - p * part_size)
                &&& peaks@[p].1 == samples@[peaks@[p].0 as int]
            },
        decreases parts - part,
    {
        proof {
            vstd::arithmetic::div_mod::lemma_fundamental_div_mod(samples.len() as int, part_size as int);
            vstd::arithmetic::mul::lemma_mul_inequality(part as int + 1, parts as int, part_size as int);
            vstd::arithmetic::mul::lemma_mul_is_distributive_add_other_way(part_size as int, part as int, 1);
        }
        let start = part * part_size;
        let mut best: usize = 0;
        let mut k: usize = 1;
        while k < part_size
            invariant
                start == part * part_size,
                start + part_size <= samples.len(),
                0 <= best < k <= part_size,
                forall|j: int| 0 <= j < k ==> #[trigger] samples@[start + j] <= samples@[start + best],
                forall|j: int| best < j < k ==> #[trigger] samples@[start + j] < samples@[start + best],
            decreases part_size - k,
        {
            if !(samples[start + best] > samples[start + k]) {
                best = k;
            }
            k = k + 1;
        }
        peaks.push((start + best, samples[start + best]));
        part = part + 1;
    }
    peaks
}

/// The place of peak `i` among all peaks (see `rank`).
fn peak_rank(peaks: &Vec<Peak>, i: usize) -> (r: usize)
    requires
        i < peaks.len(),
    ensures
        r == rank(peaks@, i as int),
{
    let mut r: usize = 0;
    let mut j: usize = 0;
    while j < peaks.len()
        invariant
            i < peaks.len(),
            j <= peaks.len(),
            r == rank_upto(peaks@, i as int, j as int),
            r <= j,
        decreases peaks.len() - j,
    {
        if peaks[j].1 > peaks[i].1 || (peaks[j].1 == peaks[i].1 && j < i) {
            r = r + 1;
        }
        j = j + 1;
    }
    r
}

proof fn lemma_loudest_from_step(peaks: Seq<Peak>, keep: nat, from: int)
    requires
        0 <= from < peaks.len(),
    ensures
        loudest_from(peaks, keep, from) == (if rank(peaks, from) < keep {
            seq![peaks[from]]
        } else {
            Seq::<Peak>::empty()
        }) + loudest_from(peaks, keep, from + 1),
{
    if rank(peaks, from) >= keep {
        assert(Seq::<Peak>::empty() + loudest_from(peaks, keep, from + 1) =~= loudest_from(peaks, keep, from + 1));
    }
}

proof fn lemma_loudest_from_members(peaks: Seq<Peak>, keep: nat, from: int)
    requires
        0 <= from <= peaks.len(),
    ensures
        forall|a: int| 0 <= a < loudest_from(peaks, keep, from).len() ==> exists|i: int|
            from <= i < peaks.len() && rank(peaks, i) < keep && #[trigger] loudest_from(peaks, keep, from)[a]
                == peaks[i],
        forall|i: int| from <= i < peaks.len() && rank(peaks, i) < keep ==> loudest_from(peaks, keep, from).contains(
            #[trigger] peaks[i],
        ),
    decreases peaks.len() - from,
{
    if from < peaks.len() {
        lemma_loudest_from_members(peaks, keep, from + 1);
        lemma_loudest_from_step(peaks, keep, from);
        let rest = loudest_from(peaks, keep, from + 1);
        let all = loudest_from(peaks, keep, from);
        if rank(peaks, from) < keep {
            assert(all =~= seq![peaks[from]] + rest);
            assert forall|a: int| 0 <= a < all.len() implies exists|i: int|
                from <= i < peaks.len() && rank(peaks, i) < keep && #[trigger] all[a] == peaks[i] by {
                if a == 0 {
                    assert(all[0] == peaks[from]);
                } else {
                    assert(all[a] == rest[a - 1]);
                }
            }
            assert forall|i: int| from <= i < peaks.len() && rank(peaks, i) < keep implies all.contains(
                #[trigger] peaks[i],
            ) by {
                if i == from {
                    assert(all[0] == peaks[from]);
                } else {
                    let a = choose|a: int| 0 <= a < rest.len() && rest[a] == peaks[i];
                    assert(all[a + 1] == rest[a]);
                }
            }
        } else {
            assert(all =~= rest);
        }
    }
}

/// The loudest half holds the loudest peaks: every peak it leaves out is at
/// most as loud as every peak it keeps.
pub proof fn lemma_loudest_half_is_loudest(peaks: Seq<Peak>)
    ensures
        forall|a: int, j: int|
            0 <= a < loudest_half(peaks).len() && 0 <= j < peaks.len() && !loudest_half(peaks).contains(
                #[trigger] peaks[j],
            ) ==> peaks[j].1 <= (#[trigger] loudest_half(peaks)[a]).1,
{
    let keep = peaks.len() / 2;
    let kept = loudest_half(peaks);
    lemma_loudest_from_members(peaks, keep, 0);
    assert forall|a: int, j: int|
        0 <= a < kept.len() && 0 <= j < peaks.len() && !kept.contains(#[trigger] peaks[j]) implies peaks[j].1 <= (
        #[trigger] kept[a]).1 by {
        let i = choose|i: int| 0 <= i < peaks.len() && rank(peaks, i) < keep && kept[a] == peaks[i];
        assert(rank(peaks, j) >= keep);
        if peaks[j].1 > peaks[i].1 {
            assert(ranked_before(peaks, j, i));
            lemma_rank_upto_order(peaks, j, i, peaks.len() as int);
        }
    }
}

/// Chunk peaks come in strictly increasing position.
pub proof fn lemma_chunk_peaks_in_time_order(samples: Seq<i16>, part_size: int, peaks: Seq<Peak>)
    requires
        part_size > 0,
        chunk_peaks(samples, part_size, peaks),
    ensures
        forall|p: int, q: int| 0 <= p < q < peaks.len() ==> peaks[p].0 < peaks[q].0,
{
    assert forall|p: int, q: int| 0 <= p < q < peaks.len() implies peaks[p].0 < peaks[q].0 by {
        vstd::arithmetic::mul::lemma_mul_inequality(p + 1, q, part_size);
        vstd::arithmetic::mul::lemma_mul_is_distributive_add_other_way(part_size, p, 1);
        assert(peaks[q].0 as int >= q * part_size);
        assert(peaks[p].0 as int >= p * part_size);
    }
}

/// The loudest half of the chunk peaks of `samples`, in time order: the
/// peaks that come first when ordered by amplitude, loudest first and
/// earlier first among equals, of which there are half (rounded down).
/// The sample count must stay below `2^24`, the range in which the
/// chunk count is computed exactly.
pub fn detect_peaks(samples: &Vec<i16>, part_size: usize) -> (peaks: Vec<Peak>)
    requires
        part_size > 0,
        samples.len() < 0x100_0000,
    ensures
        forall|all: Seq<Peak>| chunk_peaks(samples@, part_size as int, all) ==> peaks@ == loudest_half(all),
        peaks.len() == samples.len() / part_size / 2,
        forall|a: int, b: int| 0 <= a < b < peaks.len() ==> (#[trigger] peaks@[a]).0 < (#[trigger] peaks@[b]).0,
        forall|all: Seq<Peak>, a: int, j: int| chunk_peaks(samples@, part_size as int, all) && 0 <= a < peaks.len() && 0
            <= j < all.len() && !peaks@.contains(#[trigger] all[j]) ==> all[j].1 <= (#[trigger] peaks@[a]).1,
{
    let all = chunk_maxima(samples, part_size);
    proof {
        assert forall|other: Seq<Peak>| chunk_peaks(samples@, part_size as int, other) implies other == all@ by {
            lemma_chunk_peaks_unique(samples@, part_size as int, other, all@);
        }
    }
    let keep = all.len() / 2;
    let mut result: Vec<Peak> = Vec::new();
    let mut i: usize = 0;
    while i < all.len()
        invariant
            i <= all.len(),
            keep == all.len() / 2,
            loudest_half(all@) == result@ + loudest_from(all@, keep as nat, i as int),
        decreases all.len() - i,
    {
        proof {
            lemma_loudest_from_step(all@, keep as nat, i as int);
        }
        let r = peak_rank(&all, i);
        if r < keep {
            proof {
                assert(result@ + (seq![all@[i as int]] + loudest_from(all@, keep as nat, i + 1))
                    =~= result@.push(all@[i as int]) + loudest_from(all@, keep as nat, i + 1));
            }
            result.push(all[i]);
        } else {
            proof {
                assert(result@ + (Seq::<Peak>::empty() + loudest_from(all@, keep as nat, i + 1))
                    =~= result@ + loudest_from(all@, keep as nat, i + 1));
            }
        }
        i = i + 1;
    }
    proof {
        assert(loudest_from(all@, keep as nat, i as int) =~= Seq::<Peak>::empty());
        assert(result@ + Seq::<Peak>::empty() =~= result@);
        lemma_loudest_half_len(all@);
        lemma_chunk_peaks_in_time_order(samples@, part_size as int, all@);
        lemma_loudest_half_in_time_order(all@);
        lemma_loudest_half_is_loudest(all@);
    }
    result
}

} // verus!

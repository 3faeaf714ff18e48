//! Permutations of the positions along an array axis, and sorting the
//! positions by a comparison.
use vstd::prelude::*;

verus! {

/// Whether `s` lists each of `0..s.len()` exactly once.
pub open spec fn is_permutation(s: Seq<usize>) -> bool {
    &&& forall|i: int| 0 <= i < s.len() ==> #[trigger] s[i] < s.len()
    &&& forall|i: int, j: int| 0 <= i < j < s.len() ==> s[i] != s[j]
}

/// An order of the positions `0..n`; each position appears exactly once.
#[derive(Debug)]
pub struct Permutation {
    indices: Vec<usize>,
}

impl Clone for Permutation {
    /// The same order of positions.
    fn clone(&self) -> (p: Permutation)
        ensures
            p@ == self@,
    {
        proof {
            use_type_invariant(self);
        }
        Permutation { indices: self.indices() }
    }
}

impl View for Permutation {
    type V = Seq<usize>;

    /// The positions, in order.
    closed spec fn view(&self) -> Seq<usize> {
        self.indices@
    }
}

/// Whether `less_than` says `a` comes before `b`.
pub open spec fn before<F: Fn(usize, usize) -> bool>(less_than: F, a: usize, b: usize) -> bool {
    call_ensures(less_than, (a, b), true)
}

/// Whether `less_than` answers the same for the same positions and orders
/// the positions `0..n` as a strict weak order: never both ways, and
/// "not before" is transitive.
pub open spec fn is_strict_weak_order<F: Fn(usize, usize) -> bool>(less_than: F, n: nat) -> bool {
    &&& forall|a: usize, b: usize| a < n && b < n ==> less_than.requires((a, b))
    &&& forall|a: usize, b: usize, r1: bool, r2: bool|
        call_ensures(less_than, (a, b), r1) && call_ensures(less_than, (a, b), r2) ==> r1 == r2
    &&& forall|a: usize, b: usize| a < n && b < n && #[trigger] before(less_than, a, b)
        ==> !before(less_than, b, a)
    &&& forall|a: usize, b: usize, c: usize| a < n && b < n && c < n
        && !#[trigger] before(less_than, a, b) && !#[trigger] before(less_than, b, c)
        ==> !before(less_than, a, c)
}

/// Whether the first `n` entries of `s` are in `less_than` order, with
/// positions that are neither before the other kept in increasing order.
pub open spec fn sorted_by<F: Fn(usize, usize) -> bool>(less_than: F, s: Seq<usize>, n: int) -> bool {
    forall|i: int, j: int| 0 <= i < j < n ==> {
        &&& !before(less_than, #[trigger] s[j], #[trigger] s[i])
        &&& !before(less_than, s[i], s[j]) ==> s[i] < s[j]
    }
}

/// The positions `0..n` in increasing order.
pub open spec fn identity_seq(n: nat) -> Seq<usize> {
    Seq::new(n, |i: int| i as usize)
}

impl Permutation {
    #[verifier::type_invariant]
    spec fn each_position_once(self) -> bool {
        is_permutation(self.indices@)
    }

    /// The given order of positions, when it lists each of `0..len` exactly
    /// once.
    pub fn from_indices(v: Vec<usize>) -> (r: Result<Permutation, ()>)
        ensures
            is_permutation(v@) <==> r is Ok,
            r matches Ok(p) ==> p@ == v@,
    {
        if Self::correct(&v) {
            Ok(Permutation { indices: v })
        } else {
            Err(())
        }
    }

    /// Whether `indices` lists each of `0..indices.len()` exactly once.
    fn correct(indices: &Vec<usize>) -> (ok: bool)
        ensures
            ok == is_permutation(indices@),
    {
        let axis_len = indices.len();
        let mut seen: Vec<bool> = Vec::new();
        while seen.len() < axis_len
            invariant
                seen.len() <= axis_len,
                forall|x: int| 0 <= x < seen.len() ==> !seen@[x],
            decreases axis_len - seen.len(),
        {
            seen.push(false);
        }
        let mut k: usize = 0;
        while k < axis_len
            invariant
                axis_len == indices.len(),
                seen.len() == axis_len,
                k <= axis_len,
                forall|j: int| 0 <= j < k ==> #[trigger] indices@[j] < axis_len,
                forall|i: int, j: int| 0 <= i < j < k ==> indices@[i] != indices@[j],
                forall|x: int| 0 <= x < axis_len ==> (seen@[x] <==> exists|j: int| 0 <= j < k && indices@[j] == x),
            decreases axis_len - k,
        {
            let i = indices[k];
            if i >= axis_len {
                return false;
            }
            if seen[i] {
                proof {
                    let j = choose|j: int| 0 <= j < k && indices@[j] == i;
                    assert(indices@[j] == indices@[k as int]);
                }
                return false;
            }
            seen.set(i, true);
            proof {
                assert forall|x: int| 0 <= x < axis_len implies (seen@[x] <==> exists|j: int|
                    0 <= j < k + 1 && indices@[j] == x) by {
                    if x == i {
                        assert(indices@[k as int] == x);
                    } else if seen@[x] {
                        let j = choose|j: int| 0 <= j < k && indices@[j] == x;
                        assert(0 <= j < k + 1 && indices@[j] == x);
                    }
                }
            }
            k = k + 1;
        }
        true
    }

    /// The positions `0..len` in increasing order.
    pub fn identity(len: usize) -> (p: Permutation)
        ensures
            p@ == identity_seq(len as nat),
    {
        let mut indices: Vec<usize> = Vec::new();
        while indices.len() < len
            invariant
                indices.len() <= len,
                forall|i: int| 0 <= i < indices.len() ==> indices@[i] == i,
            decreases len - indices.len(),
        {
            indices.push(indices.len());
        }
        assert(indices@ =~= identity_seq(len as nat));
        Permutation { indices }
    }

    /// The positions in order.
    pub fn indices(&self) -> (v: Vec<usize>)
        ensures
            v@ == self@,
            is_permutation(v@),
    {
        proof {
            use_type_invariant(self);
        }
        self.indices.clone()
    }

    /// The positions `0..len` sorted by `less_than`, a strict weak order;
    /// positions neither of which comes before the other keep their
    /// increasing order.
    pub fn sort_axis_by<F: Fn(usize, usize) -> bool>(len: usize, less_than: F) -> (p: Permutation)
        requires
            is_strict_weak_order(less_than, len as nat),
        ensures
            is_permutation(p@),
            p@.len() == len,
            sorted_by(less_than, p@, len as int),
    {
        let mut perm: Vec<usize> = Self::identity(len).indices();
        let mut k: usize = 1;
        if len == 0 {
            proof {
                assert(perm@.len() == 0);
            }
            return Permutation { indices: perm };
        }
        while k < len
            invariant
                1 <= k <= len,
                perm@.len() == len,
                is_strict_weak_order(less_than, len as nat),
                forall|m: int| k <= m < len ==> perm@[m] == m,
                forall|i: int| 0 <= i < k ==> #[trigger] perm@[i] < k,
                forall|i: int, j: int| 0 <= i < j < k ==> perm@[i] != perm@[j],
                sorted_by(less_than, perm@, k as int),
            decreases len - k,
        {
            let ghost prev = perm@;
            let mut j: usize = k;
            while j > 0 && less_than(perm[j], perm[j - 1])
                invariant
                    0 <= j <= k < len,
                    perm@.len() == len,
                    is_strict_weak_order(less_than, len as nat),
                    perm@[j as int] == k,
                    prev.len() == len,
                    j > 0 ==> perm@[j - 1] < k,
                    forall|m: int| k < m < len ==> perm@[m] == m,
                    forall|i: int| 0 <= i < j ==> perm@[i] == prev[i],
                    forall|i: int| j < i <= k ==> perm@[i] == prev[i - 1],
                    forall|i: int| j < i <= k ==> before(less_than, k as usize, #[trigger] perm@[i]),
                    forall|i: int| 0 <= i < k ==> #[trigger] prev[i] < k,
                    forall|i: int, j2: int| 0 <= i < j2 < k ==> prev[i] != prev[j2],
                    sorted_by(less_than, prev, k as int),
                decreases j,
            {
                let a = perm[j];
                let b = perm[j - 1];
                perm.set(j, b);
                perm.set(j - 1, a);
                j = j - 1;
                proof {
                    if j > 0 {
                        assert(perm@[j - 1] == prev[j - 1]);
                        assert(prev[j - 1] < k);
                    }
                }
            }
            proof {
                let x = k as usize;
                if j > 0 {
                    assert(!before(less_than, x, perm@[j - 1]));
                }
                assert forall|i: int| 0 <= i < k + 1 implies #[trigger] perm@[i] < k + 1 by {
                    if i < j {
                        assert(perm@[i] == prev[i]);
                    } else if i > j {
                        assert(perm@[i] == prev[i - 1]);
                    }
                }
                assert forall|i: int, i2: int| 0 <= i < i2 < k + 1 implies perm@[i] != perm@[i2] by {
                    if i < j && i2 < j {
                        assert(perm@[i] == prev[i] && perm@[i2] == prev[i2]);
                    } else if i > j && i2 > j {
                        assert(perm@[i] == prev[i - 1] && perm@[i2] == prev[i2 - 1]);
                    } else if i == j {
                        assert(perm@[i2] == prev[i2 - 1]);
                        assert(prev[i2 - 1] < k);
                    } else if i2 == j {
                        assert(perm@[i] == prev[i]);
                        assert(prev[i] < k);
                    } else {
                        assert(perm@[i] == prev[i] && perm@[i2] == prev[i2 - 1]);
                        assert(i != i2 - 1);
                    }
                }
                assert forall|i: int, i2: int| 0 <= i < i2 < k + 1 implies {
                    &&& !before(less_than, #[trigger] perm@[i2], #[trigger] perm@[i])
                    &&& !before(less_than, perm@[i], perm@[i2]) ==> perm@[i] < perm@[i2]
                } by {
                    if i2 < j {
                        assert(perm@[i] == prev[i] && perm@[i2] == prev[i2]);
                    } else if i > j {
                        assert(perm@[i] == prev[i - 1] && perm@[i2] == prev[i2 - 1]);
                    } else if i2 == j {
                        assert(perm@[i] == prev[i]);
                        assert(!before(less_than, x, perm@[j - 1]));
                        if i < j - 1 {
                            assert(perm@[j - 1] == prev[j - 1]);
                            assert(!before(less_than, prev[j - 1], prev[i]));
                        }
                    } else if i == j {
                        assert(perm@[i2] == prev[i2 - 1]);
                        assert(before(less_than, x, perm@[i2]));
                    } else {
                        assert(perm@[i] == prev[i] && perm@[i2] == prev[i2 - 1]);
                        assert(!before(less_than, prev[i2 - 1], prev[i]));
                    }
                }
            }
            k = k + 1;
        }
        proof {
            assert forall|i: int| 0 <= i < perm@.len() implies #[trigger] perm@[i] < perm@.len() by {}
        }
        Permutation { indices: perm }
    }
}

} // verus!

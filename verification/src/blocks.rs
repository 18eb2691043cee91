use vstd::prelude::*;

verus! {

/// Membership of `x` among the recorded block indices.
pub fn contains_u64(v: &Vec<u64>, x: u64) -> (r: bool)
    ensures
        r == v@.contains(x),
{
    let mut i: usize = 0;
    while i < v.len()
        invariant
            i <= v@.len(),
            forall|k: int| 0 <= k < i ==> v@[k] != x,
        decreases v@.len() - i,
    {
        if v[i] == x {
            proof {
                assert(v@[i as int] == x);
            }
            return true;
        }
        i = i + 1;
    }
    proof {
        if v@.contains(x) {
            let k = choose|k: int| 0 <= k < v@.len() && v@[k] == x;
            assert(v@[k] != x);
        }
    }
    false
}

/// An appended sequence holds exactly the old indices and the appended one.
pub proof fn lemma_push_contains(s: Seq<u64>, x: u64, y: u64)
    ensures
        s.push(x).contains(y) == (s.contains(y) || y == x),
{
    if s.push(x).contains(y) {
        let k = choose|k: int| 0 <= k < s.push(x).len() && s.push(x)[k] == y;
        if k < s.len() {
            assert(s[k] == y);
        }
    }
    if s.contains(y) {
        let k = choose|k: int| 0 <= k < s.len() && s[k] == y;
        assert(s.push(x)[k] == y);
    }
    if y == x {
        assert(s.push(x)[s.len() as int] == y);
    }
}

/// Appending a fresh index keeps the list duplicate-free.
pub proof fn lemma_push_no_dup(s: Seq<u64>, x: u64)
    requires
        s.no_duplicates(),
        !s.contains(x),
    ensures
        s.push(x).no_duplicates(),
{
    let t = s.push(x);
    assert forall|i: int, j: int|
        0 <= i < t.len() && 0 <= j < t.len() && i != j implies t[i] != t[j] by {
        if i < s.len() && j < s.len() {
            assert(s[i] != s[j]);
        } else if i < s.len() && j == s.len() {
            assert(s.contains(s[i])) by {
                assert(s[i] == s[i]);
            }
        } else if j < s.len() && i == s.len() {
            assert(s.contains(s[j])) by {
                assert(s[j] == s[j]);
            }
        }
    }
}

/// The indices of `v` other than `x`, in order.
pub fn without_u64(v: &Vec<u64>, x: u64) -> (r: Vec<u64>)
    ensures
        forall|y: u64| r@.contains(y) == (v@.contains(y) && y != x),
        v@.no_duplicates() ==> r@.no_duplicates(),
{
    let mut r: Vec<u64> = Vec::new();
    let mut i: usize = 0;
    while i < v.len()
        invariant
            i <= v@.len(),
            forall|k: int| 0 <= k < i && v@[k] != x ==> r@.contains(v@[k]),
            forall|j: int| 0 <= j < r@.len() ==> r@[j] != x,
            forall|j: int|
                0 <= j < r@.len() ==> exists|k: int| 0 <= k < i && #[trigger] v@[k] == #[trigger] r@[j],
            v@.no_duplicates() ==> r@.no_duplicates(),
        decreases v@.len() - i,
    {
        let e = v[i];
        if e != x {
            proof {
                if v@.no_duplicates() {
                    assert(!r@.contains(e)) by {
                        if r@.contains(e) {
                            let j = choose|j: int| 0 <= j < r@.len() && r@[j] == e;
                            let k = choose|k: int| 0 <= k < i && #[trigger] v@[k] == r@[j];
                            assert(v@[k] == v@[i as int]);
                            assert(k != i as int);
                        }
                    }
                }
            }
            let ghost r0 = r@;
            r.push(e);
            proof {
                assert(r@ == r0.push(e));
                if v@.no_duplicates() {
                    lemma_push_no_dup(r0, e);
                }
                assert forall|y: u64| #[trigger] r@.contains(y) == (r0.contains(y) || y == e) by {
                    lemma_push_contains(r0, e, y);
                }
                assert forall|k: int| 0 <= k < i + 1 && v@[k] != x implies r@.contains(v@[k]) by {
                    if k < i {
                        assert(r0.contains(v@[k]));
                    } else {
                        assert(v@[k] == e);
                    }
                }
                assert forall|j: int| 0 <= j < r@.len() implies exists|k: int|
                    0 <= k < i + 1 && #[trigger] v@[k] == #[trigger] r@[j] by {
                    if j < r0.len() {
                        assert(r@[j] == r0[j]);
                        let k = choose|k: int| 0 <= k < i && #[trigger] v@[k] == r0[j];
                        assert(v@[k] == r@[j]);
                    } else {
                        assert(r@[j] == e);
                        assert(v@[i as int] == r@[j]);
                    }
                }
            }
        }
        i = i + 1;
    }
    proof {
        assert forall|y: u64| r@.contains(y) == (v@.contains(y) && y != x) by {
            if r@.contains(y) {
                let j = choose|j: int| 0 <= j < r@.len() && r@[j] == y;
                let k = choose|k: int| 0 <= k < i && v@[k] == r@[j];
                assert(v@.contains(y)) by {
                    assert(v@[k] == y);
                }
            }
            if v@.contains(y) && y != x {
                let k = choose|k: int| 0 <= k < v@.len() && v@[k] == y;
                assert(r@.contains(v@[k]));
            }
        }
    }
    r
}

/// The indices of `v` with later repetitions dropped.
pub fn dedup_u64(v: &Vec<u64>) -> (r: Vec<u64>)
    ensures
        forall|y: u64| r@.contains(y) == v@.contains(y),
        r@.no_duplicates(),
{
    let mut r: Vec<u64> = Vec::new();
    let mut i: usize = 0;
    while i < v.len()
        invariant
            i <= v@.len(),
            forall|k: int| 0 <= k < i ==> r@.contains(v@[k]),
            forall|j: int| 0 <= j < r@.len() ==> v@.contains(r@[j]),
            r@.no_duplicates(),
        decreases v@.len() - i,
    {
        let e = v[i];
        if !contains_u64(&r, e) {
            let ghost r0 = r@;
            r.push(e);
            proof {
                assert(r@ == r0.push(e));
                lemma_push_no_dup(r0, e);
                assert forall|y: u64| #[trigger] r@.contains(y) == (r0.contains(y) || y == e) by {
                    lemma_push_contains(r0, e, y);
                }
                assert forall|j: int| 0 <= j < r@.len() implies v@.contains(#[trigger] r@[j]) by {
                    if j < r0.len() {
                        assert(r@[j] == r0[j]);
                    } else {
                        assert(r@[j] == e);
                        assert(v@[i as int] == e);
                    }
                }
            }
        }
        proof {
            assert(r@.contains(v@[i as int]));
        }
        i = i + 1;
    }
    proof {
        assert forall|y: u64| r@.contains(y) == v@.contains(y) by {
            if r@.contains(y) {
                let j = choose|j: int| 0 <= j < r@.len() && r@[j] == y;
                assert(v@.contains(y)) by {
                    assert(v@.contains(r@[j]));
                }
            }
            if v@.contains(y) {
                let k = choose|k: int| 0 <= k < v@.len() && v@[k] == y;
                assert(r@.contains(v@[k]));
            }
        }
    }
    r
}

/// A fresh vector holding the same indices.
pub fn copy_u64s(v: &Vec<u64>) -> (r: Vec<u64>)
    ensures
        r@ == v@,
{
    let mut r: Vec<u64> = Vec::new();
    let mut i: usize = 0;
    while i < v.len()
        invariant
            i <= v@.len(),
            r@ == v@.take(i as int),
        decreases v@.len() - i,
    {
        r.push(v[i]);
        proof {
            assert(v@.take(i + 1 as int) =~= v@.take(i as int).push(v@[i as int]));
        }
        i = i + 1;
    }
    proof {
        assert(v@.take(v@.len() as int) =~= v@);
    }
    r
}

} // verus!

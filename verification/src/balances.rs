use vstd::prelude::*;
use vstd::pervasive::VecAdditionalExecFns;
use crate::identity::{bytes_eq, Identity};

verus! {

/// The mathematical content of a balance table: identity byte forms paired
/// with amounts. An earlier entry takes precedence over a later one, so the
/// table behaves as a mapping even if a later entry repeats an identity.
pub open spec fn entry_views(s: Seq<(Identity, u64)>) -> Seq<(Seq<u8>, u64)> {
    s.map_values(|p: (Identity, u64)| (p.0@, p.1))
}

/// Whether some entry carries the identity `id`.
pub open spec fn has_entry(s: Seq<(Seq<u8>, u64)>, id: Seq<u8>) -> bool {
    exists|i: int| 0 <= i < s.len() && s[i].0 == id
}

/// The balance the table records for `id`: the first matching entry's
/// amount, or 0 when no entry matches (absence means balance 0).
pub open spec fn lookup(s: Seq<(Seq<u8>, u64)>, id: Seq<u8>) -> u64
    decreases s.len(),
{
    if s.len() == 0 {
        0u64
    } else if s[0].0 == id {
        s[0].1
    } else {
        lookup(s.drop_first(), id)
    }
}

/// An entry for `id` stands in `s` exactly when its head carries `id` or the
/// tail holds such an entry.
proof fn lemma_has_entry_unfold(s: Seq<(Seq<u8>, u64)>, id: Seq<u8>)
    requires
        s.len() > 0,
    ensures
        has_entry(s, id) == (s[0].0 == id || has_entry(s.drop_first(), id)),
{
    if has_entry(s, id) {
        let i = choose|i: int| 0 <= i < s.len() && s[i].0 == id;
        if i > 0 {
            assert(s.drop_first()[i - 1].0 == id);
        }
    }
    if has_entry(s.drop_first(), id) {
        let i = choose|i: int| 0 <= i < s.drop_first().len() && s.drop_first()[i].0 == id;
        assert(s[i + 1].0 == id);
    }
}

/// With no matching entry, the recorded balance is zero.
pub proof fn lemma_lookup_absent(s: Seq<(Seq<u8>, u64)>, id: Seq<u8>)
    requires
        !has_entry(s, id),
    ensures
        lookup(s, id) == 0,
    decreases s.len(),
{
    if s.len() > 0 {
        lemma_has_entry_unfold(s, id);
        lemma_lookup_absent(s.drop_first(), id);
    }
}

/// The first matching entry determines the recorded balance.
pub proof fn lemma_lookup_first_match(s: Seq<(Seq<u8>, u64)>, i: int)
    requires
        0 <= i < s.len(),
        forall|k: int| 0 <= k < i ==> s[k].0 != s[i].0,
    ensures
        lookup(s, s[i].0) == s[i].1,
    decreases i,
{
    if i == 0 {
    } else {
        assert(s[0].0 != s[i].0);
        assert(s.drop_first()[i - 1] == s[i]);
        assert(forall|k: int| 0 <= k < i - 1 ==> s.drop_first()[k] == s[k + 1]);
        lemma_lookup_first_match(s.drop_first(), i - 1);
    }
}

/// Replacing the amount of the first entry for an identity moves that
/// identity's balance to the new amount and no other identity's.
pub proof fn lemma_lookup_update_amount(s: Seq<(Seq<u8>, u64)>, i: int, v: u64, id: Seq<u8>)
    requires
        0 <= i < s.len(),
        forall|k: int| 0 <= k < i ==> s[k].0 != s[i].0,
    ensures
        lookup(s.update(i, (s[i].0, v)), id) == if id == s[i].0 {
            v
        } else {
            lookup(s, id)
        },
    decreases i,
{
    let t = s.update(i, (s[i].0, v));
    if i == 0 {
        if id != s[0].0 {
            assert(t.drop_first() =~= s.drop_first());
        }
    } else {
        assert(t[0] == s[0]);
        assert(s[0].0 != s[i].0);
        if id == s[0].0 {
            assert(lookup(t, id) == t[0].1);
        } else {
            assert(t.drop_first() =~= s.drop_first().update(i - 1, (s[i].0, v)));
            assert(s.drop_first()[i - 1] == s[i]);
            assert(forall|k: int| 0 <= k < i - 1 ==> s.drop_first()[k] == s[k + 1]);
            lemma_lookup_update_amount(s.drop_first(), i - 1, v, id);
        }
    }
}

/// Appending an entry leaves existing identities' balances unchanged and
/// gives a fresh identity the appended amount.
pub proof fn lemma_lookup_push(s: Seq<(Seq<u8>, u64)>, p: (Seq<u8>, u64), id: Seq<u8>)
    ensures
        lookup(s.push(p), id) == if has_entry(s, id) {
            lookup(s, id)
        } else if p.0 == id {
            p.1
        } else {
            0u64
        },
    decreases s.len(),
{
    let t = s.push(p);
    assert(t.len() == s.len() + 1);
    if s.len() == 0 {
        assert(t[0] == p);
        if p.0 == id {
            assert(lookup(t, id) == p.1);
        } else {
            assert(t.drop_first() =~= Seq::<(Seq<u8>, u64)>::empty());
            assert(lookup(t, id) == lookup(t.drop_first(), id));
            assert(lookup(t.drop_first(), id) == 0);
        }
        assert(!has_entry(s, id));
    } else {
        assert(t[0] == s[0]);
        lemma_has_entry_unfold(s, id);
        if s[0].0 == id {
            assert(lookup(t, id) == t[0].1);
            assert(lookup(s, id) == s[0].1);
            assert(has_entry(s, id));
        } else {
            assert(t.drop_first() =~= s.drop_first().push(p));
            lemma_lookup_push(s.drop_first(), p, id);
            assert(lookup(t, id) == lookup(t.drop_first(), id));
            assert(lookup(s, id) == lookup(s.drop_first(), id));
        }
    }
}

/// The index of the first entry for `id`, if any entry matches.
pub fn find_entry(v: &Vec<(Identity, u64)>, id: &Identity) -> (r: Option<usize>)
    ensures
        match r {
            Option::Some(i) => i < v@.len() && entry_views(v@)[i as int].0 == id@ && (forall|k: int|
                0 <= k < i ==> entry_views(v@)[k].0 != id@),
            Option::None => !has_entry(entry_views(v@), id@),
        },
{
    let mut i: usize = 0;
    while i < v.len()
        invariant
            i <= v@.len(),
            forall|k: int| 0 <= k < i ==> entry_views(v@)[k].0 != id@,
        decreases v@.len() - i,
    {
        if bytes_eq(&v[i].0.bytes, &id.bytes) {
            return Some(i);
        }
        i = i + 1;
    }
    proof {
        if has_entry(entry_views(v@), id@) {
            let k = choose|k: int| 0 <= k < entry_views(v@).len() && entry_views(v@)[k].0 == id@;
            assert(entry_views(v@)[k].0 != id@);
        }
    }
    None
}

/// The balance recorded for `id` (0 when absent).
pub fn get_balance(v: &Vec<(Identity, u64)>, id: &Identity) -> (r: u64)
    ensures
        r == lookup(entry_views(v@), id@),
{
    match find_entry(v, id) {
        Some(i) => {
            let r = v[i].1;
            proof {
                lemma_lookup_first_match(entry_views(v@), i as int);
            }
            r
        },
        None => {
            proof {
                lemma_lookup_absent(entry_views(v@), id@);
            }
            0
        },
    }
}

/// A fresh balance table with the same content in the same order.
pub fn copy_balances(v: &Vec<(Identity, u64)>) -> (r: Vec<(Identity, u64)>)
    ensures
        entry_views(r@) == entry_views(v@),
{
    let mut r: Vec<(Identity, u64)> = Vec::new();
    let mut i: usize = 0;
    while i < v.len()
        invariant
            i <= v@.len(),
            r@.len() == i,
            forall|k: int| 0 <= k < i ==> r@[k].0@ == v@[k].0@ && r@[k].1 == v@[k].1,
        decreases v@.len() - i,
    {
        let idc = v[i].0.duplicate();
        let amt = v[i].1;
        r.push((idc, amt));
        i = i + 1;
    }
    proof {
        assert(entry_views(r@) =~= entry_views(v@));
    }
    r
}

/// Records `amount` as the balance of `id`, leaving every other identity's
/// balance as it was.
pub fn set_balance(v: &mut Vec<(Identity, u64)>, id: &Identity, amount: u64)
    ensures
        lookup(entry_views(final(v)@), id@) == amount,
        forall|o: Seq<u8>| o != id@ ==> lookup(entry_views(final(v)@), o) == lookup(
            entry_views(old(v)@),
            o,
        ),
{
    let ghost s = entry_views(v@);
    match find_entry(v, id) {
        Some(i) => {
            v.set(i, (id.duplicate(), amount));
            proof {
                assert(entry_views(v@) =~= s.update(i as int, (s[i as int].0, amount)));
                assert forall|o: Seq<u8>| true implies lookup(entry_views(v@), o) == (if o == id@ {
                    amount
                } else {
                    lookup(s, o)
                }) by {
                    lemma_lookup_update_amount(s, i as int, amount, o);
                }
            }
        },
        None => {
            v.push((id.duplicate(), amount));
            proof {
                assert(entry_views(v@) =~= s.push((id@, amount)));
                assert forall|o: Seq<u8>| true implies lookup(entry_views(v@), o) == (if o == id@ {
                    amount
                } else {
                    lookup(s, o)
                }) by {
                    lemma_lookup_push(s, (id@, amount), o);
                    if o == id@ {
                    } else if has_entry(s, o) {
                    } else {
                        lemma_lookup_absent(s, o);
                    }
                }
            }
        },
    }
}

} // verus!

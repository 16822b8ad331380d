use vstd::prelude::*;
use dashmap::DashMap;
use crate::concurrent_maps::{owner_table, owners_get, owners_keys};
use crate::state_machine::{blake3_digest, blake3_hash, push_str_bytes};
use crate::text::{decimal_bytes, push_decimal_bytes};

verus! {

/// Each element smaller than the next.
pub open spec fn strictly_ascending(s: Seq<usize>) -> bool {
    forall|i: int, j: int| 0 <= i < j < s.len() ==> s[i] < s[j]
}

/// The keys of a block map in ascending order.
pub open spec fn sorted_keys(m: Map<usize, Seq<char>>) -> Seq<usize> {
    choose|ks: Seq<usize>| strictly_ascending(ks) && ks.to_set() == m.dom()
}

/// `block:node`, as the digest reads one entry.
pub open spec fn entry_bytes(k: usize, node: Seq<char>) -> Seq<u8> {
    decimal_bytes(k as nat) + seq![58u8] + vstd::utf8::encode_utf8(node)
}

/// The entries for the keys `ks`, one after another.
pub open spec fn entries_bytes(ks: Seq<usize>, m: Map<usize, Seq<char>>) -> Seq<u8>
    decreases ks.len(),
{
    if ks.len() == 0 {
        Seq::empty()
    } else {
        entries_bytes(ks.drop_last(), m) + entry_bytes(ks.last(), m[ks.last()])
    }
}

/// Digest of a block map: BLAKE3 over its entries in ascending block order.
pub open spec fn ownership_digest(m: Map<usize, Seq<char>>) -> Seq<u8> {
    blake3_hash(entries_bytes(sorted_keys(m), m))
}

/// Digest of a map before any change is recorded: BLAKE3 of "empty".
pub open spec fn initial_digest() -> Seq<u8> {
    blake3_hash(vstd::utf8::encode_utf8("empty"@))
}

/// Two ascending sequences with the same elements are equal.
pub proof fn lemma_ascending_unique(a: Seq<usize>, b: Seq<usize>)
    requires
        strictly_ascending(a),
        strictly_ascending(b),
        a.to_set() == b.to_set(),
    ensures
        a == b,
    decreases a.len(),
{
    if a.len() == 0 {
        if b.len() > 0 {
            assert(b.to_set().contains(b[0]));
        }
        assert(a =~= b);
    } else if b.len() == 0 {
        assert(a.to_set().contains(a[0]));
    } else {
        assert(a.to_set().contains(a[0]));
        assert(b.to_set().contains(b[0]));
        let i = choose|i: int| 0 <= i < b.len() && b[i] == a[0];
        let j = choose|j: int| 0 <= j < a.len() && a[j] == b[0];
        assert(a[0] == b[0]);
        let a1 = a.drop_first();
        let b1 = b.drop_first();
        assert forall|x: usize| a1.to_set().contains(x) <==> b1.to_set().contains(x) by {
            if a1.to_set().contains(x) {
                let k = choose|k: int| 0 <= k < a1.len() && a1[k] == x;
                assert(a[k + 1] == x);
                assert(b.to_set().contains(x));
                let l = choose|l: int| 0 <= l < b.len() && b[l] == x;
                assert(l != 0);
                assert(b1[l - 1] == x);
            }
            if b1.to_set().contains(x) {
                let k = choose|k: int| 0 <= k < b1.len() && b1[k] == x;
                assert(b[k + 1] == x);
                assert(a.to_set().contains(x));
                let l = choose|l: int| 0 <= l < a.len() && a[l] == x;
                assert(l != 0);
                assert(a1[l - 1] == x);
            }
        }
        assert(a1.to_set() =~= b1.to_set());
        lemma_ascending_unique(a1, b1);
        assert(a.len() == b.len());
        assert forall|k: int| 0 <= k < a.len() implies a[k] == b[k] by {
            if k > 0 {
                assert(a[k] == a1[k - 1]);
                assert(b[k] == b1[k - 1]);
            }
        }
        assert(a =~= b);
    }
}

/// An ascending sequence of the map's keys is the one the digest reads.
pub proof fn lemma_sorted_keys(m: Map<usize, Seq<char>>, ks: Seq<usize>)
    requires
        strictly_ascending(ks),
        ks.to_set() == m.dom(),
    ensures
        sorted_keys(m) == ks,
{
    let c = sorted_keys(m);
    assert(strictly_ascending(c) && c.to_set() == m.dom());
    lemma_ascending_unique(c, ks);
}

/// The elements of `v`, in ascending order.
pub fn sort_ascending(v: &Vec<usize>) -> (r: Vec<usize>)
    requires
        v@.no_duplicates(),
    ensures
        strictly_ascending(r@),
        r@.to_set() == v@.to_set(),
{
    let mut out: Vec<usize> = Vec::new();
    let mut i: usize = 0;
    while i < v.len()
        invariant
            i <= v.len(),
            v@.no_duplicates(),
            strictly_ascending(out@),
            out@.to_set() == v@.take(i as int).to_set(),
        decreases v.len() - i,
    {
        let x = v[i];
        assert(!out@.to_set().contains(x)) by {
            if out@.to_set().contains(x) {
                let k = choose|k: int| 0 <= k < i && v@.take(i as int)[k] == x;
                assert(v@[k] == v@[i as int]);
            }
        }
        let mut j: usize = 0;
        while j < out.len() && out[j] < x
            invariant
                j <= out.len(),
                forall|k: int| 0 <= k < j ==> out@[k] < x,
            decreases out.len() - j,
        {
            j = j + 1;
        }
        let ghost before = out@;
        proof {
            if j < before.len() {
                assert(!before.to_set().contains(x));
                assert(before[j as int] != x);
                assert(before[j as int] > x);
            }
        }
        out.insert(j, x);
        assert(out@ == before.insert(j as int, x));
        assert forall|a: int, b: int| 0 <= a < b < out@.len() implies out@[a] < out@[b] by {
            if b < j {
            } else if b == j {
            } else if a < j {
                assert(out@[b] == before[b - 1]);
                if j < before.len() {
                    assert(before[j as int] > x);
                    assert(before[j as int] <= before[b - 1]);
                }
            } else if a == j {
                assert(out@[b] == before[b - 1]);
                assert(before[j as int] > x);
                assert(before[j as int] <= before[b - 1]);
            } else {
                assert(out@[a] == before[a - 1]);
                assert(out@[b] == before[b - 1]);
            }
        }
        assert forall|y: usize| out@.to_set().contains(y) <==> v@.take(i as int + 1).to_set().contains(y) by {
            assert(v@.take(i as int + 1) == v@.take(i as int).push(x));
            if out@.to_set().contains(y) {
                let k = choose|k: int| 0 <= k < out@.len() && out@[k] == y;
                if k < j {
                    assert(before[k] == y);
                    assert(before.to_set().contains(y));
                } else if k > j {
                    assert(before[k - 1] == y);
                    assert(before.to_set().contains(y));
                }
                if y != x {
                    assert(v@.take(i as int).to_set().contains(y));
                    let l = choose|l: int| 0 <= l < i && v@.take(i as int)[l] == y;
                    assert(v@.take(i as int + 1)[l] == y);
                } else {
                    assert(v@.take(i as int + 1)[i as int] == y);
                }
            }
            if v@.take(i as int + 1).to_set().contains(y) {
                let w = v@.take(i as int + 1);
                let l = choose|l: int| 0 <= l < w.len() && w[l] == y;
                if l == i {
                    assert(out@[j as int] == y);
                } else {
                    assert(v@.take(i as int)[l] == y);
                    assert(before.to_set().contains(y));
                    let k = choose|k: int| 0 <= k < before.len() && before[k] == y;
                    if k < j {
                        assert(out@[k] == y);
                    } else {
                        assert(out@[k + 1] == y);
                    }
                }
            }
        }
        assert(out@.to_set() =~= v@.take(i as int + 1).to_set());
        i = i + 1;
    }
    assert(v@.take(i as int) =~= v@);
    out
}

/// The bytes the digest of a block map is taken over.
pub fn ownership_bytes(m: &DashMap<usize, String>) -> (r: Vec<u8>)
    ensures
        r@ == entries_bytes(sorted_keys(owner_table(*m)), owner_table(*m)),
{
    let keys = owners_keys(m);
    let ks = sort_ascending(&keys);
    proof {
        lemma_sorted_keys(owner_table(*m), ks@);
    }
    let ghost t = owner_table(*m);
    let mut out: Vec<u8> = Vec::new();
    let mut i: usize = 0;
    while i < ks.len()
        invariant
            i <= ks.len(),
            t == owner_table(*m),
            ks@.to_set() == t.dom(),
            out@ == entries_bytes(ks@.take(i as int), t),
        decreases ks.len() - i,
    {
        let k = ks[i];
        assert(ks@.to_set().contains(k));
        match owners_get(m, k) {
            Some(node) => {
                push_decimal_bytes(&mut out, k as u64);
                out.push(58u8);
                push_str_bytes(&mut out, &node);
                assert(ks@.take(i as int + 1).drop_last() == ks@.take(i as int));
                assert(ks@.take(i as int + 1).last() == k);
                assert(out@ =~= entries_bytes(ks@.take(i as int), t) + entry_bytes(k, t[k]));
            },
            None => {
                assert(false);
            },
        }
        i = i + 1;
    }
    assert(ks@.take(i as int) =~= ks@);
    out
}

/// Digest of a block map.
pub fn ownership_digest_of(m: &DashMap<usize, String>) -> (r: [u8; 32])
    ensures
        r@ == ownership_digest(owner_table(*m)),
{
    let bytes = ownership_bytes(m);
    blake3_digest(&bytes)
}

/// Digest recorded before any change.
pub fn initial_digest_value() -> (r: [u8; 32])
    ensures
        r@ == initial_digest(),
{
    let mut bytes: Vec<u8> = Vec::new();
    let text = String::from_str("empty");
    push_str_bytes(&mut bytes, &text);
    assert(bytes@ =~= vstd::utf8::encode_utf8("empty"@));
    blake3_digest(&bytes)
}

} // verus!

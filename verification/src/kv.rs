use vstd::prelude::*;

verus! {

/// A list of string pairs used as a small map, by views.
pub type KvView = Seq<(Seq<char>, Seq<char>)>;

pub open spec fn kv_views(s: Seq<(String, String)>) -> KvView {
    s.map_values(|p: (String, String)| (p.0@, p.1@))
}

/// Position of the first pair with key `k`, or -1.
pub open spec fn key_pos(s: KvView, k: Seq<char>) -> int
    decreases s.len(),
{
    if s.len() == 0 {
        -1
    } else if s[0].0 == k {
        0
    } else {
        let p = key_pos(s.drop_first(), k);
        if p < 0 { -1 } else { p + 1 }
    }
}

/// Map insertion: the first pair with key `k` gets value `v`, or `(k, v)` is added at the end.
pub open spec fn kv_insert(s: KvView, k: Seq<char>, v: Seq<char>) -> KvView {
    let p = key_pos(s, k);
    if p < 0 { s.push((k, v)) } else { s.update(p, (k, v)) }
}

/// Map lookup: the value of the first pair with key `k`.
pub open spec fn kv_lookup(s: KvView, k: Seq<char>) -> Option<Seq<char>> {
    let p = key_pos(s, k);
    if p < 0 { None } else { Some(s[p].1) }
}

pub proof fn lemma_key_pos_found(s: KvView, k: Seq<char>, i: int)
    requires
        0 <= i < s.len(),
        s[i].0 == k,
        forall|j: int| 0 <= j < i ==> (#[trigger] s[j]).0 != k,
    ensures
        key_pos(s, k) == i,
    decreases i,
{
    if i > 0 {
        assert forall|j: int| 0 <= j < i - 1 implies (#[trigger] s.drop_first()[j]).0 != k by {
            assert(s.drop_first()[j] == s[j + 1]);
        }
        lemma_key_pos_found(s.drop_first(), k, i - 1);
    }
}

pub proof fn lemma_key_pos_absent(s: KvView, k: Seq<char>)
    requires
        forall|j: int| 0 <= j < s.len() ==> (#[trigger] s[j]).0 != k,
    ensures
        key_pos(s, k) == -1,
    decreases s.len(),
{
    if s.len() > 0 {
        assert forall|j: int| 0 <= j < s.drop_first().len() implies (#[trigger] s.drop_first()[j]).0 != k by {
            assert(s.drop_first()[j] == s[j + 1]);
        }
        lemma_key_pos_absent(s.drop_first(), k);
    }
}

/// Position of the first pair with key `k`.
pub fn kv_find(s: &Vec<(String, String)>, k: &String) -> (r: Option<usize>)
    ensures
        match r {
            Some(i) => key_pos(kv_views(s@), k@) == i as int && i < s@.len(),
            None => key_pos(kv_views(s@), k@) == -1,
        },
{
    let ghost sv = kv_views(s@);
    let mut i: usize = 0;
    while i < s.len()
        invariant
            i <= s.len(),
            sv == kv_views(s@),
            forall|j: int| 0 <= j < i ==> (#[trigger] sv[j]).0 != k@,
        decreases s.len() - i,
    {
        if s[i].0 == *k {
            proof {
                lemma_key_pos_found(sv, k@, i as int);
            }
            return Some(i);
        }
        assert(sv[i as int].0 != k@);
        i = i + 1;
    }
    proof {
        lemma_key_pos_absent(sv, k@);
    }
    None
}

/// Map insertion on a pair list.
pub fn kv_set(s: &mut Vec<(String, String)>, k: String, v: String)
    ensures
        kv_views(final(s)@) == kv_insert(kv_views(old(s)@), k@, v@),
{
    match kv_find(s, &k) {
        Some(i) => {
            s.set(i, (k, v));
            assert(kv_views(s@) =~= kv_views(old(s)@).update(i as int, (k@, v@)));
        },
        None => {
            s.push((k, v));
            assert(kv_views(s@) =~= kv_views(old(s)@).push((k@, v@)));
        },
    }
}

/// Map lookup on a pair list.
pub fn kv_get(s: &Vec<(String, String)>, k: &str) -> (r: Option<String>)
    ensures
        match r {
            Some(v) => kv_lookup(kv_views(s@), k@) == Some(v@),
            None => kv_lookup(kv_views(s@), k@) is None,
        },
{
    let key: String = k.to_owned();
    match kv_find(s, &key) {
        Some(i) => Some(s[i].1.clone()),
        None => None,
    }
}

/// A copy of a pair list.
pub fn kv_copy(s: &Vec<(String, String)>) -> (r: Vec<(String, String)>)
    ensures
        kv_views(r@) == kv_views(s@),
{
    let mut out: Vec<(String, String)> = Vec::new();
    let mut i: usize = 0;
    while i < s.len()
        invariant
            i <= s.len(),
            kv_views(out@) == kv_views(s@).take(i as int),
        decreases s.len() - i,
    {
        let ghost before = kv_views(out@);
        out.push((s[i].0.clone(), s[i].1.clone()));
        assert(kv_views(out@) =~= before.push(kv_views(s@)[i as int]));
        assert(kv_views(s@).take(i as int + 1) =~= kv_views(s@).take(i as int).push(kv_views(s@)[i as int]));
        i = i + 1;
    }
    assert(kv_views(s@).take(s.len() as int) == kv_views(s@));
    out
}

} // verus!

use vstd::prelude::*;
use crate::text::{has_prefix, has_suffix};

verus! {

/// A snapshot file's name: `snapshot_` then anything, ending in `.json`.
pub open spec fn is_snapshot_name(n: Seq<char>) -> bool {
    &&& "snapshot_"@.len() <= n.len() && n.take("snapshot_"@.len() as int) == "snapshot_"@
    &&& ".json"@.len() <= n.len() && n.skip(n.len() - ".json"@.len()) == ".json"@
}

/// File `j` comes before file `i` when the files are ordered newest first, equal
/// times keeping their listed order.
pub open spec fn ranked_before(files: Seq<(Seq<char>, u64)>, j: int, i: int) -> bool {
    files[j].1 > files[i].1 || (files[j].1 == files[i].1 && j < i)
}

/// Number of snapshot files among the first `n` that come before file `i`.
pub open spec fn newer_count(files: Seq<(Seq<char>, u64)>, i: int, n: int) -> nat
    decreases n,
{
    if n <= 0 {
        0
    } else {
        newer_count(files, i, n - 1) + if is_snapshot_name(files[n - 1].0) && ranked_before(files, n - 1, i) {
            1nat
        } else {
            0nat
        }
    }
}

/// File `i` goes: it is a snapshot and at least `keep_count` snapshots are newer.
pub open spec fn snapshot_removed(files: Seq<(Seq<char>, u64)>, keep_count: usize, i: int) -> bool {
    is_snapshot_name(files[i].0) && newer_count(files, i, files.len() as int) >= keep_count
}

/// Names of the files among the first `n` that go, in listed order.
pub open spec fn removed_names(files: Seq<(Seq<char>, u64)>, keep_count: usize, n: int) -> Seq<Seq<char>>
    decreases n,
{
    if n <= 0 {
        Seq::empty()
    } else {
        let rest = removed_names(files, keep_count, n - 1);
        if snapshot_removed(files, keep_count, n - 1) {
            rest.push(files[n - 1].0)
        } else {
            rest
        }
    }
}

pub open spec fn file_views(files: Seq<(String, u64)>) -> Seq<(Seq<char>, u64)> {
    files.map_values(|f: (String, u64)| (f.0@, f.1))
}

fn snapshot_name(name: &String) -> (r: bool)
    ensures
        r == is_snapshot_name(name@),
{
    proof {
        reveal_strlit("snapshot_");
        reveal_strlit(".json");
    }
    has_prefix(name.as_str(), "snapshot_") && has_suffix(name.as_str(), ".json")
}

/// The snapshot files to delete so that the `keep_count` newest stay: among the
/// files (name, modification time), those whose name is `snapshot_*.json` and that
/// have `keep_count` or more newer snapshots (equal times keep their listed order),
/// in listed order.
pub fn snapshots_to_remove(files: &Vec<(String, u64)>, keep_count: usize) -> (r: Vec<String>)
    ensures
        r@.map_values(|s: String| s@) == removed_names(file_views(files@), keep_count, files@.len() as int),
{
    let ghost fv = file_views(files@);
    let n = files.len();
    let mut is_snap: Vec<bool> = Vec::new();
    let mut k: usize = 0;
    while k < n
        invariant
            k <= n,
            n == files.len(),
            fv == file_views(files@),
            is_snap@.len() == k,
            forall|j: int| 0 <= j < k ==> is_snap@[j] == is_snapshot_name(#[trigger] fv[j].0),
        decreases n - k,
    {
        let b = snapshot_name(&files[k].0);
        is_snap.push(b);
        k = k + 1;
    }
    let mut out: Vec<String> = Vec::new();
    let mut i: usize = 0;
    while i < n
        invariant
            i <= n,
            n == files.len(),
            fv == file_views(files@),
            is_snap@.len() == n,
            forall|j: int| 0 <= j < n ==> is_snap@[j] == is_snapshot_name(#[trigger] fv[j].0),
            out@.map_values(|s: String| s@) == removed_names(fv, keep_count, i as int),
        decreases n - i,
    {
        let mut c: usize = 0;
        let mut j: usize = 0;
        while j < n
            invariant
                j <= n,
                i < n,
                n == files.len(),
                fv == file_views(files@),
                is_snap@.len() == n,
                forall|x: int| 0 <= x < n ==> is_snap@[x] == is_snapshot_name(#[trigger] fv[x].0),
                c == newer_count(fv, i as int, j as int),
                c <= j,
            decreases n - j,
        {
            if is_snap[j] && (files[j].1 > files[i].1 || (files[j].1 == files[i].1 && j < i)) {
                c = c + 1;
            }
            j = j + 1;
        }
        let ghost before = out@;
        if is_snap[i] && c >= keep_count {
            out.push(files[i].0.clone());
            assert(out@.map_values(|s: String| s@) =~= before.map_values(|s: String| s@).push(fv[i as int].0));
        }
        i = i + 1;
    }
    out
}

} // verus!

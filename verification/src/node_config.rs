use vstd::prelude::*;

verus! {

/// Unicode `White_Space` characters: those that `str::trim` takes away.
pub open spec fn is_white(c: char) -> bool {
    let n = c as u32;
    ||| 9 <= n <= 13
    ||| n == 32
    ||| n == 0x85
    ||| n == 0xa0
    ||| n == 0x1680
    ||| 0x2000 <= n <= 0x200a
    ||| n == 0x2028
    ||| n == 0x2029
    ||| n == 0x202f
    ||| n == 0x205f
    ||| n == 0x3000
}

/// `s` without its leading white space.
pub open spec fn trim_start(s: Seq<char>) -> Seq<char>
    decreases s.len(),
{
    if s.len() > 0 && is_white(s[0]) {
        trim_start(s.drop_first())
    } else {
        s
    }
}

/// `s` without its trailing white space.
pub open spec fn trim_end(s: Seq<char>) -> Seq<char>
    decreases s.len(),
{
    if s.len() > 0 && is_white(s.last()) {
        trim_end(s.drop_last())
    } else {
        s
    }
}

/// `s` without white space at either end.
pub open spec fn trimmed(s: Seq<char>) -> Seq<char> {
    trim_end(trim_start(s))
}

/// The pieces of `s` between the occurrences of `sep`, as `str::split` gives them
/// (an empty text gives one empty piece).
pub open spec fn split_on(s: Seq<char>, sep: char) -> Seq<Seq<char>>
    decreases s.len(),
{
    if s.len() == 0 {
        seq![Seq::<char>::empty()]
    } else {
        let rest = split_on(s.drop_last(), sep);
        if s.last() == sep {
            rest.push(Seq::<char>::empty())
        } else {
            rest.update(rest.len() - 1, rest.last().push(s.last()))
        }
    }
}

/// `i` is the position of the first `=` in `s`.
pub open spec fn first_eq(s: Seq<char>, i: int) -> bool {
    &&& 0 <= i < s.len()
    &&& s[i] == '='
    &&& forall|j: int| 0 <= j < i ==> s[j] != '='
}

/// One entry of a peer list.
#[derive(Clone, Debug, PartialEq, Eq)]
pub enum PeerEntry {
    /// `id=addr`, both trimmed.
    Peer { peer_id: String, peer_addr: String },
    /// An entry without `=`.
    Malformed { entry: String },
}

/// Abstract peer list entry.
pub enum PeerEntryView {
    Peer { peer_id: Seq<char>, peer_addr: Seq<char> },
    Malformed { entry: Seq<char> },
}

impl View for PeerEntry {
    type V = PeerEntryView;

    open spec fn view(&self) -> PeerEntryView {
        match self {
            PeerEntry::Peer { peer_id, peer_addr } => PeerEntryView::Peer { peer_id: peer_id@, peer_addr: peer_addr@ },
            PeerEntry::Malformed { entry } => PeerEntryView::Malformed { entry: entry@ },
        }
    }
}

/// What a non-empty piece of a peer list stands for: split at its first `=` with
/// both sides trimmed, or malformed when it has none.
pub open spec fn peer_entry_of(piece: Seq<char>) -> PeerEntryView {
    if exists|i: int| first_eq(piece, i) {
        let i = choose|i: int| first_eq(piece, i);
        PeerEntryView::Peer { peer_id: trimmed(piece.take(i)), peer_addr: trimmed(piece.skip(i + 1)) }
    } else {
        PeerEntryView::Malformed { entry: piece }
    }
}

/// The entries of the non-empty pieces, in order.
pub open spec fn peer_entries(pieces: Seq<Seq<char>>) -> Seq<PeerEntryView>
    decreases pieces.len(),
{
    if pieces.len() == 0 {
        Seq::empty()
    } else {
        let rest = peer_entries(pieces.drop_last());
        if pieces.last().len() == 0 {
            rest
        } else {
            rest.push(peer_entry_of(pieces.last()))
        }
    }
}

/// Views of peer list entries.
pub open spec fn peer_entry_views(v: Seq<PeerEntry>) -> Seq<PeerEntryView> {
    v.map_values(|e: PeerEntry| e@)
}

/// Value of a decimal digit, 0 for any other character.
pub open spec fn digit_value(c: char) -> nat {
    if 48 <= c as u32 <= 57 {
        (c as u32 - 48) as nat
    } else {
        0
    }
}

/// `c` is one of `0` to `9`.
pub open spec fn is_digit(c: char) -> bool {
    48 <= c as u32 <= 57
}

/// Value of a text of decimal digits.
pub open spec fn digits_value(s: Seq<char>) -> nat
    decreases s.len(),
{
    if s.len() == 0 {
        0
    } else {
        digits_value(s.drop_last()) * 10 + digit_value(s.last())
    }
}

/// The digits of an unsigned number: the text after an optional leading `+`.
pub open spec fn unsigned_digits(s: Seq<char>) -> Seq<char> {
    if s.len() > 0 && s[0] == '+' {
        s.drop_first()
    } else {
        s
    }
}

/// What `str::parse::<usize>` gives: the value when the text is an optional `+`
/// then at least one decimal digit, and the value fits.
pub open spec fn parsed_usize(s: Seq<char>) -> Option<usize> {
    let d = unsigned_digits(s);
    if d.len() > 0 && (forall|i: int| 0 <= i < d.len() ==> is_digit(#[trigger] d[i])) && digits_value(d)
        <= usize::MAX {
        Some(digits_value(d) as usize)
    } else {
        None
    }
}

fn white(c: char) -> (r: bool)
    ensures
        r == is_white(c),
{
    let n = c as u32;
    (9 <= n && n <= 13) || n == 32 || n == 0x85 || n == 0xa0 || n == 0x1680 || (0x2000 <= n && n <= 0x200a)
        || n == 0x2028 || n == 0x2029 || n == 0x202f || n == 0x205f || n == 0x3000
}

proof fn lemma_split_nonempty(s: Seq<char>, sep: char)
    ensures
        split_on(s, sep).len() >= 1,
    decreases s.len(),
{
    if s.len() > 0 {
        lemma_split_nonempty(s.drop_last(), sep);
    }
}

proof fn lemma_digits_grow(s: Seq<char>, i: int)
    requires
        0 <= i <= s.len(),
    ensures
        digits_value(s.take(i)) <= digits_value(s),
    decreases s.len() - i,
{
    if i < s.len() {
        lemma_digits_grow(s, i + 1);
        assert(s.take(i + 1).drop_last() == s.take(i));
    } else {
        assert(s.take(i) == s);
    }
}

/// The characters of `chars[from..to]` with white space trimmed at both ends.
fn trimmed_string(chars: &Vec<char>, from: usize, to: usize) -> (r: String)
    requires
        from <= to <= chars.len(),
    ensures
        r@ == trimmed(chars@.subrange(from as int, to as int)),
{
    let ghost s = chars@.subrange(from as int, to as int);
    let mut a = from;
    while a < to && white(chars[a])
        invariant
            from <= a <= to <= chars.len(),
            s == chars@.subrange(from as int, to as int),
            trim_start(s) == trim_start(chars@.subrange(a as int, to as int)),
        decreases to - a,
    {
        let ghost t = chars@.subrange(a as int, to as int);
        assert(t.drop_first() == chars@.subrange(a as int + 1, to as int));
        a = a + 1;
    }
    assert(trim_start(s) == chars@.subrange(a as int, to as int));
    let mut b = to;
    while b > a && white(chars[b - 1])
        invariant
            from <= a <= b <= to <= chars.len(),
            trimmed(s) == trim_end(chars@.subrange(a as int, b as int)),
        decreases b - a,
    {
        let ghost t = chars@.subrange(a as int, b as int);
        assert(t.drop_last() == chars@.subrange(a as int, b as int - 1));
        b = b - 1;
    }
    assert(trimmed(s) == chars@.subrange(a as int, b as int));
    let mut out = String::new();
    let mut k = a;
    while k < b
        invariant
            a <= k <= b <= chars.len(),
            out@ == chars@.subrange(a as int, k as int),
        decreases b - k,
    {
        out.push(chars[k]);
        assert(chars@.subrange(a as int, k as int + 1) == chars@.subrange(a as int, k as int).push(chars@[k as int]));
        k = k + 1;
    }
    out
}

fn chars_of(s: &str) -> (r: Vec<char>)
    ensures
        r@ == s@,
{
    let n = s.unicode_len();
    let mut out: Vec<char> = Vec::new();
    let mut i: usize = 0;
    while i < n
        invariant
            i <= n,
            n == s@.len(),
            out@ == s@.take(i as int),
        decreases n - i,
    {
        out.push(s.get_char(i));
        assert(s@.take(i as int + 1) == s@.take(i as int).push(s@[i as int]));
        i = i + 1;
    }
    assert(s@.take(n as int) == s@);
    out
}

/// The entry that the piece `chars[from..to]` (not empty) stands for.
fn entry_of_piece(chars: &Vec<char>, from: usize, to: usize) -> (r: PeerEntry)
    requires
        from < to <= chars.len(),
    ensures
        r@ == peer_entry_of(chars@.subrange(from as int, to as int)),
{
    let ghost p = chars@.subrange(from as int, to as int);
    let mut i = from;
    while i < to && chars[i] != '='
        invariant
            from <= i <= to <= chars.len(),
            p == chars@.subrange(from as int, to as int),
            forall|j: int| 0 <= j < i - from ==> p[j] != '=',
        decreases to - i,
    {
        assert(p[i - from] == chars@[i as int]);
        i = i + 1;
    }
    if i < to {
        let ghost k = i - from;
        assert(first_eq(p, k));
        assert forall|m: int| first_eq(p, m) implies m == k by {
            if m < k {
                assert(p[m] != '=');
            } else if m > k {
                assert(p[k] == '=');
            }
        }
        assert(p.take(k) == chars@.subrange(from as int, i as int));
        assert(p.skip(k + 1) == chars@.subrange(i as int + 1, to as int));
        let peer_id = trimmed_string(chars, from, i);
        let peer_addr = trimmed_string(chars, i + 1, to);
        PeerEntry::Peer { peer_id, peer_addr }
    } else {
        assert forall|m: int| !first_eq(p, m) by {
            if 0 <= m < p.len() {
                assert(p[m] != '=');
            }
        }
        let mut entry = String::new();
        let mut k = from;
        while k < to
            invariant
                from <= k <= to <= chars.len(),
                entry@ == chars@.subrange(from as int, k as int),
            decreases to - k,
        {
            entry.push(chars[k]);
            assert(chars@.subrange(from as int, k as int + 1) == chars@.subrange(from as int, k as int).push(
                chars@[k as int],
            ));
            k = k + 1;
        }
        PeerEntry::Malformed { entry }
    }
}

/// Read a peer list of the form `id=addr,id=addr`: the text is cut at each `,`,
/// empty pieces are skipped, and each other piece is split at its first `=` with both
/// sides trimmed, or reported as malformed when it has no `=`.
pub fn parse_peers(s: &str) -> (r: Vec<PeerEntry>)
    ensures
        peer_entry_views(r@) == peer_entries(split_on(s@, ',')),
{
    let chars = chars_of(s);
    let n = chars.len();
    let mut out: Vec<PeerEntry> = Vec::new();
    let mut start: usize = 0;
    let mut i: usize = 0;
    proof {
        reveal_with_fuel(split_on, 1);
        assert(chars@.take(0) =~= Seq::<char>::empty());
        assert(peer_entries(split_on(chars@.take(0), ',').drop_last()) == Seq::<PeerEntryView>::empty()) by {
            assert(split_on(chars@.take(0), ',').drop_last() =~= Seq::<Seq<char>>::empty());
        }
    }
    while i < n
        invariant
            n == chars.len(),
            chars@ == s@,
            start <= i <= n,
            split_on(chars@.take(i as int), ',').len() >= 1,
            split_on(chars@.take(i as int), ',').last() == chars@.subrange(start as int, i as int),
            peer_entry_views(out@) == peer_entries(split_on(chars@.take(i as int), ',').drop_last()),
        decreases n - i,
    {
        let ghost pre = split_on(chars@.take(i as int), ',');
        let ghost t = chars@.take(i as int + 1);
        assert(t.drop_last() == chars@.take(i as int));
        assert(t.last() == chars@[i as int]);
        if chars[i] == ',' {
            let ghost post = pre.push(Seq::<char>::empty());
            assert(split_on(t, ',') == post);
            assert(post.drop_last() == pre);
            assert(pre == pre.drop_last().push(pre.last()));
            if start < i {
                let e = entry_of_piece(&chars, start, i);
                out.push(e);
            }
            proof {
                assert(peer_entry_views(out@) =~= peer_entries(pre));
            }
            start = i + 1;
        } else {
            let ghost post = pre.update(pre.len() - 1, pre.last().push(chars@[i as int]));
            assert(split_on(t, ',') == post);
            assert(post.drop_last() =~= pre.drop_last());
            assert(post.last() =~= chars@.subrange(start as int, i as int + 1));
            proof {
                lemma_split_nonempty(t, ',');
            }
        }
        i = i + 1;
    }
    assert(chars@.take(n as int) == chars@);
    let ghost all = split_on(chars@, ',');
    assert(all == all.drop_last().push(all.last()));
    if start < n {
        let e = entry_of_piece(&chars, start, n);
        out.push(e);
    }
    assert(peer_entry_views(out@) =~= peer_entries(all));
    out
}

/// Read an unsigned number as `str::parse::<usize>` does: an optional `+` then
/// decimal digits, refused when empty, when another character occurs, or when the
/// value does not fit.
pub fn parse_usize(s: &str) -> (r: Option<usize>)
    ensures
        r == parsed_usize(s@),
{
    let chars = chars_of(s);
    let n = chars.len();
    let start: usize = if n > 0 && chars[0] == '+' { 1 } else { 0 };
    let ghost d = unsigned_digits(s@);
    assert(d == chars@.subrange(start as int, n as int));
    if start == n {
        return None;
    }
    let mut value: usize = 0;
    let mut i = start;
    while i < n
        invariant
            start <= i <= n,
            n == chars.len(),
            d == chars@.subrange(start as int, n as int),
            d == unsigned_digits(s@),
            d.len() > 0,
            value == digits_value(d.take(i - start)),
            forall|j: int| 0 <= j < i - start ==> is_digit(#[trigger] d[j]),
        decreases n - i,
    {
        let c = chars[i];
        assert(d[i - start] == c);
        assert(d.take(i - start + 1).drop_last() == d.take(i - start));
        let code = c as u32;
        if !(48 <= code && code <= 57) {
            assert(!is_digit(d[i - start]));
            return None;
        }
        let dv = (code - 48) as usize;
        assert(d.take(i - start + 1).last() == c);
        assert(digits_value(d.take(i - start + 1)) == value * 10 + dv);
        let next = match value.checked_mul(10) {
            Some(v) => v.checked_add(dv),
            None => None,
        };
        match next {
            Some(v) => {
                value = v;
            },
            None => {
                proof {
                    lemma_digits_grow(d, i - start + 1);
                }
                assert(digits_value(d) > usize::MAX);
                return None;
            },
        }
        i = i + 1;
    }
    assert(d.take(n - start) == d);
    Some(value)
}

} // verus!

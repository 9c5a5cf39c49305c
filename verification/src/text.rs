//! Text as sequences of characters: searching, splitting, joining and
//! filtering, with executable counterparts on `Vec<char>`, `&str` and `String`.

use vstd::prelude::*;
use vstd::string::StringExecFns;

verus! {

/// `String::push` of the standard library: the character is appended at the end
/// and nothing else changes.
pub assume_specification[ String::push ](s: &mut String, c: char)
    ensures
        final(s)@ == old(s)@.push(c),
;

/// `pat` stands in `s` at position `at`.
pub open spec fn occurs_at(s: Seq<char>, pat: Seq<char>, at: int) -> bool {
    0 <= at && at + pat.len() <= s.len() && s.subrange(at, at + pat.len()) == pat
}

/// `s` begins with `pat`.
pub open spec fn begins_with(s: Seq<char>, pat: Seq<char>) -> bool {
    occurs_at(s, pat, 0)
}

/// `s` ends with `pat`.
pub open spec fn finishes_with(s: Seq<char>, pat: Seq<char>) -> bool {
    occurs_at(s, pat, s.len() - pat.len())
}

/// The least position at or after `from` where `pat` stands in `s`, if any.
pub open spec fn find_from(s: Seq<char>, pat: Seq<char>, from: int) -> Option<int>
    decreases s.len() + 1 - from,
{
    if from < 0 || from + pat.len() > s.len() {
        None
    } else if occurs_at(s, pat, from) {
        Some(from)
    } else {
        find_from(s, pat, from + 1)
    }
}

/// `pat` stands somewhere in `s`.
pub open spec fn includes(s: Seq<char>, pat: Seq<char>) -> bool {
    find_from(s, pat, 0) is Some
}

/// The least position at or after `from` that holds `c`, or the length of `s`
/// where there is none.
pub open spec fn position_of(s: Seq<char>, c: char, from: int) -> int
    decreases s.len() - from,
{
    if from < 0 || from >= s.len() {
        s.len() as int
    } else if s[from] == c {
        from
    } else {
        position_of(s, c, from + 1)
    }
}

/// The pieces of `s` from position `from` on, cut at every `sep`.
pub open spec fn pieces_from(s: Seq<char>, sep: char, from: int) -> Seq<Seq<char>>
    decreases s.len() - from,
{
    if from < 0 || from > s.len() {
        Seq::empty()
    } else {
        let end = position_of(s, sep, from);
        if from <= end < s.len() {
            seq![s.subrange(from, end)] + pieces_from(s, sep, end + 1)
        } else {
            seq![s.subrange(from, s.len() as int)]
        }
    }
}

/// The pieces of `s`, cut at every `sep`: one more than there are separators.
pub open spec fn pieces(s: Seq<char>, sep: char) -> Seq<Seq<char>> {
    pieces_from(s, sep, 0)
}

/// The parts in order with `sep` between neighbours.
pub open spec fn joined(parts: Seq<Seq<char>>, sep: char) -> Seq<char>
    decreases parts.len(),
{
    if parts.len() == 0 {
        Seq::empty()
    } else if parts.len() == 1 {
        parts[0]
    } else {
        parts[0] + seq![sep] + joined(parts.drop_first(), sep)
    }
}

/// The lower-case form of an ASCII capital; any other character unchanged.
pub open spec fn lower(c: char) -> char {
    if 'A' <= c && c <= 'Z' {
        ((c as u8) + 32) as char
    } else {
        c
    }
}

/// `s` with every ASCII capital in lower case.
pub open spec fn lowered(s: Seq<char>) -> Seq<char> {
    Seq::new(s.len(), |i: int| lower(s[i]))
}

/// `s` without the characters equal to `c`.
pub open spec fn without(s: Seq<char>, c: char) -> Seq<char>
    decreases s.len(),
{
    if s.len() == 0 {
        s
    } else if s.last() == c {
        without(s.drop_last(), c)
    } else {
        without(s.drop_last(), c).push(s.last())
    }
}

/// What `position_of` returns: where it lies, and that nothing before it holds `c`.
pub proof fn lemma_position_of(s: Seq<char>, c: char, from: int)
    requires
        0 <= from <= s.len(),
    ensures
        from <= position_of(s, c, from) <= s.len(),
        position_of(s, c, from) < s.len() ==> s[position_of(s, c, from)] == c,
        forall|j: int| from <= j < position_of(s, c, from) ==> s[j] != c,
    decreases s.len() - from,
{
    if from < s.len() && s[from] != c {
        lemma_position_of(s, c, from + 1);
    }
}

/// A text without `sep` is its own single piece.
pub proof fn lemma_pieces_of_plain(s: Seq<char>, sep: char, from: int)
    requires
        0 <= from <= s.len(),
        forall|j: int| from <= j < s.len() ==> s[j] != sep,
    ensures
        pieces_from(s, sep, from) == seq![s.subrange(from, s.len() as int)],
{
    lemma_position_of(s, sep, from);
}

/// Cutting depends only on the text from `from` on.
pub proof fn lemma_pieces_shift(s: Seq<char>, sep: char, from: int, lead: Seq<char>)
    requires
        0 <= from <= s.len(),
    ensures
        pieces_from(lead + s, sep, lead.len() + from) == pieces_from(s, sep, from),
    decreases s.len() - from,
{
    let t = lead + s;
    let n = lead.len() as int;
    lemma_position_of(s, sep, from);
    lemma_position_of(t, sep, n + from);
    let end = position_of(s, sep, from);
    let tend = position_of(t, sep, n + from);
    assert forall|j: int| from <= j < s.len() implies t[n + j] == s[j] by {}
    if end < s.len() {
        assert(t[n + end] == sep);
        if tend < n + end {
            assert(t[n + (tend - n)] == s[tend - n]);
        }
        assert(tend == n + end);
        assert(t.subrange(n + from, tend) =~= s.subrange(from, end));
        lemma_pieces_shift(s, sep, end + 1, lead);
    } else {
        if tend < t.len() {
            assert(t[n + (tend - n)] == s[tend - n]);
        }
        assert(tend == t.len());
        assert(t.subrange(n + from, t.len() as int) =~= s.subrange(from, s.len() as int));
    }
}

/// Cutting what was joined gives the parts back, where no part holds the separator.
pub proof fn lemma_pieces_of_joined(parts: Seq<Seq<char>>, sep: char)
    requires
        parts.len() >= 1,
        forall|i: int, j: int| 0 <= i < parts.len() && 0 <= j < parts[i].len() ==> parts[i][j] != sep,
    ensures
        pieces(joined(parts, sep), sep) == parts,
    decreases parts.len(),
{
    let s = joined(parts, sep);
    if parts.len() == 1 {
        lemma_pieces_of_plain(s, sep, 0);
        assert(s.subrange(0, s.len() as int) =~= s);
        assert(seq![parts[0]] =~= parts);
    } else {
        let head = parts[0];
        let rest = parts.drop_first();
        let tail = joined(rest, sep);
        assert forall|i: int, j: int| 0 <= i < rest.len() && 0 <= j < rest[i].len() implies rest[i][j]
            != sep by {
            assert(rest[i] == parts[i + 1]);
        }
        lemma_pieces_of_joined(rest, sep);
        let lead = head + seq![sep];
        assert(s =~= lead + tail);
        lemma_position_of(s, sep, 0);
        let end = position_of(s, sep, 0);
        assert(s[head.len() as int] == sep);
        assert forall|j: int| 0 <= j < head.len() implies s[j] != sep by {
            assert(s[j] == head[j]);
        }
        assert(end == head.len());
        assert(s.subrange(0, end) =~= head);
        lemma_pieces_shift(tail, sep, 0, lead);
        assert(pieces_from(s, sep, end + 1) == rest);
        assert(seq![head] + rest =~= parts);
    }
}

/// The characters of `s`, in order.
pub fn chars_of(s: &str) -> (v: Vec<char>)
    ensures
        v@ == s@,
{
    let mut v: Vec<char> = Vec::new();
    for c in it: s.chars()
        invariant
            v@ == it.seq().take(it.index() as int),
            it.seq() == s@,
    {
        v.push(c);
    }
    v
}

/// The characters of `v` between `from` and `to`, as a `String`.
pub fn substring(v: &Vec<char>, from: usize, to: usize) -> (s: String)
    requires
        from <= to <= v.len(),
    ensures
        s@ == v@.subrange(from as int, to as int),
{
    let mut s = String::new();
    let mut i: usize = from;
    while i < to
        invariant
            from <= i <= to <= v.len(),
            s@ == v@.subrange(from as int, i as int),
        decreases to - i,
    {
        s.push(v[i]);
        i += 1;
    }
    s
}

/// The characters of `v` as a `String`.
pub fn string_of(v: &Vec<char>) -> (s: String)
    ensures
        s@ == v@,
{
    let s = substring(v, 0, v.len());
    assert(v@.subrange(0, v.len() as int) =~= v@);
    s
}

/// The characters of `v` between `from` and `to`.
pub fn subvec(v: &Vec<char>, from: usize, to: usize) -> (r: Vec<char>)
    requires
        from <= to <= v.len(),
    ensures
        r@ == v@.subrange(from as int, to as int),
{
    let mut r: Vec<char> = Vec::new();
    let mut i: usize = from;
    while i < to
        invariant
            from <= i <= to <= v.len(),
            r@ == v@.subrange(from as int, i as int),
        decreases to - i,
    {
        r.push(v[i]);
        i += 1;
    }
    r
}

/// Whether `pat` stands in `s` at position `at`.
pub fn matches_at(s: &Vec<char>, at: usize, pat: &Vec<char>) -> (r: bool)
    ensures
        r == occurs_at(s@, pat@, at as int),
{
    if pat.len() > s.len() || at > s.len() - pat.len() {
        return false;
    }
    let mut k: usize = 0;
    while k < pat.len()
        invariant
            k <= pat.len(),
            at + pat.len() <= s.len(),
            forall|j: int| 0 <= j < k ==> s@[at + j] == pat@[j],
        decreases pat.len() - k,
    {
        if s[at + k] != pat[k] {
            assert(s@.subrange(at as int, at + pat.len())[k as int] == s@[at + k]);
            return false;
        }
        k += 1;
    }
    assert(s@.subrange(at as int, at + pat.len()) =~= pat@);
    true
}

/// Whether two texts hold the same characters.
pub fn same_chars(a: &Vec<char>, b: &Vec<char>) -> (r: bool)
    ensures
        r == (a@ == b@),
{
    if a.len() != b.len() {
        return false;
    }
    let r = matches_at(a, 0, b);
    assert(a@.subrange(0, a.len() as int) =~= a@);
    r
}

/// The first position at or after `from` where `pat` stands in `s`.
pub fn find(s: &Vec<char>, pat: &Vec<char>, from: usize) -> (r: Option<usize>)
    ensures
        match r {
            Some(at) => find_from(s@, pat@, from as int) == Some(at as int),
            None => find_from(s@, pat@, from as int) is None,
        },
{
    if from > s.len() {
        return None;
    }
    let mut i: usize = from;
    while i < s.len()
        invariant
            from <= i <= s.len(),
            find_from(s@, pat@, from as int) == find_from(s@, pat@, i as int),
        decreases s.len() - i,
    {
        if matches_at(s, i, pat) {
            return Some(i);
        }
        assert(find_from(s@, pat@, i as int) == find_from(s@, pat@, i + 1));
        i += 1;
    }
    assert(find_from(s@, pat@, i + 1) is None);
    if matches_at(s, i, pat) {
        Some(i)
    } else {
        None
    }
}

/// The first position at or after `from` that holds `c`, or the length of `s`.
pub fn position(s: &Vec<char>, c: char, from: usize) -> (r: usize)
    ensures
        r == position_of(s@, c, from as int),
{
    let mut i: usize = from;
    while i < s.len()
        invariant
            from <= i,
            position_of(s@, c, from as int) == position_of(s@, c, i as int),
        decreases s.len() - i,
    {
        if s[i] == c {
            return i;
        }
        i += 1;
    }
    s.len()
}

/// Whether `s` begins with `pat`.
pub fn starts_with(s: &str, pat: &str) -> (r: bool)
    ensures
        r == begins_with(s@, pat@),
{
    let sv = chars_of(s);
    let pv = chars_of(pat);
    matches_at(&sv, 0, &pv)
}

/// Whether `s` ends with `pat`.
pub fn ends_with(s: &str, pat: &str) -> (r: bool)
    ensures
        r == finishes_with(s@, pat@),
{
    let sv = chars_of(s);
    let pv = chars_of(pat);
    if pv.len() > sv.len() {
        return false;
    }
    matches_at(&sv, sv.len() - pv.len(), &pv)
}

/// Whether `pat` stands somewhere in `s`.
pub fn contains(s: &str, pat: &str) -> (r: bool)
    ensures
        r == includes(s@, pat@),
{
    let sv = chars_of(s);
    let pv = chars_of(pat);
    find(&sv, &pv, 0).is_some()
}

/// The lower-case form of an ASCII capital; any other character unchanged.
pub fn to_lower(c: char) -> (r: char)
    ensures
        r == lower(c),
{
    if 'A' <= c && c <= 'Z' {
        ((c as u8) + 32) as char
    } else {
        c
    }
}

/// `s` with every ASCII capital in lower case.
pub fn lowercase(s: &Vec<char>) -> (r: Vec<char>)
    ensures
        r@ == lowered(s@),
{
    let mut r: Vec<char> = Vec::new();
    let mut i: usize = 0;
    while i < s.len()
        invariant
            i <= s.len(),
            r@ == lowered(s@).take(i as int),
        decreases s.len() - i,
    {
        r.push(to_lower(s[i]));
        assert(r@ =~= lowered(s@).take(i + 1));
        i += 1;
    }
    assert(lowered(s@).take(s.len() as int) =~= lowered(s@));
    r
}

/// `s` without the characters equal to `c`.
pub fn remove_char(s: &str, c: char) -> (r: String)
    ensures
        r@ == without(s@, c),
{
    let v = chars_of(s);
    let mut r = String::new();
    let mut i: usize = 0;
    assert(v@.take(0) =~= Seq::<char>::empty());
    while i < v.len()
        invariant
            i <= v.len(),
            r@ == without(v@.take(i as int), c),
        decreases v.len() - i,
    {
        assert(v@.take(i + 1).drop_last() =~= v@.take(i as int));
        if v[i] != c {
            r.push(v[i]);
        }
        i += 1;
    }
    assert(v@.take(v.len() as int) =~= v@);
    r
}

/// The pieces of `s`, cut at every `sep`.
pub fn split(s: &Vec<char>, sep: char) -> (r: Vec<String>)
    ensures
        r.deep_view() == pieces(s@, sep),
{
    let mut r: Vec<String> = Vec::new();
    let mut from: usize = 0;
    assert(r.deep_view() =~= Seq::<Seq<char>>::empty());
    loop
        invariant
            from <= s.len(),
            r.deep_view() + pieces_from(s@, sep, from as int) == pieces(s@, sep),
        decreases s.len() - from,
    {
        let end = position(s, sep, from);
        proof {
            lemma_position_of(s@, sep, from as int);
        }
        let ghost before = r.deep_view();
        let piece = substring(s, from, end);
        r.push(piece);
        assert(r.deep_view() =~= before.push(s@.subrange(from as int, end as int)));
        if end < s.len() {
            assert(before.push(s@.subrange(from as int, end as int)) + pieces_from(s@, sep, end + 1)
                =~= before + pieces_from(s@, sep, from as int));
            from = end + 1;
        } else {
            assert(before.push(s@.subrange(from as int, end as int)) =~= before + pieces_from(
                s@,
                sep,
                from as int,
            ));
            return r;
        }
    }
}

/// The parts in order with `sep` between neighbours.
pub fn join(parts: &Vec<String>, sep: char) -> (r: String)
    ensures
        r@ == joined(parts.deep_view(), sep),
{
    let mut r = String::new();
    let mut i: usize = 0;
    let ghost all = parts.deep_view();
    assert(all.skip(0) =~= all);
    while i < parts.len()
        invariant
            i <= parts.len(),
            all == parts.deep_view(),
            r@ + joined(all.skip(i as int), sep) == joined(all, sep),
        decreases parts.len() - i,
    {
        let ghost before = r@;
        let ghost rest = all.skip(i as int);
        assert(rest[0] == parts@[i as int]@);
        assert(rest.drop_first() =~= all.skip(i + 1));
        r.append(parts[i].as_str());
        if i + 1 < parts.len() {
            r.push(sep);
            assert(r@ =~= before + (rest[0] + seq![sep]));
        }
        assert(r@ + joined(all.skip(i + 1), sep) =~= before + joined(rest, sep));
        i += 1;
    }
    assert(r@ + joined(all.skip(i as int), sep) =~= r@);
    r
}

} // verus!

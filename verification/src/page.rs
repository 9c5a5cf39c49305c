//! The icons that a page declares: its `link` tags with an icon relation, each
//! with the reference it names and the size it states.

use crate::text::{
    chars_of, find, includes, lemma_position_of, lowercase, lowered, matches_at, occurs_at,
    position, position_of, string_of, subvec,
};
use vstd::prelude::*;

verus! {

/// An icon that a page declares.
#[derive(Debug, PartialEq, Eq)]
pub struct DeclaredIcon {
    pub href: String,
    pub size: u32,
}

/// What a `DeclaredIcon` holds, as mathematical values.
pub struct DeclaredView {
    pub href: Seq<char>,
    pub size: nat,
}

impl View for DeclaredIcon {
    type V = DeclaredView;

    open spec fn view(&self) -> DeclaredView {
        DeclaredView { href: self.href@, size: self.size as nat }
    }
}

impl DeepView for DeclaredIcon {
    type V = DeclaredView;

    open spec fn deep_view(&self) -> DeclaredView {
        self@
    }
}

impl Clone for DeclaredIcon {
    fn clone(&self) -> (r: Self)
        ensures
            r@ == self@,
    {
        DeclaredIcon { href: self.href.clone(), size: self.size }
    }
}

/// No declared size counts for more than this.
pub const SIZE_LIMIT: u32 = 1000000;

/// The character separates the attributes of a tag.
pub open spec fn is_blank(c: char) -> bool {
    c == ' ' || c == '\t' || c == '\n' || c == '\r'
}

/// The first position at or after `from` that holds a blank, or the length.
pub open spec fn blank_from(s: Seq<char>, from: int) -> int
    decreases s.len() - from,
{
    if from < 0 || from >= s.len() {
        s.len() as int
    } else if is_blank(s[from]) {
        from
    } else {
        blank_from(s, from + 1)
    }
}

/// The value of a decimal digit, if the character is one.
pub open spec fn digit_value(c: char) -> Option<nat> {
    if c == '0' {
        Some(0)
    } else if c == '1' {
        Some(1)
    } else if c == '2' {
        Some(2)
    } else if c == '3' {
        Some(3)
    } else if c == '4' {
        Some(4)
    } else if c == '5' {
        Some(5)
    } else if c == '6' {
        Some(6)
    } else if c == '7' {
        Some(7)
    } else if c == '8' {
        Some(8)
    } else if c == '9' {
        Some(9)
    } else {
        None
    }
}

/// `n`, or the limit where it is beyond it.
pub open spec fn limited(n: nat) -> nat {
    if n > SIZE_LIMIT {
        SIZE_LIMIT as nat
    } else {
        n
    }
}

/// The number that the digits from `from` on spell after `so_far`, held to the
/// limit at every step.
pub open spec fn number_from(s: Seq<char>, from: int, so_far: nat) -> nat
    decreases s.len() - from,
{
    if 0 <= from < s.len() && digit_value(s[from]) is Some {
        number_from(s, from + 1, limited(so_far * 10 + digit_value(s[from])->0))
    } else {
        so_far
    }
}

/// The size that a `sizes` value states: the number it begins with, 0 where it
/// begins with none.
pub open spec fn stated_size(sizes: Option<Seq<char>>) -> nat {
    match sizes {
        Some(v) => number_from(v, 0, 0),
        None => 0,
    }
}

/// Where the value of an attribute begins: behind the first `start`, looking
/// from `from` on, that stands at the beginning or behind a blank.
pub open spec fn value_start(low: Seq<char>, start: Seq<char>, from: int) -> Option<int>
    decreases low.len() + 1 - from,
{
    if from < 0 || from + start.len() > low.len() {
        None
    } else if occurs_at(low, start, from) && (from == 0 || is_blank(low[from - 1])) {
        Some(from + start.len())
    } else {
        value_start(low, start, from + 1)
    }
}

/// The value that begins at `at`: between quotes where it opens with one, else
/// up to the next blank.
pub open spec fn value_at(tag: Seq<char>, at: int) -> Seq<char> {
    if at < 0 || at >= tag.len() {
        Seq::empty()
    } else if tag[at] == '"' || tag[at] == '\'' {
        tag.subrange(at + 1, position_of(tag, tag[at], at + 1))
    } else {
        tag.subrange(at, blank_from(tag, at))
    }
}

/// The value of the attribute that `start` opens, `start` being its name and
/// `=`, in the tag `tag` whose lower-case form is `low`.
pub open spec fn attribute(tag: Seq<char>, low: Seq<char>, start: Seq<char>) -> Option<Seq<char>> {
    match value_start(low, start, 0) {
        Some(at) => Some(value_at(tag, at)),
        None => None,
    }
}

/// The icon that a `link` tag declares, if it declares one: its relation names
/// an icon and it has a reference.
pub open spec fn icon_of_tag(tag: Seq<char>, low: Seq<char>) -> Option<DeclaredView> {
    let rel = attribute(low, low, "rel="@);
    let href = attribute(tag, low, "href="@);
    let sizes = attribute(low, low, "sizes="@);
    if rel is Some && includes(rel->0, "icon"@) && href is Some && href->0.len() > 0 {
        Some(DeclaredView { href: href->0, size: stated_size(sizes) })
    } else {
        None
    }
}

/// How a `link` tag opens, in lower case.
pub open spec fn link_open() -> Seq<char> {
    seq!['<', 'l', 'i', 'n', 'k']
}

/// A `link` tag opens at `at`: the name is followed by a blank, `/` or `>`, or
/// ends the text.
pub open spec fn link_at(low: Seq<char>, at: int) -> bool {
    occurs_at(low, link_open(), at) && (at + 5 == low.len() || is_blank(low[at + 5]) || low[at + 5]
        == '/' || low[at + 5] == '>')
}

/// The icons that the text declares from `from` on, `low` being its lower-case
/// form.
pub open spec fn icons_from(s: Seq<char>, low: Seq<char>, from: int) -> Seq<DeclaredView>
    decreases low.len() - from,
{
    if from < 0 || from >= low.len() || s.len() != low.len() {
        Seq::empty()
    } else if link_at(low, from) {
        let end = position_of(low, '>', from + 5);
        if from + 5 <= end <= low.len() {
            let found = icon_of_tag(s.subrange(from + 5, end), low.subrange(from + 5, end));
            let rest = icons_from(s, low, end);
            match found {
                Some(icon) => seq![icon] + rest,
                None => rest,
            }
        } else {
            Seq::empty()
        }
    } else {
        icons_from(s, low, from + 1)
    }
}

/// The icons that a page declares, in the order of its tags.
pub open spec fn icons_of(page: Seq<char>) -> Seq<DeclaredView> {
    icons_from(page, lowered(page), 0)
}

/// Whether the character separates the attributes of a tag.
pub fn blank(c: char) -> (r: bool)
    ensures
        r == is_blank(c),
{
    c == ' ' || c == '\t' || c == '\n' || c == '\r'
}

/// The first position at or after `from` that holds a blank, or the length.
pub fn next_blank(s: &Vec<char>, from: usize) -> (r: usize)
    ensures
        r == blank_from(s@, from as int),
        from <= s.len() ==> from <= r <= s.len(),
{
    let mut i: usize = from;
    while i < s.len()
        invariant
            from <= i,
            from <= s.len() ==> i <= s.len(),
            blank_from(s@, from as int) == blank_from(s@, i as int),
        decreases s.len() - i,
    {
        if blank(s[i]) {
            return i;
        }
        i += 1;
    }
    s.len()
}

/// The value of a decimal digit, if the character is one.
pub fn digit_of(c: char) -> (r: Option<u32>)
    ensures
        match r {
            Some(d) => digit_value(c) == Some(d as nat) && d < 10,
            None => digit_value(c) is None,
        },
{
    if c == '0' {
        Some(0)
    } else if c == '1' {
        Some(1)
    } else if c == '2' {
        Some(2)
    } else if c == '3' {
        Some(3)
    } else if c == '4' {
        Some(4)
    } else if c == '5' {
        Some(5)
    } else if c == '6' {
        Some(6)
    } else if c == '7' {
        Some(7)
    } else if c == '8' {
        Some(8)
    } else if c == '9' {
        Some(9)
    } else {
        None
    }
}

/// The number that a text begins with, held to the limit; 0 where it begins
/// with none.
pub fn leading_number(s: &Vec<char>) -> (r: u32)
    ensures
        r == number_from(s@, 0, 0),
{
    let mut n: u32 = 0;
    let mut i: usize = 0;
    while i < s.len()
        invariant
            i <= s.len(),
            n <= SIZE_LIMIT,
            number_from(s@, 0, 0) == number_from(s@, i as int, n as nat),
        decreases s.len() - i,
    {
        match digit_of(s[i]) {
            Some(d) => {
                let next: u32 = n * 10 + d;
                n = if next > SIZE_LIMIT {
                    SIZE_LIMIT
                } else {
                    next
                };
            },
            None => {
                return n;
            },
        }
        i += 1;
    }
    n
}

/// Where the value of the attribute that `start` opens begins.
pub fn find_value(low: &Vec<char>, start: &Vec<char>) -> (r: Option<usize>)
    ensures
        match r {
            Some(at) => value_start(low@, start@, 0) == Some(at as int) && at <= low.len(),
            None => value_start(low@, start@, 0) is None,
        },
{
    let mut i: usize = 0;
    while i < low.len()
        invariant
            i <= low.len(),
            value_start(low@, start@, 0) == value_start(low@, start@, i as int),
        decreases low.len() - i,
    {
        if matches_at(low, i, start) && (i == 0 || blank(low[i - 1])) {
            return Some(i + start.len());
        }
        assert(value_start(low@, start@, i as int) == value_start(low@, start@, i + 1));
        i += 1;
    }
    assert(value_start(low@, start@, i + 1) is None);
    if matches_at(low, i, start) && (i == 0 || blank(low[i - 1])) {
        Some(i + start.len())
    } else {
        None
    }
}

/// The value that begins at `at`.
pub fn read_value(tag: &Vec<char>, at: usize) -> (r: Vec<char>)
    ensures
        r@ == value_at(tag@, at as int),
{
    if at >= tag.len() {
        return Vec::new();
    }
    let opening = tag[at];
    if opening == '"' || opening == '\'' {
        let end = position(tag, opening, at + 1);
        proof {
            lemma_position_of(tag@, opening, at + 1);
        }
        subvec(tag, at + 1, end)
    } else {
        let end = next_blank(tag, at);
        subvec(tag, at, end)
    }
}

/// The value of the attribute that `start` opens.
pub fn read_attribute(tag: &Vec<char>, low: &Vec<char>, start: &str) -> (r: Option<Vec<char>>)
    ensures
        match r {
            Some(v) => attribute(tag@, low@, start@) == Some(v@),
            None => attribute(tag@, low@, start@) is None,
        },
{
    let pattern = chars_of(start);
    match find_value(low, &pattern) {
        Some(at) => Some(read_value(tag, at)),
        None => None,
    }
}

/// The icon that a `link` tag declares, if it declares one.
pub fn read_icon(tag: &Vec<char>, low: &Vec<char>) -> (r: Option<DeclaredIcon>)
    ensures
        r.deep_view() == icon_of_tag(tag@, low@),
{
    let rel = read_attribute(low, low, "rel=");
    let href = read_attribute(tag, low, "href=");
    let sizes = read_attribute(low, low, "sizes=");
    let size = match sizes {
        Some(v) => leading_number(&v),
        None => 0,
    };
    match (rel, href) {
        (Some(relation), Some(reference)) => {
            let word = chars_of("icon");
            if find(&relation, &word, 0).is_some() && reference.len() > 0 {
                Some(DeclaredIcon { href: string_of(&reference), size })
            } else {
                None
            }
        },
        _ => None,
    }
}

/// Whether a `link` tag opens at `at`.
pub fn opens_link(low: &Vec<char>, at: usize) -> (r: bool)
    ensures
        r == link_at(low@, at as int),
        r ==> at + 5 <= low.len(),
{
    let mut open: Vec<char> = Vec::new();
    open.push('<');
    open.push('l');
    open.push('i');
    open.push('n');
    open.push('k');
    assert(open@ =~= link_open());
    if !matches_at(low, at, &open) {
        return false;
    }
    assert(occurs_at(low@, open@, at as int));
    assert(at + 5 <= low.len());
    let after: usize = at + 5;
    if after == low.len() {
        return true;
    }
    let next = low[after];
    blank(next) || next == '/' || next == '>'
}

/// The icons that a page declares, in the order of its tags: every `link` tag
/// whose relation names an icon and that has a reference, with the size it
/// states.
pub fn declared_icons(page: &str) -> (r: Vec<DeclaredIcon>)
    ensures
        r.deep_view() == icons_of(page@),
{
    let s = chars_of(page);
    let low = lowercase(&s);
    let mut r: Vec<DeclaredIcon> = Vec::new();
    let mut i: usize = 0;
    assert(r.deep_view() =~= Seq::<DeclaredView>::empty());
    while i < low.len()
        invariant
            i <= low.len(),
            s.len() == low.len(),
            s@ == page@,
            low@ == lowered(page@),
            r.deep_view() + icons_from(s@, low@, i as int) == icons_of(page@),
        decreases low.len() - i,
    {
        if opens_link(&low, i) {
            let end = position(&low, '>', i + 5);
            proof {
                lemma_position_of(low@, '>', i + 5);
            }
            let tag = subvec(&s, i + 5, end);
            let low_tag = subvec(&low, i + 5, end);
            let ghost before = r.deep_view();
            let ghost rest = icons_from(s@, low@, end as int);
            match read_icon(&tag, &low_tag) {
                Some(icon) => {
                    let ghost found = icon@;
                    r.push(icon);
                    assert(r.deep_view() =~= before.push(found));
                    assert(before.push(found) + rest =~= before + (seq![found] + rest));
                },
                None => {},
            }
            i = end;
        } else {
            i += 1;
        }
    }
    assert(r.deep_view() + icons_from(s@, low@, i as int) =~= r.deep_view());
    r
}

} // verus!

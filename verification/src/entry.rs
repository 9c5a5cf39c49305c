//! The text of a launcher entry: a header line, then one `key=value` line per
//! field, every value escaped so that it stays on its line.

use crate::text::{begins_with, chars_of, join, joined, lemma_pieces_of_joined, matches_at, pieces};
use vstd::string::StringExecFns;
use vstd::prelude::*;

verus! {

/// How one character of a value is written.
pub open spec fn escape_one(c: char) -> Seq<char> {
    if c == '\\' {
        seq!['\\', '\\']
    } else if c == '\n' {
        seq!['\\', 'n']
    } else if c == '\r' {
        seq!['\\', 'r']
    } else {
        seq![c]
    }
}

/// A value as it is written: backslash, line feed and carriage return escaped.
pub open spec fn escaped(s: Seq<char>) -> Seq<char>
    decreases s.len(),
{
    if s.len() == 0 {
        Seq::empty()
    } else {
        escape_one(s[0]) + escaped(s.drop_first())
    }
}

/// The character that stands for `c` after a backslash.
pub open spec fn unescape_one(c: char) -> char {
    if c == 'n' {
        '\n'
    } else if c == 'r' {
        '\r'
    } else if c == 't' {
        '\t'
    } else if c == 's' {
        ' '
    } else {
        c
    }
}

/// A written value as it is read: a backslash and the character after it stand
/// for one character; a backslash at the very end stands for itself.
pub open spec fn unescaped(s: Seq<char>) -> Seq<char>
    decreases s.len(),
{
    if s.len() == 0 {
        Seq::empty()
    } else if s[0] == '\\' && s.len() >= 2 {
        seq![unescape_one(s[1])] + unescaped(s.skip(2))
    } else {
        seq![s[0]] + unescaped(s.drop_first())
    }
}

/// The text holds no line feed.
pub open spec fn single_line(s: Seq<char>) -> bool {
    forall|j: int| 0 <= j < s.len() ==> s[j] != '\n'
}

/// The text can stand as a key: it holds neither `=` nor a line feed.
pub open spec fn is_key(k: Seq<char>) -> bool {
    forall|j: int| 0 <= j < k.len() ==> k[j] != '=' && k[j] != '\n'
}

/// The line of a field.
pub open spec fn field_line(key: Seq<char>, value: Seq<char>) -> Seq<char> {
    key + seq!['='] + value
}

/// The value of the first line at or after `from` that begins with `key=`.
pub open spec fn value_from(lines: Seq<Seq<char>>, key: Seq<char>, from: int) -> Option<Seq<char>>
    decreases lines.len() - from,
{
    if from < 0 || from >= lines.len() {
        None
    } else if begins_with(lines[from], key + seq!['=']) {
        Some(lines[from].skip((key.len() + 1) as int))
    } else {
        value_from(lines, key, from + 1)
    }
}

/// The value, as written, of the first line that begins with `key=`.
pub open spec fn value_of(lines: Seq<Seq<char>>, key: Seq<char>) -> Option<Seq<char>> {
    value_from(lines, key, 0)
}

/// The value, as read, of the first line that begins with `key=`.
pub open spec fn text_of(lines: Seq<Seq<char>>, key: Seq<char>) -> Option<Seq<char>> {
    match value_of(lines, key) {
        Some(v) => Some(unescaped(v)),
        None => None,
    }
}

/// The lines as one text, each one ended by a line feed.
pub open spec fn document(lines: Seq<Seq<char>>) -> Seq<char> {
    joined(lines.push(Seq::empty()), '\n')
}

/// The lines of a text.
pub open spec fn lines_of(content: Seq<char>) -> Seq<Seq<char>> {
    pieces(content, '\n')
}

/// A written value stays on its line.
pub proof fn lemma_escaped_single_line(s: Seq<char>)
    ensures
        single_line(escaped(s)),
    decreases s.len(),
{
    if s.len() > 0 {
        lemma_escaped_single_line(s.drop_first());
    }
}

/// Reading what was written gives the value back.
pub proof fn lemma_unescape_escaped(s: Seq<char>)
    ensures
        unescaped(escaped(s)) == s,
    decreases s.len(),
{
    if s.len() > 0 {
        let rest = escaped(s.drop_first());
        let head = escape_one(s[0]);
        let all = head + rest;
        lemma_unescape_escaped(s.drop_first());
        if head.len() == 2 {
            assert(all[0] == '\\');
            assert(all.skip(2) =~= rest);
            assert(unescape_one(all[1]) == s[0]);
        } else {
            assert(all[0] == s[0]);
            assert(all.drop_first() =~= rest);
        }
        assert(seq![s[0]] + s.drop_first() =~= s);
    }
}

/// A line of one key does not begin like a line of another.
pub proof fn lemma_other_key(key: Seq<char>, value: Seq<char>, other: Seq<char>)
    requires
        is_key(key),
        is_key(other),
        key != other,
    ensures
        !begins_with(field_line(key, value), other + seq!['=']),
{
    let line = field_line(key, value);
    let start = other + seq!['='];
    if begins_with(line, start) {
        let cut = line.subrange(0, start.len() as int);
        assert(cut == start);
        if other.len() < key.len() {
            assert(cut[other.len() as int] == line[other.len() as int]);
            assert(start[other.len() as int] == '=');
            assert(line[other.len() as int] == key[other.len() as int]);
        } else if other.len() > key.len() {
            assert(cut[key.len() as int] == line[key.len() as int]);
            assert(line[key.len() as int] == '=');
            assert(start[key.len() as int] == other[key.len() as int]);
        } else {
            assert forall|j: int| 0 <= j < key.len() implies key[j] == other[j] by {
                assert(cut[j] == line[j]);
                assert(start[j] == other[j]);
                assert(line[j] == key[j]);
            }
            assert(key =~= other);
        }
    }
}

/// A line without `=` does not begin like the line of a field.
pub proof fn lemma_not_a_field(line: Seq<char>, key: Seq<char>)
    requires
        forall|j: int| 0 <= j < line.len() ==> line[j] != '=',
    ensures
        !begins_with(line, key + seq!['=']),
{
    let start = key + seq!['='];
    if begins_with(line, start) {
        let cut = line.subrange(0, start.len() as int);
        assert(cut[key.len() as int] == line[key.len() as int]);
        assert(start[key.len() as int] == '=');
    }
}

/// The field of a line is found where no line before it begins with its key.
pub proof fn lemma_value_found(
    lines: Seq<Seq<char>>,
    key: Seq<char>,
    value: Seq<char>,
    at: int,
    from: int,
)
    requires
        0 <= from <= at < lines.len(),
        lines[at] == field_line(key, value),
        forall|j: int| from <= j < at ==> !begins_with(lines[j], key + seq!['=']),
    ensures
        value_from(lines, key, from) == Some(value),
    decreases at - from,
{
    if from < at {
        lemma_value_found(lines, key, value, at, from + 1);
    } else {
        let line = lines[at];
        let start = key + seq!['='];
        assert(line.subrange(0, start.len() as int) =~= start);
        assert(line.skip((key.len() + 1) as int) =~= value);
    }
}

/// The lines of a document are the lines it was made of, and an empty one.
pub proof fn lemma_lines_of_document(lines: Seq<Seq<char>>)
    requires
        forall|i: int| 0 <= i < lines.len() ==> single_line(#[trigger] lines[i]),
    ensures
        lines_of(document(lines)) == lines.push(Seq::empty()),
{
    let all = lines.push(Seq::<char>::empty());
    assert forall|i: int, j: int| 0 <= i < all.len() && 0 <= j < all[i].len() implies all[i][j]
        != '\n' by {
        assert(single_line(lines[i]));
    }
    lemma_pieces_of_joined(all, '\n');
}

/// A value as it is written.
pub fn escape(s: &str) -> (r: String)
    ensures
        r@ == escaped(s@),
{
    let v = chars_of(s);
    let mut r = String::new();
    let mut i: usize = 0;
    assert(v@.skip(0) =~= v@);
    while i < v.len()
        invariant
            i <= v.len(),
            r@ + escaped(v@.skip(i as int)) == escaped(v@),
        decreases v.len() - i,
    {
        let c = v[i];
        let ghost before = r@;
        assert(v@.skip(i as int).drop_first() =~= v@.skip(i + 1));
        assert(v@.skip(i as int)[0] == c);
        if c == '\\' {
            r.push('\\');
            r.push('\\');
        } else if c == '\n' {
            r.push('\\');
            r.push('n');
        } else if c == '\r' {
            r.push('\\');
            r.push('r');
        } else {
            r.push(c);
        }
        assert(r@ =~= before + escape_one(c));
        assert(r@ + escaped(v@.skip(i + 1)) =~= before + escaped(v@.skip(i as int)));
        i += 1;
    }
    assert(r@ + escaped(v@.skip(i as int)) =~= r@);
    r
}

/// The character that stands for `c` after a backslash.
pub fn unescape_char(c: char) -> (r: char)
    ensures
        r == unescape_one(c),
{
    if c == 'n' {
        '\n'
    } else if c == 'r' {
        '\r'
    } else if c == 't' {
        '\t'
    } else if c == 's' {
        ' '
    } else {
        c
    }
}

/// A written value as it is read.
pub fn unescape(v: &Vec<char>) -> (r: String)
    ensures
        r@ == unescaped(v@),
{
    let mut r = String::new();
    let mut i: usize = 0;
    assert(v@.skip(0) =~= v@);
    while i < v.len()
        invariant
            i <= v.len(),
            r@ + unescaped(v@.skip(i as int)) == unescaped(v@),
        decreases v.len() - i,
    {
        let ghost before = r@;
        let ghost rest = v@.skip(i as int);
        assert(rest[0] == v@[i as int]);
        if v[i] == '\\' && i + 1 < v.len() {
            assert(rest[1] == v@[i + 1]);
            assert(rest.skip(2) =~= v@.skip(i + 2));
            r.push(unescape_char(v[i + 1]));
            assert(r@ + unescaped(v@.skip(i + 2)) =~= before + unescaped(rest));
            i += 2;
        } else {
            assert(rest.drop_first() =~= v@.skip(i + 1));
            r.push(v[i]);
            assert(r@ + unescaped(v@.skip(i + 1)) =~= before + unescaped(rest));
            i += 1;
        }
    }
    assert(r@ + unescaped(v@.skip(i as int)) =~= r@);
    r
}

/// The line of a field.
pub fn make_line(key: &str, value: &str) -> (r: String)
    ensures
        r@ == field_line(key@, value@),
{
    let mut r = String::from_str(key);
    r.push('=');
    r.append(value);
    r
}

/// The value, as written, of the first line that begins with `key=`.
pub fn lookup(lines: &Vec<String>, key: &str) -> (r: Option<Vec<char>>)
    ensures
        match r {
            Some(v) => value_of(lines.deep_view(), key@) == Some(v@),
            None => value_of(lines.deep_view(), key@) is None,
        },
{
    let mut start = chars_of(key);
    start.push('=');
    assert(start@ =~= key@ + seq!['=']);
    let mut i: usize = 0;
    while i < lines.len()
        invariant
            i <= lines.len(),
            start@ == key@ + seq!['='],
            value_of(lines.deep_view(), key@) == value_from(lines.deep_view(), key@, i as int),
        decreases lines.len() - i,
    {
        assert(lines.deep_view()[i as int] == lines@[i as int]@);
        let line = chars_of(lines[i].as_str());
        if matches_at(&line, 0, &start) {
            let mut value: Vec<char> = Vec::new();
            let mut j: usize = start.len();
            while j < line.len()
                invariant
                    start.len() <= j <= line.len(),
                    value@ == line@.subrange(start.len() as int, j as int),
                decreases line.len() - j,
            {
                value.push(line[j]);
                j += 1;
            }
            assert(value@ =~= line@.skip((key@.len() + 1) as int));
            return Some(value);
        }
        i += 1;
    }
    None
}

/// The value, as read, of the first line that begins with `key=`.
pub fn lookup_text(lines: &Vec<String>, key: &str) -> (r: Option<String>)
    ensures
        r.deep_view() == text_of(lines.deep_view(), key@),
{
    match lookup(lines, key) {
        Some(v) => Some(unescape(&v)),
        None => None,
    }
}

/// The lines as one text, each one ended by a line feed.
pub fn write_document(lines: Vec<String>) -> (r: String)
    ensures
        r@ == document(lines.deep_view()),
{
    let mut all = lines;
    let ghost before = all.deep_view();
    all.push(String::new());
    assert(all.deep_view() =~= before.push(Seq::<char>::empty()));
    join(&all, '\n')
}

/// Every line of a header without `=` and of fields with keys and values that
/// stay on their line.
pub open spec fn header_and_fields(
    header: Seq<char>,
    keys: Seq<Seq<char>>,
    values: Seq<Seq<char>>,
) -> Seq<Seq<char>> {
    seq![header] + Seq::new(keys.len(), |i: int| field_line(keys[i], values[i]))
}

/// In the document of a header and fields, the value of a key is the value of
/// its field, where no field before it has the same key.
pub proof fn lemma_field_of_document(
    header: Seq<char>,
    keys: Seq<Seq<char>>,
    values: Seq<Seq<char>>,
    i: int,
)
    requires
        keys.len() == values.len(),
        0 <= i < keys.len(),
        forall|j: int| 0 <= j < header.len() ==> header[j] != '=' && header[j] != '\n',
        forall|k: int| 0 <= k < keys.len() ==> is_key(#[trigger] keys[k]),
        forall|k: int| 0 <= k < keys.len() ==> single_line(#[trigger] values[k]),
        forall|k: int| 0 <= k < i ==> #[trigger] keys[k] != keys[i],
    ensures
        value_of(lines_of(document(header_and_fields(header, keys, values))), keys[i]) == Some(
            values[i],
        ),
{
    let lines = header_and_fields(header, keys, values);
    assert forall|k: int| 0 <= k < lines.len() implies single_line(#[trigger] lines[k]) by {
        if k > 0 {
            assert(is_key(keys[k - 1]));
            assert(single_line(values[k - 1]));
        }
    }
    lemma_lines_of_document(lines);
    let all = lines.push(Seq::<char>::empty());
    assert forall|j: int| 0 <= j < i + 1 implies !begins_with(all[j], keys[i] + seq!['=']) by {
        if j == 0 {
            lemma_not_a_field(header, keys[i]);
        } else {
            assert(is_key(keys[j - 1]));
            assert(is_key(keys[i]));
            assert(keys[j - 1] != keys[i]);
            lemma_other_key(keys[j - 1], values[j - 1], keys[i]);
        }
    }
    lemma_value_found(all, keys[i], values[i], i + 1, 0);
}

} // verus!

//! The store of persisted entries: one file per launcher, named by its
//! codename. Creating, deleting and listing launchers are stated here on the
//! files the store holds, whatever keeps them.

use crate::browser::{Browser, BrowserView};
use crate::error::Error;
use crate::launcher::{
    carries_marker, codename_of, consistent, entry_file_name, entry_name, entry_text,
    is_launcher_entry, lemma_entry_round_trip, outcome_view, parse_entry, parsed_entry,
    render_entry, LauncherView, WebAppLauncher,
};
use crate::text::finishes_with;
use vstd::prelude::*;
use vstd::relations::injective_on;
use vstd::set_lib::{lemma_int_range, lemma_len_subset, lemma_map_size, set_int_range};
use vstd::string::StringExecFns;

verus! {

/// A file of the store.
#[derive(Debug, PartialEq, Eq)]
pub struct StoredEntry {
    pub file_name: String,
    pub content: String,
}

/// What a `StoredEntry` holds, as mathematical values.
pub struct FileView {
    pub name: Seq<char>,
    pub content: Seq<char>,
}

impl View for StoredEntry {
    type V = FileView;

    open spec fn view(&self) -> FileView {
        FileView { name: self.file_name@, content: self.content@ }
    }
}

impl DeepView for StoredEntry {
    type V = FileView;

    open spec fn deep_view(&self) -> FileView {
        self@
    }
}

/// The files of the directory that holds the entries, in the order in which
/// the directory gives them.
#[derive(Debug, PartialEq, Eq)]
pub struct EntryStore {
    pub entries: Vec<StoredEntry>,
}

impl View for EntryStore {
    type V = Seq<FileView>;

    open spec fn view(&self) -> Seq<FileView> {
        self.entries.deep_view()
    }
}

/// The first position at or after `from` of a file named `name`, or the number
/// of files where there is none.
pub open spec fn position_named(files: Seq<FileView>, name: Seq<char>, from: int) -> int
    decreases files.len() - from,
{
    if from < 0 || from >= files.len() {
        files.len() as int
    } else if files[from].name == name {
        from
    } else {
        position_named(files, name, from + 1)
    }
}

/// No two files have the same name.
pub open spec fn distinct_names(files: Seq<FileView>) -> bool {
    forall|a: int, b: int| 0 <= a < b < files.len() ==> files[a].name != files[b].name
}

/// The files after `content` was written to the file `name`: in its place where
/// there was one, else at the end.
pub open spec fn written(files: Seq<FileView>, name: Seq<char>, content: Seq<char>) -> Seq<FileView> {
    let at = position_named(files, name, 0);
    if 0 <= at < files.len() {
        files.update(at, FileView { name, content })
    } else {
        files.push(FileView { name, content })
    }
}

/// The files after the file `name` was removed, if there was one.
pub open spec fn removed(files: Seq<FileView>, name: Seq<char>) -> Seq<FileView> {
    let at = position_named(files, name, 0);
    if 0 <= at < files.len() {
        files.remove(at)
    } else {
        files
    }
}

/// The files after the launcher was created: its entry written under its name.
pub open spec fn created(files: Seq<FileView>, l: LauncherView, profile_root: Seq<char>) -> Seq<
    FileView,
> {
    written(files, entry_name(l.codename), entry_text(l, profile_root))
}

/// The files after the launcher was deleted.
pub open spec fn deleted(files: Seq<FileView>, codename: Seq<char>) -> Seq<FileView> {
    removed(files, entry_name(codename))
}

/// What listing gives: for each file that carries the marker, in the order of
/// the files, the launcher that it persists, or why it cannot be read.
pub open spec fn listed(files: Seq<FileView>, browsers: Seq<BrowserView>) -> Seq<
    Result<LauncherView, Error>,
>
    decreases files.len(),
{
    if files.len() == 0 {
        Seq::empty()
    } else {
        let rest = listed(files.drop_last(), browsers);
        let last = files.last();
        if carries_marker(last.content) {
            rest.push(parsed_entry(last.name, last.content, browsers))
        } else {
            rest
        }
    }
}

/// The item of a listing is a launcher of this codename.
pub open spec fn is_entry_of(item: Result<LauncherView, Error>, codename: Seq<char>) -> bool {
    item matches Ok(l) && l.codename == codename
}

/// How many items of a listing are launchers of this codename.
pub open spec fn count_of(items: Seq<Result<LauncherView, Error>>, codename: Seq<char>) -> nat
    decreases items.len(),
{
    if items.len() == 0 {
        0
    } else {
        count_of(items.drop_last(), codename) + if is_entry_of(items.last(), codename) {
            1nat
        } else {
            0nat
        }
    }
}

/// The views of what a listing holds.
pub open spec fn outcomes(items: Seq<Result<WebAppLauncher, Error>>) -> Seq<
    Result<LauncherView, Error>,
> {
    Seq::new(items.len(), |i: int| outcome_view(items[i]))
}

/// What `position_named` returns.
pub proof fn lemma_position_named(files: Seq<FileView>, name: Seq<char>, from: int)
    requires
        0 <= from <= files.len(),
    ensures
        from <= position_named(files, name, from) <= files.len(),
        position_named(files, name, from) < files.len() ==> files[position_named(
            files,
            name,
            from,
        )].name == name,
        forall|j: int| from <= j < position_named(files, name, from) ==> files[j].name != name,
    decreases files.len() - from,
{
    if from < files.len() && files[from].name != name {
        lemma_position_named(files, name, from + 1);
    }
}

/// Writing a file keeps the names distinct, and the file is then there with
/// that content.
pub proof fn lemma_written(files: Seq<FileView>, name: Seq<char>, content: Seq<char>)
    requires
        distinct_names(files),
    ensures
        distinct_names(written(files, name, content)),
        0 <= position_named(written(files, name, content), name, 0) < written(
            files,
            name,
            content,
        ).len(),
        written(files, name, content)[position_named(written(files, name, content), name, 0)]
            == (FileView { name, content }),
{
    lemma_position_named(files, name, 0);
    let after = written(files, name, content);
    lemma_position_named(after, name, 0);
    let at = position_named(files, name, 0);
    if at < files.len() {
        assert(after[at].name == name);
    } else {
        assert(after[files.len() as int].name == name);
    }
    let found = position_named(after, name, 0);
    assert(after[found].name == name);
    if at < files.len() {
        if found != at {
            assert(files[found].name == after[found].name);
        }
    } else {
        if found != files.len() {
            assert(files[found].name == after[found].name);
        }
    }
}

/// Removing a file keeps the names distinct, and no file of that name is left.
pub proof fn lemma_removed(files: Seq<FileView>, name: Seq<char>)
    requires
        distinct_names(files),
    ensures
        distinct_names(removed(files, name)),
        forall|k: int| 0 <= k < removed(files, name).len() ==> removed(files, name)[k].name != name,
        removed(removed(files, name), name) == removed(files, name),
{
    lemma_position_named(files, name, 0);
    let after = removed(files, name);
    let at = position_named(files, name, 0);
    assert forall|k: int| 0 <= k < after.len() implies after[k].name != name by {
        if at < files.len() {
            if k < at {
                assert(after[k] == files[k]);
            } else {
                assert(after[k] == files[k + 1]);
            }
        }
    }
    assert forall|a: int, b: int| 0 <= a < b < after.len() implies after[a].name != after[b].name by {
        if at < files.len() {
            let fa = if a < at {
                a
            } else {
                a + 1
            };
            let fb = if b < at {
                b
            } else {
                b + 1
            };
            assert(after[a] == files[fa]);
            assert(after[b] == files[fb]);
        }
    }
    lemma_position_named(after, name, 0);
}

/// A file whose entry reads as a launcher of `codename` is named after it.
pub proof fn lemma_named_by_codename(
    name: Seq<char>,
    content: Seq<char>,
    browsers: Seq<BrowserView>,
    codename: Seq<char>,
)
    requires
        is_entry_of(parsed_entry(name, content, browsers), codename),
    ensures
        name == entry_name(codename),
{
    let suffix = ".desktop"@;
    assert(codename_of(name) == Some(codename));
    assert(finishes_with(name, suffix));
    assert(name =~= name.take(name.len() - suffix.len()) + name.subrange(
        name.len() - suffix.len(),
        name.len() as int,
    ));
}

/// Listing one file more adds at most its item, at the end.
pub proof fn lemma_listed_push(files: Seq<FileView>, file: FileView, browsers: Seq<BrowserView>)
    ensures
        listed(files.push(file), browsers) == if carries_marker(file.content) {
            listed(files, browsers).push(parsed_entry(file.name, file.content, browsers))
        } else {
            listed(files, browsers)
        },
{
    assert(files.push(file).drop_last() =~= files);
}

/// Every item of a listing is what one of the marked files reads as, and every
/// marked file has its item.
pub proof fn lemma_listed_items(files: Seq<FileView>, browsers: Seq<BrowserView>)
    ensures
        forall|j: int|
            0 <= j < listed(files, browsers).len() ==> exists|k: int|
                0 <= k < files.len() && carries_marker(files[k].content) && #[trigger] listed(
                    files,
                    browsers,
                )[j] == parsed_entry(files[k].name, files[k].content, browsers),
        forall|k: int|
            0 <= k < files.len() && carries_marker(#[trigger] files[k].content) ==> listed(
                files,
                browsers,
            ).contains(parsed_entry(files[k].name, files[k].content, browsers)),
    decreases files.len(),
{
    if files.len() > 0 {
        let init = files.drop_last();
        let last = files.last();
        let items = listed(files, browsers);
        let before = listed(init, browsers);
        lemma_listed_items(init, browsers);
        assert forall|j: int| 0 <= j < items.len() implies exists|k: int|
            0 <= k < files.len() && carries_marker(files[k].content) && #[trigger] items[j]
                == parsed_entry(files[k].name, files[k].content, browsers) by {
            if j < before.len() {
                let k = choose|k: int|
                    0 <= k < init.len() && carries_marker(init[k].content) && before[j]
                        == parsed_entry(init[k].name, init[k].content, browsers);
                assert(files[k] == init[k]);
                assert(items[j] == before[j]);
            } else {
                assert(items[j] == parsed_entry(last.name, last.content, browsers));
                assert(files[files.len() - 1] == last);
            }
        }
        assert forall|k: int|
            0 <= k < files.len() && carries_marker(#[trigger] files[k].content) implies items.contains(
            parsed_entry(files[k].name, files[k].content, browsers),
        ) by {
            let wanted = parsed_entry(files[k].name, files[k].content, browsers);
            if k < init.len() {
                assert(files[k] == init[k]);
                assert(before.contains(wanted));
                let j = choose|j: int| 0 <= j < before.len() && before[j] == wanted;
                assert(items[j] == wanted);
            } else {
                assert(items[items.len() - 1] == wanted);
            }
        }
    }
}

/// Where no file is named after `codename`, the listing holds no launcher of it.
pub proof fn lemma_count_none(files: Seq<FileView>, browsers: Seq<BrowserView>, codename: Seq<char>)
    requires
        forall|k: int| 0 <= k < files.len() ==> files[k].name != entry_name(codename),
    ensures
        count_of(listed(files, browsers), codename) == 0,
    decreases files.len(),
{
    if files.len() > 0 {
        let init = files.drop_last();
        let last = files.last();
        assert forall|k: int| 0 <= k < init.len() implies init[k].name != entry_name(codename) by {
            assert(init[k] == files[k]);
        }
        lemma_count_none(init, browsers, codename);
        if carries_marker(last.content) {
            let item = parsed_entry(last.name, last.content, browsers);
            assert(listed(files, browsers).drop_last() =~= listed(init, browsers));
            if is_entry_of(item, codename) {
                lemma_named_by_codename(last.name, last.content, browsers, codename);
                assert(files[files.len() - 1].name != entry_name(codename));
            }
        }
    }
}

/// Where the file named after `codename` reads as a launcher of it, the listing
/// holds exactly one launcher of that codename.
pub proof fn lemma_count_one(
    files: Seq<FileView>,
    browsers: Seq<BrowserView>,
    codename: Seq<char>,
    at: int,
)
    requires
        distinct_names(files),
        0 <= at < files.len(),
        files[at].name == entry_name(codename),
        carries_marker(files[at].content),
        is_entry_of(parsed_entry(files[at].name, files[at].content, browsers), codename),
    ensures
        count_of(listed(files, browsers), codename) == 1,
    decreases files.len(),
{
    let init = files.drop_last();
    let last = files.last();
    if carries_marker(last.content) {
        assert(listed(files, browsers).drop_last() =~= listed(init, browsers));
    }
    if at == files.len() - 1 {
        assert forall|k: int| 0 <= k < init.len() implies init[k].name != entry_name(codename) by {
            assert(init[k] == files[k]);
        }
        lemma_count_none(init, browsers, codename);
    } else {
        assert(init[at] == files[at]);
        assert forall|a: int, b: int| 0 <= a < b < init.len() implies init[a].name
            != init[b].name by {
            assert(init[a] == files[a] && init[b] == files[b]);
        }
        lemma_count_one(init, browsers, codename, at);
        if carries_marker(last.content) && is_entry_of(
            parsed_entry(last.name, last.content, browsers),
            codename,
        ) {
            lemma_named_by_codename(last.name, last.content, browsers, codename);
            assert(files[files.len() - 1].name == files[at].name);
        }
    }
}

/// After a valid launcher was created, the listing holds exactly one launcher
/// of its codename, and that one is the launcher as it was given: codename,
/// name, address and all the rest.
pub proof fn created_launcher_is_listed_once(
    files: Seq<FileView>,
    l: LauncherView,
    profile_root: Seq<char>,
    browsers: Seq<BrowserView>,
)
    requires
        distinct_names(files),
        l.is_valid,
        consistent(l, browsers),
    ensures
        distinct_names(created(files, l, profile_root)),
        count_of(listed(created(files, l, profile_root), browsers), l.codename) == 1,
        listed(created(files, l, profile_root), browsers).contains(Ok(l)),
        forall|j: int|
            0 <= j < listed(created(files, l, profile_root), browsers).len() && is_entry_of(
                #[trigger] listed(created(files, l, profile_root), browsers)[j],
                l.codename,
            ) ==> listed(created(files, l, profile_root), browsers)[j] == Ok::<LauncherView, Error>(
                l,
            ),
{
    let name = entry_name(l.codename);
    let content = entry_text(l, profile_root);
    let after = created(files, l, profile_root);
    let items = listed(after, browsers);
    lemma_written(files, name, content);
    lemma_entry_round_trip(l, profile_root, browsers);
    let at = position_named(after, name, 0);
    lemma_count_one(after, browsers, l.codename, at);
    lemma_listed_items(after, browsers);
    assert(carries_marker(after[at].content));
    assert(items.contains(parsed_entry(after[at].name, after[at].content, browsers)));
    assert forall|j: int| 0 <= j < items.len() && is_entry_of(#[trigger] items[j], l.codename) implies items[j]
        == Ok::<LauncherView, Error>(l) by {
        let k = choose|k: int|
            0 <= k < after.len() && carries_marker(after[k].content) && items[j] == parsed_entry(
                after[k].name,
                after[k].content,
                browsers,
            );
        lemma_named_by_codename(after[k].name, after[k].content, browsers, l.codename);
        if k < at {
            assert(after[k].name != after[at].name);
        } else if at < k {
            assert(after[at].name != after[k].name);
        }
    }
}

/// After a launcher was deleted, the listing holds no launcher of its codename;
/// deleting it once more changes nothing.
pub proof fn deleted_launcher_is_not_listed(
    files: Seq<FileView>,
    codename: Seq<char>,
    browsers: Seq<BrowserView>,
)
    requires
        distinct_names(files),
    ensures
        distinct_names(deleted(files, codename)),
        count_of(listed(deleted(files, codename), browsers), codename) == 0,
        forall|j: int|
            0 <= j < listed(deleted(files, codename), browsers).len() ==> !is_entry_of(
                #[trigger] listed(deleted(files, codename), browsers)[j],
                codename,
            ),
        deleted(deleted(files, codename), codename) == deleted(files, codename),
{
    let after = deleted(files, codename);
    let items = listed(after, browsers);
    lemma_removed(files, entry_name(codename));
    lemma_count_none(after, browsers, codename);
    lemma_listed_items(after, browsers);
    assert forall|j: int| 0 <= j < items.len() implies !is_entry_of(#[trigger] items[j], codename) by {
        if is_entry_of(items[j], codename) {
            let k = choose|k: int|
                0 <= k < after.len() && carries_marker(after[k].content) && items[j]
                    == parsed_entry(after[k].name, after[k].content, browsers);
            lemma_named_by_codename(after[k].name, after[k].content, browsers, codename);
        }
    }
}

/// After a launcher was edited, that is deleted and created again under its
/// codename with other values, the listing holds exactly one launcher of that
/// codename, with the new values: every item of that codename shows the new
/// name.
pub proof fn edited_launcher_is_listed_once(
    files: Seq<FileView>,
    before: LauncherView,
    after: LauncherView,
    profile_root: Seq<char>,
    browsers: Seq<BrowserView>,
)
    requires
        distinct_names(files),
        after.codename == before.codename,
        after.is_valid,
        consistent(after, browsers),
    ensures
        count_of(
            listed(created(deleted(files, before.codename), after, profile_root), browsers),
            before.codename,
        ) == 1,
        forall|j: int|
            0 <= j < listed(
                created(deleted(files, before.codename), after, profile_root),
                browsers,
            ).len() && is_entry_of(
                #[trigger] listed(
                    created(deleted(files, before.codename), after, profile_root),
                    browsers,
                )[j],
                before.codename,
            ) ==> listed(created(deleted(files, before.codename), after, profile_root), browsers)[j]
                == Ok::<LauncherView, Error>(after),
{
    lemma_removed(files, entry_name(before.codename));
    created_launcher_is_listed_once(
        deleted(files, before.codename),
        after,
        profile_root,
        browsers,
    );
}

/// A marked file that does not read as a launcher gives one failed item at its
/// place and leaves the items of the other files as they are.
pub proof fn malformed_entry_is_one_item(
    files: Seq<FileView>,
    file: FileView,
    browsers: Seq<BrowserView>,
)
    requires
        carries_marker(file.content),
        parsed_entry(file.name, file.content, browsers) is Err,
    ensures
        listed(files.push(file), browsers).len() == listed(files, browsers).len() + 1,
        listed(files.push(file), browsers).last() is Err,
        listed(files.push(file), browsers).drop_last() == listed(files, browsers),
{
    lemma_listed_push(files, file, browsers);
    assert(listed(files, browsers).push(
        parsed_entry(file.name, file.content, browsers),
    ).drop_last() =~= listed(files, browsers));
}

/// The character of a decimal digit.
pub open spec fn digit(d: int) -> char {
    if d == 0 {
        '0'
    } else if d == 1 {
        '1'
    } else if d == 2 {
        '2'
    } else if d == 3 {
        '3'
    } else if d == 4 {
        '4'
    } else if d == 5 {
        '5'
    } else if d == 6 {
        '6'
    } else if d == 7 {
        '7'
    } else if d == 8 {
        '8'
    } else {
        '9'
    }
}

/// A number in decimal digits.
pub open spec fn digits(n: nat) -> Seq<char>
    decreases n,
{
    if n < 10 {
        seq![digit(n as int)]
    } else {
        digits(n / 10).push(digit((n % 10) as int))
    }
}

/// The character is an ASCII letter or digit.
pub open spec fn is_plain(c: char) -> bool {
    ('a' <= c && c <= 'z') || ('A' <= c && c <= 'Z') || ('0' <= c && c <= '9')
}

/// The ASCII letters and digits of a text, in order.
pub open spec fn plain_part(s: Seq<char>) -> Seq<char>
    decreases s.len(),
{
    if s.len() == 0 {
        s
    } else if is_plain(s.last()) {
        plain_part(s.drop_last()).push(s.last())
    } else {
        plain_part(s.drop_last())
    }
}

/// The codename that number `n` gives a launcher of this name: the letters and
/// digits of the name, then the number.
pub open spec fn candidate(name: Seq<char>, n: nat) -> Seq<char> {
    plain_part(name) + digits(n)
}

/// The store holds an entry under this codename.
pub open spec fn taken(files: Seq<FileView>, codename: Seq<char>) -> bool {
    0 <= position_named(files, entry_name(codename), 0) < files.len()
}

/// The least offset at or after `from` whose candidate is free, looking no
/// further than the number of files.
pub open spec fn free_offset(files: Seq<FileView>, name: Seq<char>, seed: nat, from: nat) -> nat
    decreases files.len() - from,
{
    if from >= files.len() || !taken(files, candidate(name, seed + from)) {
        from
    } else {
        free_offset(files, name, seed, from + 1)
    }
}

/// The codename that a new launcher of this name gets: the first candidate,
/// counting from `seed`, that the store does not hold.
pub open spec fn fresh(files: Seq<FileView>, name: Seq<char>, seed: nat) -> Seq<char> {
    candidate(name, seed + free_offset(files, name, seed, 0))
}

/// As many values as fit: an injective function from the first `m` numbers
/// into the first `n` shows that `m` is at most `n`.
pub proof fn lemma_pigeonhole(m: int, n: int, f: spec_fn(int) -> int)
    requires
        0 <= m,
        0 <= n,
        forall|i: int| 0 <= i < m ==> 0 <= #[trigger] f(i) < n,
        forall|i: int, j: int| 0 <= i < j < m ==> #[trigger] f(i) != #[trigger] f(j),
    ensures
        m <= n,
{
    let x = set_int_range(0, m);
    let y = x.map(f);
    lemma_int_range(0, m);
    lemma_int_range(0, n);
    assert(injective_on(f, x)) by {
        assert forall|a: int, b: int| x.contains(a) && x.contains(b) && #[trigger] f(a)
            == #[trigger] f(b) implies a == b by {
            if a < b {
                assert(f(a) != f(b));
            } else if b < a {
                assert(f(b) != f(a));
            }
        }
    }
    lemma_map_size(x, y, f);
    assert forall|v: int| y.contains(v) implies set_int_range(0, n).contains(v) by {
        let a = choose|a: int| x.contains(a) && v == f(a);
        assert(0 <= f(a) < n);
    }
    lemma_len_subset(y, set_int_range(0, n));
}

/// A number has at least one digit.
pub proof fn lemma_digits_len(n: nat)
    ensures
        digits(n).len() >= 1,
        n >= 10 ==> digits(n).len() >= 2,
    decreases n,
{
    if n >= 10 {
        lemma_digits_len(n / 10);
    }
}

/// Two numbers with the same digits are the same number.
pub proof fn lemma_digits_injective(a: nat, b: nat)
    requires
        digits(a) == digits(b),
    ensures
        a == b,
    decreases a,
{
    lemma_digits_len(a);
    lemma_digits_len(b);
    if a >= 10 && b >= 10 {
        let da = digits(a / 10);
        let db = digits(b / 10);
        let la = digit((a % 10) as int);
        let lb = digit((b % 10) as int);
        assert(da.push(la).drop_last() =~= da);
        assert(db.push(lb).drop_last() =~= db);
        assert(da.push(la).last() == la);
        assert(db.push(lb).last() == lb);
        lemma_digits_injective(a / 10, b / 10);
    } else if a < 10 && b < 10 {
        assert(digits(a)[0] == digit(a as int));
        assert(digits(b)[0] == digit(b as int));
    }
}

/// Two numbers that give a name the same entry file are the same number.
pub proof fn lemma_candidates_differ(name: Seq<char>, a: nat, b: nat)
    requires
        entry_name(candidate(name, a)) == entry_name(candidate(name, b)),
    ensures
        a == b,
{
    let base = plain_part(name);
    let ca = candidate(name, a);
    let cb = candidate(name, b);
    assert(entry_name(ca).take(ca.len() as int) =~= ca);
    assert(entry_name(cb).take(cb.len() as int) =~= cb);
    assert(ca.len() == cb.len()) by {
        assert(entry_name(ca).len() == entry_name(cb).len());
    }
    assert(ca.skip(base.len() as int) =~= digits(a));
    assert(cb.skip(base.len() as int) =~= digits(b));
    lemma_digits_injective(a, b);
}

/// Until the free offset every candidate is taken; a free offset below the
/// number of files is free.
pub proof fn lemma_free_offset_from(files: Seq<FileView>, name: Seq<char>, seed: nat, from: nat)
    requires
        from <= files.len(),
    ensures
        from <= free_offset(files, name, seed, from) <= files.len(),
        forall|j: nat|
            from <= j < free_offset(files, name, seed, from) ==> taken(
                files,
                #[trigger] candidate(name, seed + j),
            ),
        free_offset(files, name, seed, from) < files.len() ==> !taken(
            files,
            candidate(name, seed + free_offset(files, name, seed, from)),
        ),
    decreases files.len() - from,
{
    if from < files.len() && taken(files, candidate(name, seed + from)) {
        lemma_free_offset_from(files, name, seed, (from + 1) as nat);
    }
}

/// The fresh codename is not taken, and every candidate before it is.
pub proof fn lemma_fresh_is_free(files: Seq<FileView>, name: Seq<char>, seed: nat)
    ensures
        !taken(files, fresh(files, name, seed)),
        forall|j: nat|
            j < free_offset(files, name, seed, 0) ==> taken(
                files,
                #[trigger] candidate(name, seed + j),
            ),
{
    let k = free_offset(files, name, seed, 0);
    let n = files.len();
    lemma_free_offset_from(files, name, seed, 0);
    if k == n && taken(files, candidate(name, seed + k)) {
        let f = |j: int| position_named(files, entry_name(candidate(name, (seed + j) as nat)), 0);
        assert forall|i: int| 0 <= i < n + 1 implies 0 <= #[trigger] f(i) < n by {
            assert(taken(files, candidate(name, seed + (i as nat))));
        }
        assert forall|i: int, j: int| 0 <= i < j < n + 1 implies #[trigger] f(i) != #[trigger] f(j) by {
            assert(taken(files, candidate(name, seed + (i as nat))));
            assert(taken(files, candidate(name, seed + (j as nat))));
            lemma_position_named(files, entry_name(candidate(name, (seed + i) as nat)), 0);
            lemma_position_named(files, entry_name(candidate(name, (seed + j) as nat)), 0);
            if f(i) == f(j) {
                lemma_candidates_differ(name, (seed + i) as nat, (seed + j) as nat);
            }
        }
        lemma_pigeonhole((n + 1) as int, n as int, f);
    }
}

/// The character of a decimal digit.
pub fn digit_char(d: u8) -> (r: char)
    requires
        d < 10,
    ensures
        r == digit(d as int),
{
    if d == 0 {
        '0'
    } else if d == 1 {
        '1'
    } else if d == 2 {
        '2'
    } else if d == 3 {
        '3'
    } else if d == 4 {
        '4'
    } else if d == 5 {
        '5'
    } else if d == 6 {
        '6'
    } else if d == 7 {
        '7'
    } else if d == 8 {
        '8'
    } else {
        '9'
    }
}

/// A number in decimal digits.
pub fn decimal(n: u128) -> (r: String)
    ensures
        r@ == digits(n as nat),
    decreases n,
{
    if n < 10 {
        let mut r = String::new();
        r.push(digit_char(n as u8));
        assert(r@ =~= seq![digit(n as int)]);
        r
    } else {
        let mut r = decimal(n / 10);
        r.push(digit_char((n % 10) as u8));
        r
    }
}

/// The ASCII letters and digits of a text, in order.
pub fn plain_letters(s: &str) -> (r: String)
    ensures
        r@ == plain_part(s@),
{
    let v = crate::text::chars_of(s);
    let mut r = String::new();
    let mut i: usize = 0;
    assert(v@.take(0) =~= Seq::<char>::empty());
    while i < v.len()
        invariant
            i <= v.len(),
            r@ == plain_part(v@.take(i as int)),
        decreases v.len() - i,
    {
        assert(v@.take(i + 1).drop_last() =~= v@.take(i as int));
        let c = v[i];
        if ('a' <= c && c <= 'z') || ('A' <= c && c <= 'Z') || ('0' <= c && c <= '9') {
            r.push(c);
        }
        i += 1;
    }
    assert(v@.take(v.len() as int) =~= v@);
    r
}

impl EntryStore {
    /// No two files of the store have the same name, as in a directory.
    pub open spec fn well_formed(&self) -> bool {
        distinct_names(self@)
    }

    /// A store without files.
    pub fn new() -> (r: Self)
        ensures
            r@ == Seq::<FileView>::empty(),
            r.well_formed(),
    {
        let r = EntryStore { entries: Vec::new() };
        assert(r@ =~= Seq::<FileView>::empty());
        r
    }

    /// The place of the file `file_name`, if the store holds one.
    pub fn find(&self, file_name: &str) -> (r: Option<usize>)
        ensures
            match r {
                Some(at) => at < self@.len() && position_named(self@, file_name@, 0) == at,
                None => position_named(self@, file_name@, 0) == self@.len(),
            },
    {
        let wanted = String::from_str(file_name);
        let mut i: usize = 0;
        while i < self.entries.len()
            invariant
                i <= self.entries.len(),
                wanted@ == file_name@,
                position_named(self@, file_name@, 0) == position_named(self@, file_name@, i as int),
            decreases self.entries.len() - i,
        {
            assert(self@[i as int] == self.entries@[i as int]@);
            if self.entries[i].file_name == wanted {
                return Some(i);
            }
            i += 1;
        }
        None
    }

    /// Writes `content` to the file `file_name`: over the file of that name
    /// where there is one, else as a new file after the others.
    pub fn write(&mut self, file_name: String, content: String)
        ensures
            final(self)@ == written(old(self)@, file_name@, content@),
            old(self).well_formed() ==> final(self).well_formed(),
    {
        proof {
            if self.well_formed() {
                lemma_written(self@, file_name@, content@);
            }
        }
        let found = self.find(file_name.as_str());
        let ghost before = self@;
        let ghost file = FileView { name: file_name@, content: content@ };
        let entry = StoredEntry { file_name, content };
        match found {
            Some(at) => {
                self.entries.set(at, entry);
                assert(self@ =~= before.update(at as int, file));
            },
            None => {
                self.entries.push(entry);
                assert(self@ =~= before.push(file));
            },
        }
    }

    /// Removes the file `file_name`, and says whether there was one.
    pub fn remove(&mut self, file_name: &str) -> (r: bool)
        ensures
            final(self)@ == removed(old(self)@, file_name@),
            r == (0 <= position_named(old(self)@, file_name@, 0) < old(self)@.len()),
            old(self).well_formed() ==> final(self).well_formed(),
    {
        proof {
            if self.well_formed() {
                lemma_removed(self@, file_name@);
            }
        }
        let found = self.find(file_name);
        let ghost before = self@;
        match found {
            Some(at) => {
                let _ = self.entries.remove(at);
                assert(self@ =~= before.remove(at as int));
                true
            },
            None => false,
        }
    }

    /// Persists the launcher: writes its entry, marked as one of this library,
    /// under the name that its codename gives, over an earlier entry of that
    /// codename. A launcher that is not valid is refused and nothing is written.
    pub fn create(&mut self, launcher: &WebAppLauncher, profile_root: &str) -> (r: Result<
        (),
        Error,
    >)
        ensures
            launcher.is_valid ==> r is Ok && final(self)@ == created(
                old(self)@,
                launcher@,
                profile_root@,
            ),
            !launcher.is_valid ==> r == Err::<(), Error>(Error::Validation) && final(self)@ == old(
                self,
            )@,
            old(self).well_formed() ==> final(self).well_formed(),
    {
        if !launcher.is_valid {
            return Err(Error::Validation);
        }
        let name = entry_file_name(launcher.codename.as_str());
        let content = render_entry(launcher, profile_root);
        self.write(name, content);
        Ok(())
    }

    /// Removes the entry of the launcher. That there is none is no error.
    pub fn delete(&mut self, launcher: &WebAppLauncher) -> (r: Result<(), Error>)
        ensures
            r is Ok,
            final(self)@ == deleted(old(self)@, launcher@.codename),
            old(self).well_formed() ==> final(self).well_formed(),
    {
        let name = entry_file_name(launcher.codename.as_str());
        let _ = self.remove(name.as_str());
        Ok(())
    }

    /// The launchers that the store persists: one item for each file that
    /// carries the marker, in the order of the files. A file that does not read
    /// as a launcher gives a failed item and the listing goes on.
    pub fn list(&self, browsers: &Vec<Browser>) -> (r: Vec<Result<WebAppLauncher, Error>>)
        ensures
            outcomes(r@) == listed(self@, browsers.deep_view()),
    {
        let mut r: Vec<Result<WebAppLauncher, Error>> = Vec::new();
        let mut i: usize = 0;
        assert(self@.take(0) =~= Seq::<FileView>::empty());
        assert(outcomes(r@) =~= Seq::<Result<LauncherView, Error>>::empty());
        while i < self.entries.len()
            invariant
                i <= self.entries.len(),
                outcomes(r@) == listed(self@.take(i as int), browsers.deep_view()),
            decreases self.entries.len() - i,
        {
            let ghost before = outcomes(r@);
            assert(self@.take(i + 1).drop_last() =~= self@.take(i as int));
            assert(self@.take(i + 1).last() == self.entries@[i as int]@);
            let entry = &self.entries[i];
            if is_launcher_entry(entry.content.as_str()) {
                let item = parse_entry(entry.file_name.as_str(), entry.content.as_str(), browsers);
                let ghost item_view = outcome_view(item);
                r.push(item);
                assert(outcomes(r@) =~= before.push(item_view));
            }
            i += 1;
        }
        assert(self@.take(self.entries.len() as int) =~= self@);
        r
    }

    /// A codename for a new launcher of this name that no entry of the store
    /// has: the letters and digits of the name followed by a number, the first
    /// from `seed` on that is free.
    pub fn fresh_codename(&self, name: &str, seed: u64) -> (r: String)
        ensures
            r@ == fresh(self@, name@, seed as nat),
            !taken(self@, r@),
    {
        let base = plain_letters(name);
        let mut tried: usize = 0;
        proof {
            lemma_fresh_is_free(self@, name@, seed as nat);
        }
        loop
            invariant
                tried <= self.entries.len(),
                base@ == plain_part(name@),
                !taken(self@, fresh(self@, name@, seed as nat)),
                free_offset(self@, name@, seed as nat, 0) == free_offset(
                    self@,
                    name@,
                    seed as nat,
                    tried as nat,
                ),
            decreases self.entries.len() - tried,
        {
            let mut codename = base.clone();
            codename.append(decimal(seed as u128 + tried as u128).as_str());
            assert(codename@ == candidate(name@, (seed + tried) as nat));
            if tried >= self.entries.len() {
                return codename;
            }
            let file = entry_file_name(codename.as_str());
            if self.find(file.as_str()).is_none() {
                return codename;
            }
            tried += 1;
        }
    }
}

} // verus!

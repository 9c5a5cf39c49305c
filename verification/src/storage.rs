//! The store of icons, one file per launcher and named after it, and the
//! storage as a whole: the entries and the icons on which launchers are
//! created, edited, listed and deleted.

use crate::browser::{Browser, BrowserView};
use crate::error::Error;
use crate::launcher::{form_launcher, FormView, LauncherForm, LauncherView, WebAppLauncher};
use crate::store::{
    created, deleted, fresh, is_plain, listed, outcomes, taken, EntryStore, FileView,
};
use crate::text::{
    begins_with, chars_of, lemma_position_of, lowered, position, position_of, to_lower,
};
use vstd::prelude::*;
use vstd::string::StringExecFns;

verus! {

/// A file of the icon store.
#[derive(Debug, PartialEq, Eq)]
pub struct StoredIcon {
    pub file_name: String,
    pub bytes: Vec<u8>,
}

/// What a `StoredIcon` holds, as mathematical values.
pub struct IconFileView {
    pub name: Seq<char>,
    pub bytes: Seq<u8>,
}

impl View for StoredIcon {
    type V = IconFileView;

    open spec fn view(&self) -> IconFileView {
        IconFileView { name: self.file_name@, bytes: self.bytes@ }
    }
}

impl DeepView for StoredIcon {
    type V = IconFileView;

    open spec fn deep_view(&self) -> IconFileView {
        self@
    }
}

/// The directory that holds the icons of the launchers, and its files.
#[derive(Debug, PartialEq, Eq)]
pub struct IconStore {
    pub directory: String,
    pub icons: Vec<StoredIcon>,
}

/// What an `IconStore` holds, as mathematical values.
pub struct IconStoreView {
    pub directory: Seq<char>,
    pub files: Seq<IconFileView>,
}

impl View for IconStore {
    type V = IconStoreView;

    open spec fn view(&self) -> IconStoreView {
        IconStoreView { directory: self.directory@, files: self.icons.deep_view() }
    }
}

/// The character can stand in the name that an owner gives its icon: it is no
/// blank, no control character, no separator of paths and no `.`.
pub open spec fn is_name_char(c: char) -> bool {
    c > ' ' && c != '/' && c != '\\' && c != '.'
}

/// The characters of a text that can stand in the name of an icon.
pub open spec fn name_part(s: Seq<char>) -> Seq<char>
    decreases s.len(),
{
    if s.len() == 0 {
        s
    } else if is_name_char(s.last()) {
        name_part(s.drop_last()).push(s.last())
    } else {
        name_part(s.drop_last())
    }
}

/// The name that stands in for an owner without a usable character.
pub open spec fn spare_stem() -> Seq<char> {
    seq!['w', 'e', 'b', 'a', 'p', 'p']
}

/// The name, without extension, of the icon of an owner.
pub open spec fn stem(owner: Seq<char>) -> Seq<char> {
    if name_part(owner).len() == 0 {
        spare_stem()
    } else {
        name_part(owner)
    }
}

/// The last position before `upto` that holds `c`, or -1.
pub open spec fn last_before(s: Seq<char>, c: char, upto: int) -> int
    decreases upto,
{
    if upto <= 0 || upto > s.len() {
        -1
    } else if s[upto - 1] == c {
        upto - 1
    } else {
        last_before(s, c, upto - 1)
    }
}

/// Every character is an ASCII letter or digit.
pub open spec fn all_plain(s: Seq<char>) -> bool {
    forall|i: int| 0 <= i < s.len() ==> is_plain(#[trigger] s[i])
}

/// The extension for icons whose source names none.
pub open spec fn spare_extension() -> Seq<char> {
    seq!['p', 'n', 'g']
}

/// Where the name of a source ends: at its first `?` or `#`, or at its end.
pub open spec fn name_end(source: Seq<char>) -> int {
    let query = position_of(source, '?', 0);
    let fragment = position_of(source, '#', 0);
    if query < fragment {
        query
    } else {
        fragment
    }
}

/// The extension of a source: what follows the last `.` of its name, in lower
/// case, where that is one to eight letters or digits; else the spare one.
pub open spec fn extension(source: Seq<char>) -> Seq<char> {
    let end = name_end(source);
    let dot = last_before(source, '.', end);
    if 0 <= dot && dot + 1 < end <= source.len() && end - dot - 1 <= 8 && all_plain(
        source.subrange(dot + 1, end),
    ) {
        lowered(source.subrange(dot + 1, end))
    } else {
        spare_extension()
    }
}

/// The name of the file that holds the icon of `owner`, taken from `source`.
pub open spec fn icon_name(owner: Seq<char>, source: Seq<char>) -> Seq<char> {
    stem(owner) + seq!['.'] + extension(source)
}

/// The owner's part of the name of an icon file: what stands before its first
/// `.`.
pub open spec fn owner_part(file_name: Seq<char>) -> Seq<char> {
    file_name.take(position_of(file_name, '.', 0))
}

/// The path of a file of the directory.
pub open spec fn path_in(directory: Seq<char>, file_name: Seq<char>) -> Seq<char> {
    directory + seq!['/'] + file_name
}

/// The files that do not belong to the owner of this name.
pub open spec fn others(files: Seq<IconFileView>, owner_stem: Seq<char>) -> Seq<IconFileView>
    decreases files.len(),
{
    if files.len() == 0 {
        files
    } else if owner_part(files.last().name) == owner_stem {
        others(files.drop_last(), owner_stem)
    } else {
        others(files.drop_last(), owner_stem).push(files.last())
    }
}

/// How many files belong to the owner of this name.
pub open spec fn owned(files: Seq<IconFileView>, owner_stem: Seq<char>) -> nat
    decreases files.len(),
{
    if files.len() == 0 {
        0
    } else {
        owned(files.drop_last(), owner_stem) + if owner_part(files.last().name) == owner_stem {
            1nat
        } else {
            0nat
        }
    }
}

/// The names of the files that belong to the owner of this name, in the order
/// of the files.
pub open spec fn owned_names(files: Seq<IconFileView>, owner_stem: Seq<char>) -> Seq<Seq<char>>
    decreases files.len(),
{
    if files.len() == 0 {
        Seq::empty()
    } else if owner_part(files.last().name) == owner_stem {
        owned_names(files.drop_last(), owner_stem).push(files.last().name)
    } else {
        owned_names(files.drop_last(), owner_stem)
    }
}

/// The files after an icon was moved in: the files of its owner are gone, and
/// the new one stands at the end.
pub open spec fn moved(files: Seq<IconFileView>, name: Seq<char>, bytes: Seq<u8>) -> Seq<
    IconFileView,
> {
    others(files, owner_part(name)).push(IconFileView { name, bytes })
}

/// The first position at or after `from` of the file at `path`, or the number
/// of files.
pub open spec fn icon_at(store: IconStoreView, path: Seq<char>, from: int) -> int
    decreases store.files.len() - from,
{
    if from < 0 || from >= store.files.len() {
        store.files.len() as int
    } else if path_in(store.directory, store.files[from].name) == path {
        from
    } else {
        icon_at(store, path, from + 1)
    }
}

/// The files after the one at `path` was removed, if the store held it. A path
/// that does not lead into the store removes nothing.
pub open spec fn without_icon(store: IconStoreView, path: Seq<char>) -> Seq<IconFileView> {
    let at = icon_at(store, path, 0);
    if 0 <= at < store.files.len() {
        store.files.remove(at)
    } else {
        store.files
    }
}

/// The name part of a text holds only characters that can stand in a name.
pub proof fn lemma_name_part(s: Seq<char>)
    ensures
        forall|i: int| 0 <= i < name_part(s).len() ==> is_name_char(#[trigger] name_part(s)[i]),
    decreases s.len(),
{
    if s.len() > 0 {
        let init = name_part(s.drop_last());
        lemma_name_part(s.drop_last());
        assert forall|i: int| 0 <= i < name_part(s).len() implies is_name_char(
            #[trigger] name_part(s)[i],
        ) by {
            if i < init.len() {
                assert(name_part(s)[i] == init[i]);
            }
        }
    }
}

/// The file of an owner is known by its name: the owner's part of an icon's
/// name is the owner's stem.
pub proof fn lemma_owner_part(owner: Seq<char>, source: Seq<char>)
    ensures
        owner_part(icon_name(owner, source)) == stem(owner),
{
    let st = stem(owner);
    let name = icon_name(owner, source);
    lemma_name_part(owner);
    lemma_position_of(name, '.', 0);
    assert forall|j: int| 0 <= j < st.len() implies name[j] != '.' by {
        assert(name[j] == st[j]);
        assert(is_name_char(st[j]));
    }
    assert(name[st.len() as int] == '.');
    assert(position_of(name, '.', 0) == st.len());
    assert(name.take(st.len() as int) =~= st);
}

/// Among the files of the others there is none of the owner, and taking the
/// others again changes nothing.
pub proof fn lemma_others(files: Seq<IconFileView>, owner_stem: Seq<char>)
    ensures
        owned(others(files, owner_stem), owner_stem) == 0,
        others(others(files, owner_stem), owner_stem) == others(files, owner_stem),
    decreases files.len(),
{
    if files.len() > 0 {
        let init = files.drop_last();
        let last = files.last();
        lemma_others(init, owner_stem);
        if owner_part(last.name) != owner_stem {
            assert(others(init, owner_stem).push(last).drop_last() =~= others(init, owner_stem));
        }
    }
}

/// After an icon was moved in for an owner, the store holds exactly one file
/// of that owner, the new one, and the files of the other owners are as they
/// were.
pub proof fn moved_icon_is_the_only_one(
    files: Seq<IconFileView>,
    owner: Seq<char>,
    source: Seq<char>,
    bytes: Seq<u8>,
)
    ensures
        owned(moved(files, icon_name(owner, source), bytes), stem(owner)) == 1,
        moved(files, icon_name(owner, source), bytes).last() == (IconFileView {
            name: icon_name(owner, source),
            bytes,
        }),
        others(moved(files, icon_name(owner, source), bytes), stem(owner)) == others(
            files,
            stem(owner),
        ),
{
    let st = stem(owner);
    let name = icon_name(owner, source);
    lemma_owner_part(owner, source);
    lemma_others(files, st);
    let kept = others(files, st);
    let file = IconFileView { name, bytes };
    assert(kept.push(file).drop_last() =~= kept);
}

/// Moving icons in twice for one owner, from two sources, leaves exactly one
/// file of that owner: the second. The files of the other owners are as they
/// were.
pub proof fn second_icon_replaces_first(
    files: Seq<IconFileView>,
    owner: Seq<char>,
    first: Seq<char>,
    first_bytes: Seq<u8>,
    second: Seq<char>,
    second_bytes: Seq<u8>,
)
    ensures
        owned(
            moved(
                moved(files, icon_name(owner, first), first_bytes),
                icon_name(owner, second),
                second_bytes,
            ),
            stem(owner),
        ) == 1,
        moved(
            moved(files, icon_name(owner, first), first_bytes),
            icon_name(owner, second),
            second_bytes,
        ).last() == (IconFileView { name: icon_name(owner, second), bytes: second_bytes }),
        others(
            moved(
                moved(files, icon_name(owner, first), first_bytes),
                icon_name(owner, second),
                second_bytes,
            ),
            stem(owner),
        ) == others(files, stem(owner)),
{
    moved_icon_is_the_only_one(files, owner, first, first_bytes);
    moved_icon_is_the_only_one(
        moved(files, icon_name(owner, first), first_bytes),
        owner,
        second,
        second_bytes,
    );
}

/// The name, without extension, of the icon of an owner.
pub fn icon_stem(owner: &str) -> (r: String)
    ensures
        r@ == stem(owner@),
{
    let v = chars_of(owner);
    let mut r = String::new();
    let mut i: usize = 0;
    assert(v@.take(0) =~= Seq::<char>::empty());
    while i < v.len()
        invariant
            i <= v.len(),
            r@ == name_part(v@.take(i as int)),
        decreases v.len() - i,
    {
        assert(v@.take(i + 1).drop_last() =~= v@.take(i as int));
        let c = v[i];
        if c > ' ' && c != '/' && c != '\\' && c != '.' {
            r.push(c);
        }
        i += 1;
    }
    assert(v@.take(v.len() as int) =~= v@);
    if r.as_str().unicode_len() == 0 {
        let spare = String::from_str("webapp");
        proof {
            reveal_strlit("webapp");
            assert(spare@ =~= spare_stem());
        }
        spare
    } else {
        r
    }
}

/// The last position before `upto` that holds `c`, if there is one.
pub fn find_last(s: &Vec<char>, c: char, upto: usize) -> (r: Option<usize>)
    requires
        upto <= s.len(),
    ensures
        match r {
            Some(at) => last_before(s@, c, upto as int) == at && at < upto,
            None => last_before(s@, c, upto as int) == -1,
        },
{
    let mut i: usize = upto;
    while i > 0
        invariant
            i <= upto <= s.len(),
            last_before(s@, c, upto as int) == last_before(s@, c, i as int),
        decreases i,
    {
        if s[i - 1] == c {
            return Some(i - 1);
        }
        i -= 1;
    }
    None
}

/// The extension of a source.
pub fn icon_extension(source: &str) -> (r: String)
    ensures
        r@ == extension(source@),
{
    let v = chars_of(source);
    let query = position(&v, '?', 0);
    let fragment = position(&v, '#', 0);
    proof {
        lemma_position_of(v@, '?', 0);
        lemma_position_of(v@, '#', 0);
    }
    let end = if query < fragment {
        query
    } else {
        fragment
    };
    let spare = String::from_str("png");
    proof {
        reveal_strlit("png");
        assert(spare@ =~= spare_extension());
    }
    match find_last(&v, '.', end) {
        Some(dot) => {
            if dot + 1 < end && end - dot - 1 <= 8 {
                let ghost tail = v@.subrange(dot + 1, end as int);
                let mut r = String::new();
                let mut i: usize = dot + 1;
                while i < end
                    invariant
                        dot + 1 <= i <= end <= v.len(),
                        v@ == source@,
                        end == name_end(v@),
                        dot == last_before(v@, '.', end as int),
                        end - dot - 1 <= 8,
                        spare@ == spare_extension(),
                        tail == v@.subrange(dot + 1, end as int),
                        forall|j: int| 0 <= j < i - dot - 1 ==> is_plain(#[trigger] tail[j]),
                        r@ == lowered(tail).take(i - dot - 1),
                    decreases end - i,
                {
                    let c = v[i];
                    assert(tail[i - dot - 1] == c);
                    if !(('a' <= c && c <= 'z') || ('A' <= c && c <= 'Z') || ('0' <= c && c
                        <= '9')) {
                        assert(!is_plain(tail[i - dot - 1]));
                        return spare;
                    }
                    r.push(to_lower(c));
                    assert(r@ =~= lowered(tail).take(i - dot));
                    i += 1;
                }
                assert(lowered(tail).take(end - dot - 1) =~= lowered(tail));
                r
            } else {
                spare
            }
        },
        None => spare,
    }
}

/// The name of the file that holds the icon of `owner`, taken from `source`:
/// it depends on nothing but the two.
pub fn icon_file_name(owner: &str, source: &str) -> (r: String)
    ensures
        r@ == icon_name(owner@, source@),
{
    let mut r = icon_stem(owner);
    r.push('.');
    r.append(icon_extension(source).as_str());
    r
}

/// The owner's part of the name of an icon file.
pub fn owner_of(file_name: &str) -> (r: String)
    ensures
        r@ == owner_part(file_name@),
{
    let v = chars_of(file_name);
    let dot = position(&v, '.', 0);
    proof {
        lemma_position_of(v@, '.', 0);
    }
    let r = crate::text::substring(&v, 0, dot);
    assert(v@.subrange(0, dot as int) =~= v@.take(dot as int));
    r
}

impl IconStore {
    /// An empty store in `directory`.
    pub fn new(directory: String) -> (r: Self)
        ensures
            r@.directory == directory@,
            r@.files == Seq::<IconFileView>::empty(),
    {
        let r = IconStore { directory, icons: Vec::new() };
        assert(r@.files =~= Seq::<IconFileView>::empty());
        r
    }

    /// The path of a file of the store.
    pub fn path_of(&self, file_name: &str) -> (r: String)
        ensures
            r@ == path_in(self@.directory, file_name@),
    {
        let mut r = self.directory.clone();
        r.push('/');
        r.append(file_name);
        r
    }

    /// Whether the path names no icon, or a file of the directory of the store.
    pub fn holds_path(&self, icon_path: &str) -> (r: bool)
        ensures
            r == icon_in_store(self@.directory, icon_path@),
    {
        let path = chars_of(icon_path);
        let mut start = chars_of(self.directory.as_str());
        start.push('/');
        assert(start@ =~= self@.directory + seq!['/']);
        path.len() == 0 || (crate::text::matches_at(&path, 0, &start) && path.len() > start.len())
    }

    /// Moves an icon in for `owner`: `bytes` are what was read or downloaded
    /// from `source`. The file is named after the owner, with the extension of
    /// the source; every other file of that owner goes, and no file of another
    /// owner is touched. Gives the path of the new file.
    pub fn move_icon(&mut self, source: &str, bytes: Vec<u8>, owner: &str) -> (r: String)
        ensures
            final(self)@.directory == old(self)@.directory,
            final(self)@.files == moved(old(self)@.files, icon_name(owner@, source@), bytes@),
            r@ == path_in(old(self)@.directory, icon_name(owner@, source@)),
    {
        let name = icon_file_name(owner, source);
        let owner_stem = owner_of(name.as_str());
        let path = self.path_of(name.as_str());
        let ghost before = self@.files;
        let ghost mut done: int = 0;
        let mut i: usize = 0;
        assert(before.take(0) =~= Seq::<IconFileView>::empty());
        assert(before.skip(0) =~= before);
        while i < self.icons.len()
            invariant
                0 <= done <= before.len(),
                self.directory == old(self).directory,
                owner_stem@ == owner_part(name@),
                i == others(before.take(done), owner_part(name@)).len(),
                self.icons.deep_view() == others(before.take(done), owner_part(name@))
                    + before.skip(done),
                self.icons.len() - i == before.len() - done,
            decreases before.len() - done,
        {
            let ghost kept = others(before.take(done), owner_part(name@));
            let ghost now = self.icons.deep_view();
            assert(now[i as int] == self.icons@[i as int]@);
            assert(now[i as int] == before[done]);
            assert(before.take(done + 1).drop_last() =~= before.take(done));
            assert(before.take(done + 1).last() == before[done]);
            let belongs = owner_of(self.icons[i].file_name.as_str()) == owner_stem;
            if belongs {
                let _ = self.icons.remove(i);
                assert(self.icons.deep_view() =~= now.remove(i as int));
                assert(now.remove(i as int) =~= kept + before.skip(done + 1));
            } else {
                assert(now =~= kept.push(before[done]) + before.skip(done + 1));
                i += 1;
            }
            proof {
                done = done + 1;
            }
        }
        assert(before.take(done) =~= before);
        let ghost kept = self.icons.deep_view();
        assert(kept =~= others(before, owner_part(name@)));
        let ghost file = IconFileView { name: name@, bytes: bytes@ };
        self.icons.push(StoredIcon { file_name: name, bytes });
        assert(self.icons.deep_view() =~= kept.push(file));
        path
    }

    /// The names of the files that belong to `owner`, in the order of the
    /// files.
    pub fn owned_by(&self, owner: &str) -> (r: Vec<String>)
        ensures
            r.deep_view() == owned_names(self@.files, stem(owner@)),
    {
        let owner_stem = icon_stem(owner);
        let mut r: Vec<String> = Vec::new();
        let mut i: usize = 0;
        let ghost files = self@.files;
        assert(files.take(0) =~= Seq::<IconFileView>::empty());
        assert(r.deep_view() =~= Seq::<Seq<char>>::empty());
        while i < self.icons.len()
            invariant
                i <= self.icons.len(),
                files == self@.files,
                owner_stem@ == stem(owner@),
                r.deep_view() == owned_names(files.take(i as int), stem(owner@)),
            decreases self.icons.len() - i,
        {
            assert(files.take(i + 1).drop_last() =~= files.take(i as int));
            assert(files.take(i + 1).last() == self.icons@[i as int]@);
            if owner_of(self.icons[i].file_name.as_str()) == owner_stem {
                let ghost before = r.deep_view();
                let name = self.icons[i].file_name.clone();
                r.push(name);
                assert(r.deep_view() =~= before.push(self.icons@[i as int].file_name@));
            }
            i += 1;
        }
        assert(files.take(self.icons.len() as int) =~= files);
        r
    }

    /// The name of the file at `path`, if the store holds it.
    pub fn file_at(&self, path: &str) -> (r: Option<String>)
        ensures
            match r {
                Some(name) => 0 <= icon_at(self@, path@, 0) < self@.files.len()
                    && self@.files[icon_at(self@, path@, 0)].name == name@,
                None => icon_at(self@, path@, 0) == self@.files.len(),
            },
    {
        let wanted = String::from_str(path);
        let mut i: usize = 0;
        while i < self.icons.len()
            invariant
                i <= self.icons.len(),
                wanted@ == path@,
                icon_at(self@, path@, 0) == icon_at(self@, path@, i as int),
            decreases self.icons.len() - i,
        {
            assert(self@.files[i as int] == self.icons@[i as int]@);
            if self.path_of(self.icons[i].file_name.as_str()) == wanted {
                return Some(self.icons[i].file_name.clone());
            }
            i += 1;
        }
        None
    }

    /// Removes the file at `path`, and says whether the store held it. A path
    /// that does not lead into the store removes nothing.
    pub fn remove_icon(&mut self, path: &str) -> (r: bool)
        ensures
            final(self)@.directory == old(self)@.directory,
            final(self)@.files == without_icon(old(self)@, path@),
            r == (0 <= icon_at(old(self)@, path@, 0) < old(self)@.files.len()),
    {
        let wanted = String::from_str(path);
        let ghost before = self@;
        let mut i: usize = 0;
        while i < self.icons.len()
            invariant
                i <= self.icons.len(),
                self@ == before,
                before == old(self)@,
                wanted@ == path@,
                icon_at(before, path@, 0) == icon_at(before, path@, i as int),
            decreases self.icons.len() - i,
        {
            assert(before.files[i as int] == self.icons@[i as int]@);
            if self.path_of(self.icons[i].file_name.as_str()) == wanted {
                let _ = self.icons.remove(i);
                assert(self@.files =~= before.files.remove(i as int));
                return true;
            }
            i += 1;
        }
        false
    }
}

/// The entries and the icons of the launchers, and the root of the browser
/// profiles that belong to single launchers.
#[derive(Debug, PartialEq, Eq)]
pub struct Storage {
    pub entries: EntryStore,
    pub icons: IconStore,
    pub profile_root: String,
}

/// What a `Storage` holds, as mathematical values.
pub struct StorageView {
    pub entries: Seq<FileView>,
    pub icons: IconStoreView,
    pub profile_root: Seq<char>,
}

impl View for Storage {
    type V = StorageView;

    open spec fn view(&self) -> StorageView {
        StorageView {
            entries: self.entries@,
            icons: self.icons@,
            profile_root: self.profile_root@,
        }
    }
}

/// The codename under which a launcher is saved: that of the launcher it
/// replaces, or a fresh one.
pub open spec fn saving_codename(
    entries: Seq<FileView>,
    previous: Option<LauncherView>,
    name: Seq<char>,
    seed: nat,
) -> Seq<char> {
    match previous {
        Some(p) => p.codename,
        None => fresh(entries, name, seed),
    }
}

/// The path names no icon, or a file of the directory of the icon store.
pub open spec fn icon_in_store(directory: Seq<char>, icon_path: Seq<char>) -> bool {
    icon_path.len() == 0 || (begins_with(icon_path, directory + seq!['/']) && icon_path.len()
        > directory.len() + 1)
}

/// The launcher that saving the form persists, if it persists one: the form
/// names a category, describes a valid launcher, and its icon, if it has one,
/// lies in the icon store.
pub open spec fn saving(
    entries: Seq<FileView>,
    icon_directory: Seq<char>,
    previous: Option<LauncherView>,
    form: FormView,
    seed: nat,
    browsers: Seq<BrowserView>,
) -> Option<LauncherView> {
    match form_launcher(
        form,
        saving_codename(entries, previous, form.name, seed),
        browsers,
    ) {
        Some(l) => if l.is_valid && icon_in_store(icon_directory, l.icon_path) {
            Some(l)
        } else {
            None
        },
        None => None,
    }
}

/// The entries before the new entry is written: without the entry of the
/// launcher that is replaced.
pub open spec fn cleared(entries: Seq<FileView>, previous: Option<LauncherView>) -> Seq<FileView> {
    match previous {
        Some(p) => deleted(entries, p.codename),
        None => entries,
    }
}

impl Storage {
    /// Persists the launcher. A launcher that is not valid is refused with
    /// `Error::Validation` and nothing is written.
    pub fn create(&mut self, launcher: &WebAppLauncher) -> (r: Result<(), Error>)
        ensures
            final(self)@.icons == old(self)@.icons,
            final(self)@.profile_root == old(self)@.profile_root,
            launcher.is_valid ==> r is Ok && final(self)@.entries == created(
                old(self)@.entries,
                launcher@,
                old(self)@.profile_root,
            ),
            !launcher.is_valid ==> r == Err::<(), Error>(Error::Validation) && final(self)@.entries
                == old(self)@.entries,
    {
        self.entries.create(launcher, self.profile_root.as_str())
    }

    /// Removes the entry of the launcher and its icon from the icon store.
    /// That either is not there is no error.
    pub fn delete(&mut self, launcher: &WebAppLauncher) -> (r: Result<(), Error>)
        ensures
            r is Ok,
            final(self)@.profile_root == old(self)@.profile_root,
            final(self)@.entries == deleted(old(self)@.entries, launcher@.codename),
            final(self)@.icons.directory == old(self)@.icons.directory,
            final(self)@.icons.files == without_icon(old(self)@.icons, launcher@.icon_path),
    {
        let _ = self.icons.remove_icon(launcher.icon_path.as_str());
        self.entries.delete(launcher)
    }

    /// The launchers that the storage persists, each read on its own.
    pub fn list(&self, browsers: &Vec<Browser>) -> (r: Vec<Result<WebAppLauncher, Error>>)
        ensures
            outcomes(r@) == listed(self@.entries, browsers.deep_view()),
    {
        self.entries.list(browsers)
    }

    /// Moves an icon in for `owner` and gives the path of its file.
    pub fn move_icon(&mut self, source: &str, bytes: Vec<u8>, owner: &str) -> (r: String)
        ensures
            final(self)@.entries == old(self)@.entries,
            final(self)@.profile_root == old(self)@.profile_root,
            final(self)@.icons.directory == old(self)@.icons.directory,
            final(self)@.icons.files == moved(
                old(self)@.icons.files,
                icon_name(owner@, source@),
                bytes@,
            ),
            r@ == path_in(old(self)@.icons.directory, icon_name(owner@, source@)),
    {
        self.icons.move_icon(source, bytes, owner)
    }

    /// Saves the form as a launcher: a new one under a fresh codename, counted
    /// from `seed`, or, where `previous` is given, in the place of that
    /// launcher and under its codename. The entry of the replaced launcher is
    /// removed before the new one is written. Where the form names no
    /// category, does not describe a valid launcher, or names an icon outside
    /// the icon store, nothing changes and the failure is `Error::Validation`.
    pub fn save(
        &mut self,
        previous: Option<&WebAppLauncher>,
        form: &LauncherForm,
        seed: u64,
        browsers: &Vec<Browser>,
    ) -> (r: Result<WebAppLauncher, Error>)
        ensures
            final(self)@.icons == old(self)@.icons,
            final(self)@.profile_root == old(self)@.profile_root,
            match saving(
                old(self)@.entries,
                old(self)@.icons.directory,
                match previous {
                    Some(p) => Some(p@),
                    None => None,
                },
                form@,
                seed as nat,
                browsers.deep_view(),
            ) {
                Some(l) => r is Ok && r->Ok_0@ == l && final(self)@.entries == created(
                    cleared(
                        old(self)@.entries,
                        match previous {
                            Some(p) => Some(p@),
                            None => None,
                        },
                    ),
                    l,
                    old(self)@.profile_root,
                ),
                None => r == Err::<WebAppLauncher, Error>(Error::Validation)
                    && final(self)@.entries == old(self)@.entries,
            },
    {
        let codename = match previous {
            Some(p) => p.codename.clone(),
            None => self.entries.fresh_codename(form.name.as_str(), seed),
        };
        match form.launcher(codename, browsers) {
            Some(launcher) => {
                if !launcher.is_valid || !self.icons.holds_path(launcher.icon_path.as_str()) {
                    return Err(Error::Validation);
                }
                match previous {
                    Some(p) => {
                        let _ = self.entries.delete(p);
                    },
                    None => {},
                }
                let _ = self.entries.create(&launcher, self.profile_root.as_str());
                Ok(launcher)
            },
            None => Err(Error::Validation),
        }
    }
}

} // verus!

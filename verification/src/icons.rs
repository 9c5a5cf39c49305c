//! The icon pipeline: the candidates for the icon of a site, in the order in
//! which they are tried, and what the bytes of a candidate are taken for.

use crate::browser::push_text;
use crate::error::Error;
use crate::gui::{Icon, IconType, IconTypeView, IconView};
use crate::page::{declared_icons, icons_of, DeclaredIcon, DeclaredView};
use crate::text::{begins_with, chars_of, finishes_with, lowercase, lowered, matches_at};
use crate::weburl::{has_scheme, is_remote, join_url, url_join};
use vstd::prelude::*;
use vstd::seq_lib::{to_multiset_build, to_multiset_insert};
use vstd::string::StringExecFns;

verus! {

/// No search gives more candidates than this.
pub const MAX_CANDIDATES: usize = 24;

/// The first position at or after `from` of an icon that states less than
/// `size`, or the number of icons.
pub open spec fn slot(sorted: Seq<DeclaredView>, size: nat, from: int) -> int
    decreases sorted.len() - from,
{
    if from < 0 || from >= sorted.len() {
        sorted.len() as int
    } else if sorted[from].size < size {
        from
    } else {
        slot(sorted, size, from + 1)
    }
}

/// The icons with one more, put behind those that state at least its size.
pub open spec fn placed(sorted: Seq<DeclaredView>, icon: DeclaredView) -> Seq<DeclaredView> {
    sorted.insert(slot(sorted, icon.size, 0), icon)
}

/// The icons by descending stated size; of two that state the same size the
/// one declared first comes first.
pub open spec fn by_size(icons: Seq<DeclaredView>) -> Seq<DeclaredView>
    decreases icons.len(),
{
    if icons.len() == 0 {
        Seq::empty()
    } else {
        placed(by_size(icons.drop_last()), icons.last())
    }
}

/// No icon states more than one before it.
pub open spec fn descending(icons: Seq<DeclaredView>) -> bool {
    forall|a: int, b: int| 0 <= a < b < icons.len() ==> icons[a].size >= icons[b].size
}

/// The locations that the references of the icons name when found at `base`,
/// in the order of the icons; a reference that names none is left out.
pub open spec fn located(base: Seq<char>, icons: Seq<DeclaredView>) -> Seq<Seq<char>>
    decreases icons.len(),
{
    if icons.len() == 0 {
        Seq::empty()
    } else {
        let rest = located(base, icons.drop_last());
        match url_join(base, icons.last().href) {
            Some(location) => rest.push(location),
            None => rest,
        }
    }
}

/// The items without repetition: of equal ones the first stays.
pub open spec fn unique(items: Seq<Seq<char>>) -> Seq<Seq<char>>
    decreases items.len(),
{
    if items.len() == 0 {
        Seq::empty()
    } else {
        let rest = unique(items.drop_last());
        if rest.contains(items.last()) {
            rest
        } else {
            rest.push(items.last())
        }
    }
}

/// The first items, as many as a search may give.
pub open spec fn capped(items: Seq<Seq<char>>) -> Seq<Seq<char>> {
    if items.len() > MAX_CANDIDATES {
        items.take(MAX_CANDIDATES as int)
    } else {
        items
    }
}

/// The candidates of a search: the declared locations, then the named icons,
/// without repetition and capped.
pub open spec fn merged(declared: Seq<Seq<char>>, named: Seq<Seq<char>>) -> Seq<Seq<char>> {
    capped(unique(declared + named))
}

/// The locations of the icons that the page at `source_url` declares, by
/// descending stated size; none where there is no address or no page.
pub open spec fn declared_locations(
    source_url: Option<Seq<char>>,
    page: Option<Seq<char>>,
) -> Seq<Seq<char>> {
    match (source_url, page) {
        (Some(base), Some(text)) => located(base, by_size(icons_of(text))),
        _ => Seq::empty(),
    }
}

/// The candidates for the icon of a site: what its page declares, then the
/// named icons that were found.
pub open spec fn candidates(
    source_url: Option<Seq<char>>,
    page: Option<Seq<char>>,
    named: Seq<Seq<char>>,
) -> Seq<Seq<char>> {
    merged(declared_locations(source_url, page), named)
}

/// What `slot` returns.
pub proof fn lemma_slot(sorted: Seq<DeclaredView>, size: nat, from: int)
    requires
        0 <= from <= sorted.len(),
    ensures
        from <= slot(sorted, size, from) <= sorted.len(),
        forall|j: int| from <= j < slot(sorted, size, from) ==> sorted[j].size >= size,
        slot(sorted, size, from) < sorted.len() ==> sorted[slot(sorted, size, from)].size < size,
    decreases sorted.len() - from,
{
    if from < sorted.len() && sorted[from].size >= size {
        lemma_slot(sorted, size, from + 1);
    }
}

/// Ordering by size gives the same icons, each as often as before, and none
/// states more than one before it.
pub proof fn ordering_by_size_sorts(icons: Seq<DeclaredView>)
    ensures
        descending(by_size(icons)),
        by_size(icons).len() == icons.len(),
        by_size(icons).to_multiset() == icons.to_multiset(),
    decreases icons.len(),
{
    if icons.len() == 0 {
        assert(by_size(icons) =~= icons);
    } else {
        let init = icons.drop_last();
        let last = icons.last();
        let sorted = by_size(init);
        ordering_by_size_sorts(init);
        lemma_slot(sorted, last.size, 0);
        let at = slot(sorted, last.size, 0);
        let after = sorted.insert(at, last);
        assert forall|a: int, b: int| 0 <= a < b < after.len() implies after[a].size
            >= after[b].size by {
            if b < at {
                assert(after[a] == sorted[a] && after[b] == sorted[b]);
            } else if b == at {
                assert(after[a] == sorted[a]);
            } else if a < at {
                assert(after[a] == sorted[a] && after[b] == sorted[b - 1]);
            } else if a == at {
                assert(after[b] == sorted[b - 1]);
            } else {
                assert(after[a] == sorted[a - 1] && after[b] == sorted[b - 1]);
            }
        }
        to_multiset_insert(sorted, at, last);
        to_multiset_build(init, last);
        assert(init.push(last) =~= icons);
    }
}

/// The items without repetition hold every item, and none twice.
pub proof fn lemma_unique(items: Seq<Seq<char>>)
    ensures
        unique(items).no_duplicates(),
        unique(items).len() <= items.len(),
        forall|x: Seq<char>| unique(items).contains(x) <==> items.contains(x),
    decreases items.len(),
{
    if items.len() > 0 {
        let init = items.drop_last();
        let last = items.last();
        let rest = unique(init);
        lemma_unique(init);
        assert forall|x: Seq<char>| unique(items).contains(x) <==> items.contains(x) by {
            if items.contains(x) {
                let i = choose|i: int| 0 <= i < items.len() && items[i] == x;
                if i < init.len() {
                    assert(init[i] == x);
                    assert(init.contains(x));
                    assert(rest.contains(x));
                    let j = choose|j: int| 0 <= j < rest.len() && rest[j] == x;
                    assert(unique(items)[j] == x);
                } else {
                    if !rest.contains(last) {
                        assert(unique(items)[rest.len() as int] == x);
                    }
                }
            }
            if unique(items).contains(x) {
                let j = choose|j: int| 0 <= j < unique(items).len() && unique(items)[j] == x;
                if j < rest.len() {
                    assert(rest[j] == x);
                    assert(init.contains(x));
                    let i = choose|i: int| 0 <= i < init.len() && init[i] == x;
                    assert(items[i] == x);
                } else {
                    assert(items[items.len() - 1] == x);
                }
            }
        }
    }
}

/// A search gives no candidate twice and no more than it may.
pub proof fn candidates_are_distinct_and_few(
    source_url: Option<Seq<char>>,
    page: Option<Seq<char>>,
    named: Seq<Seq<char>>,
)
    ensures
        candidates(source_url, page, named).no_duplicates(),
        candidates(source_url, page, named).len() <= MAX_CANDIDATES,
{
    lemma_unique(declared_locations(source_url, page) + named);
}

/// Where the page cannot be had, the named icons are all there is; where there
/// are none either, the search gives nothing.
pub proof fn unreachable_page_gives_named_only(source_url: Option<Seq<char>>, named: Seq<Seq<char>>)
    ensures
        candidates(source_url, None, named) == capped(unique(named)),
        candidates(source_url, None, Seq::empty()) == Seq::<Seq<char>>::empty(),
{
    assert(Seq::<Seq<char>>::empty() + named =~= named);
    assert(Seq::<Seq<char>>::empty() + Seq::<Seq<char>>::empty() =~= Seq::<Seq<char>>::empty());
}

/// The icons by descending stated size.
pub fn order_by_size(icons: &Vec<DeclaredIcon>) -> (r: Vec<DeclaredIcon>)
    ensures
        r.deep_view() == by_size(icons.deep_view()),
{
    let mut r: Vec<DeclaredIcon> = Vec::new();
    let mut i: usize = 0;
    assert(r.deep_view() =~= Seq::<DeclaredView>::empty());
    assert(icons.deep_view().take(0) =~= Seq::<DeclaredView>::empty());
    while i < icons.len()
        invariant
            i <= icons.len(),
            r.len() == i,
            r.deep_view() == by_size(icons.deep_view().take(i as int)),
        decreases icons.len() - i,
    {
        let icon = icons[i].clone();
        let ghost sorted = r.deep_view();
        assert(icons.deep_view().take(i + 1).drop_last() =~= icons.deep_view().take(i as int));
        assert(icons.deep_view().take(i + 1).last() == icon@);
        let mut at: usize = 0;
        while at < r.len() && r[at].size >= icon.size
            invariant
                at <= r.len(),
                sorted == r.deep_view(),
                slot(sorted, icon@.size, 0) == slot(sorted, icon@.size, at as int),
            decreases r.len() - at,
        {
            assert(sorted[at as int] == r@[at as int]@);
            at += 1;
        }
        assert(at < r.len() ==> sorted[at as int] == r@[at as int]@);
        let ghost found = icon@;
        r.insert(at, icon);
        assert(r.deep_view() =~= sorted.insert(at as int, found));
        i += 1;
    }
    assert(icons.deep_view().take(icons.len() as int) =~= icons.deep_view());
    r
}

/// The locations that the references of the icons name when found at `base`.
pub fn locate(base: &str, icons: &Vec<DeclaredIcon>) -> (r: Vec<String>)
    ensures
        r.deep_view() == located(base@, icons.deep_view()),
{
    let mut r: Vec<String> = Vec::new();
    let mut i: usize = 0;
    assert(r.deep_view() =~= Seq::<Seq<char>>::empty());
    assert(icons.deep_view().take(0) =~= Seq::<DeclaredView>::empty());
    while i < icons.len()
        invariant
            i <= icons.len(),
            r.deep_view() == located(base@, icons.deep_view().take(i as int)),
        decreases icons.len() - i,
    {
        assert(icons.deep_view().take(i + 1).drop_last() =~= icons.deep_view().take(i as int));
        assert(icons.deep_view().take(i + 1).last() == icons@[i as int]@);
        match join_url(base, icons[i].href.as_str()) {
            Some(location) => {
                push_text(&mut r, location);
            },
            None => {},
        }
        i += 1;
    }
    assert(icons.deep_view().take(icons.len() as int) =~= icons.deep_view());
    r
}

/// Whether `items` holds `wanted`.
pub fn holds(items: &Vec<String>, wanted: &String) -> (r: bool)
    ensures
        r == items.deep_view().contains(wanted@),
{
    let mut i: usize = 0;
    while i < items.len()
        invariant
            i <= items.len(),
            forall|j: int| 0 <= j < i ==> items.deep_view()[j] != wanted@,
        decreases items.len() - i,
    {
        assert(items.deep_view()[i as int] == items@[i as int]@);
        if items[i] == *wanted {
            return true;
        }
        i += 1;
    }
    false
}

/// The candidates of a search from the declared locations and the named icons
/// that were found: in that order, none twice, and no more than a search may
/// give.
pub fn merge_candidates(declared: &Vec<String>, named: &Vec<String>) -> (r: Vec<String>)
    ensures
        r.deep_view() == merged(declared.deep_view(), named.deep_view()),
{
    let mut r: Vec<String> = Vec::new();
    let ghost d = declared.deep_view();
    let ghost n = named.deep_view();
    assert(r.deep_view() =~= Seq::<Seq<char>>::empty());
    assert(d.take(0) =~= Seq::<Seq<char>>::empty());
    let mut i: usize = 0;
    while i < declared.len()
        invariant
            i <= declared.len(),
            d == declared.deep_view(),
            r.deep_view() == unique(d.take(i as int)),
        decreases declared.len() - i,
    {
        assert(d.take(i + 1).drop_last() =~= d.take(i as int));
        assert(d.take(i + 1).last() == declared@[i as int]@);
        if !holds(&r, &declared[i]) {
            push_text(&mut r, declared[i].clone());
        }
        i += 1;
    }
    assert(d.take(declared.len() as int) =~= d);
    assert(d + n.take(0) =~= d);
    let mut j: usize = 0;
    while j < named.len()
        invariant
            j <= named.len(),
            d == declared.deep_view(),
            n == named.deep_view(),
            r.deep_view() == unique(d + n.take(j as int)),
        decreases named.len() - j,
    {
        assert((d + n.take(j + 1)).drop_last() =~= d + n.take(j as int));
        assert((d + n.take(j + 1)).last() == named@[j as int]@);
        if !holds(&r, &named[j]) {
            push_text(&mut r, named[j].clone());
        }
        j += 1;
    }
    assert(n.take(named.len() as int) =~= n);
    if r.len() > MAX_CANDIDATES {
        let ghost all = r.deep_view();
        r.truncate(MAX_CANDIDATES);
        assert(r.deep_view() =~= all.take(MAX_CANDIDATES as int));
    }
    r
}

/// The candidates for the icon of a site. `page` is the text of the page at
/// `source_url`, `None` where it could not be fetched; `named` are the named
/// icons that the lookup found. What the page declares comes first, by
/// descending stated size, each reference resolved against the address of the
/// page; the named icons follow. No candidate comes twice, and there are no
/// more than `MAX_CANDIDATES`. Where the page could not be had and no named
/// icon was found, there is none.
pub fn find_icons(source_url: Option<&str>, page: Option<&str>, named: &Vec<String>) -> (r: Vec<
    String,
>)
    ensures
        r.deep_view() == candidates(
            match source_url {
                Some(u) => Some(u@),
                None => None,
            },
            match page {
                Some(p) => Some(p@),
                None => None,
            },
            named.deep_view(),
        ),
        page is None && named.len() == 0 ==> r.len() == 0,
        r.len() <= MAX_CANDIDATES,
{
    let declared = match (source_url, page) {
        (Some(base), Some(text)) => {
            let icons = declared_icons(text);
            let sorted = order_by_size(&icons);
            locate(base, &sorted)
        },
        _ => {
            let none: Vec<String> = Vec::new();
            assert(none.deep_view() =~= Seq::<Seq<char>>::empty());
            none
        },
    };
    let r = merge_candidates(&declared, named);
    proof {
        assert(r.deep_view().len() == r.len());
        assert(capped(unique(declared.deep_view() + named.deep_view())).len() <= MAX_CANDIDATES);
        if page is None && named.len() == 0 {
            assert(declared.deep_view() + named.deep_view() =~= Seq::<Seq<char>>::empty());
        }
    }
    r
}

/// `pattern` stands in `bytes` at position `at`.
pub open spec fn bytes_at(bytes: Seq<u8>, pattern: Seq<u8>, at: int) -> bool {
    0 <= at && at + pattern.len() <= bytes.len() && bytes.subrange(at, at + pattern.len())
        == pattern
}

/// `pattern` stands in `bytes` at or after `from`.
pub open spec fn bytes_from(bytes: Seq<u8>, pattern: Seq<u8>, from: int) -> bool
    decreases bytes.len() + 1 - from,
{
    if from < 0 || from + pattern.len() > bytes.len() {
        false
    } else if bytes_at(bytes, pattern, from) {
        true
    } else {
        bytes_from(bytes, pattern, from + 1)
    }
}

/// How the markup of a vector image opens its root: `<svg`.
pub open spec fn svg_mark() -> Seq<u8> {
    seq![0x3cu8, 0x73u8, 0x76u8, 0x67u8]
}

/// The first bytes of a PNG image.
pub open spec fn png_mark() -> Seq<u8> {
    seq![0x89u8, 0x50u8, 0x4eu8, 0x47u8, 0x0du8, 0x0au8, 0x1au8, 0x0au8]
}

/// The first bytes of a JPEG image.
pub open spec fn jpeg_mark() -> Seq<u8> {
    seq![0xffu8, 0xd8u8, 0xffu8]
}

/// The first bytes of a GIF image.
pub open spec fn gif_mark() -> Seq<u8> {
    seq![0x47u8, 0x49u8, 0x46u8, 0x38u8]
}

/// The first bytes of a BMP image.
pub open spec fn bmp_mark() -> Seq<u8> {
    seq![0x42u8, 0x4du8]
}

/// The first bytes of an ICO image.
pub open spec fn ico_mark() -> Seq<u8> {
    seq![0x00u8, 0x00u8, 0x01u8, 0x00u8]
}

/// The first bytes of a RIFF container.
pub open spec fn riff_mark() -> Seq<u8> {
    seq![0x52u8, 0x49u8, 0x46u8, 0x46u8]
}

/// What a RIFF container that holds a WebP image says at its ninth byte.
pub open spec fn webp_mark() -> Seq<u8> {
    seq![0x57u8, 0x45u8, 0x42u8, 0x50u8]
}

/// The bytes open like a raster image that can be shown: PNG, JPEG, GIF, BMP,
/// ICO or WebP.
pub open spec fn is_raster(bytes: Seq<u8>) -> bool {
    bytes_at(bytes, png_mark(), 0) || bytes_at(bytes, jpeg_mark(), 0) || bytes_at(
        bytes,
        gif_mark(),
        0,
    ) || bytes_at(bytes, bmp_mark(), 0) || bytes_at(bytes, ico_mark(), 0) || (bytes_at(
        bytes,
        riff_mark(),
        0,
    ) && bytes_at(bytes, webp_mark(), 8))
}

/// The bytes hold the root of a vector image.
pub open spec fn is_vector(bytes: Seq<u8>) -> bool {
    bytes_from(bytes, svg_mark(), 0)
}

/// The source is taken for a vector image: its name ends in `.svg`, in either
/// case, or its declared type begins with `image/svg`.
pub open spec fn vector_source(path: Seq<char>, declared_type: Seq<char>) -> bool {
    finishes_with(lowered(path), ".svg"@) || begins_with(lowered(declared_type), "image/svg"@)
}

/// What the bytes of a source are decoded to: a vector image where the source
/// is taken for one, else a raster image; a failure where the bytes are not
/// what they are taken for.
pub open spec fn decoded(path: Seq<char>, declared_type: Seq<char>, bytes: Seq<u8>) -> Result<
    IconView,
    Error,
> {
    if vector_source(path, declared_type) {
        if is_vector(bytes) {
            Ok(IconView { icon: IconTypeView::Svg(bytes), path })
        } else {
            Err(Error::Decode)
        }
    } else {
        if is_raster(bytes) {
            Ok(IconView { icon: IconTypeView::Raster(bytes), path })
        } else {
            Err(Error::Decode)
        }
    }
}

/// What a candidate gives once it was fetched: the decoded icon, or, where
/// nothing could be fetched, a network failure for an address and a file
/// failure for a path.
pub open spec fn fetched_icon(
    candidate: Seq<char>,
    declared_type: Seq<char>,
    fetched: Option<Seq<u8>>,
) -> Result<IconView, Error> {
    match fetched {
        Some(bytes) => decoded(candidate, declared_type, bytes),
        None => if has_scheme(candidate) {
            Err(Error::Network)
        } else {
            Err(Error::Io)
        },
    }
}

/// The view of what decoding gave.
pub open spec fn icon_outcome(r: Result<Icon, Error>) -> Result<IconView, Error> {
    match r {
        Ok(icon) => Ok(icon@),
        Err(e) => Err(e),
    }
}

/// Whether `pattern` stands in `bytes` at position `at`.
pub fn has_bytes_at(bytes: &Vec<u8>, pattern: &Vec<u8>, at: usize) -> (r: bool)
    ensures
        r == bytes_at(bytes@, pattern@, at as int),
{
    if pattern.len() > bytes.len() || at > bytes.len() - pattern.len() {
        return false;
    }
    let mut k: usize = 0;
    while k < pattern.len()
        invariant
            k <= pattern.len(),
            at + pattern.len() <= bytes.len(),
            forall|j: int| 0 <= j < k ==> bytes@[at + j] == pattern@[j],
        decreases pattern.len() - k,
    {
        if bytes[at + k] != pattern[k] {
            assert(bytes@.subrange(at as int, at + pattern.len())[k as int] == bytes@[at + k]);
            return false;
        }
        k += 1;
    }
    assert(bytes@.subrange(at as int, at + pattern.len()) =~= pattern@);
    true
}

/// Whether `pattern` stands somewhere in `bytes`.
pub fn has_bytes(bytes: &Vec<u8>, pattern: &Vec<u8>) -> (r: bool)
    ensures
        r == bytes_from(bytes@, pattern@, 0),
{
    let mut i: usize = 0;
    while i < bytes.len()
        invariant
            i <= bytes.len(),
            bytes_from(bytes@, pattern@, 0) == bytes_from(bytes@, pattern@, i as int),
        decreases bytes.len() - i,
    {
        if has_bytes_at(bytes, pattern, i) {
            return true;
        }
        assert(bytes_from(bytes@, pattern@, i as int) == bytes_from(bytes@, pattern@, i + 1));
        i += 1;
    }
    assert(!bytes_from(bytes@, pattern@, i + 1));
    has_bytes_at(bytes, pattern, i)
}

/// Whether the bytes open like a raster image that can be shown.
pub fn looks_like_raster(bytes: &Vec<u8>) -> (r: bool)
    ensures
        r == is_raster(bytes@),
{
    let png: Vec<u8> = vec![0x89u8, 0x50u8, 0x4eu8, 0x47u8, 0x0du8, 0x0au8, 0x1au8, 0x0au8];
    let jpeg: Vec<u8> = vec![0xffu8, 0xd8u8, 0xffu8];
    let gif: Vec<u8> = vec![0x47u8, 0x49u8, 0x46u8, 0x38u8];
    let bmp: Vec<u8> = vec![0x42u8, 0x4du8];
    let ico: Vec<u8> = vec![0x00u8, 0x00u8, 0x01u8, 0x00u8];
    let riff: Vec<u8> = vec![0x52u8, 0x49u8, 0x46u8, 0x46u8];
    let webp: Vec<u8> = vec![0x57u8, 0x45u8, 0x42u8, 0x50u8];
    assert(png@ =~= png_mark() && jpeg@ =~= jpeg_mark() && gif@ =~= gif_mark());
    assert(bmp@ =~= bmp_mark() && ico@ =~= ico_mark() && riff@ =~= riff_mark() && webp@
        =~= webp_mark());
    has_bytes_at(bytes, &png, 0) || has_bytes_at(bytes, &jpeg, 0) || has_bytes_at(bytes, &gif, 0)
        || has_bytes_at(bytes, &bmp, 0) || has_bytes_at(bytes, &ico, 0) || (has_bytes_at(
        bytes,
        &riff,
        0,
    ) && has_bytes_at(bytes, &webp, 8))
}

/// Whether the bytes hold the root of a vector image.
pub fn looks_like_vector(bytes: &Vec<u8>) -> (r: bool)
    ensures
        r == is_vector(bytes@),
{
    let mark: Vec<u8> = vec![0x3cu8, 0x73u8, 0x76u8, 0x67u8];
    assert(mark@ =~= svg_mark());
    has_bytes(bytes, &mark)
}

/// Whether the source is taken for a vector image.
pub fn is_vector_source(path: &str, declared_type: &str) -> (r: bool)
    ensures
        r == vector_source(path@, declared_type@),
{
    let name = lowercase(&chars_of(path));
    let kind = lowercase(&chars_of(declared_type));
    let ending = chars_of(".svg");
    let opening = chars_of("image/svg");
    (ending.len() <= name.len() && matches_at(&name, name.len() - ending.len(), &ending))
        || matches_at(&kind, 0, &opening)
}

/// Decodes the bytes of a source: as a vector image where the source is taken
/// for one, else as a raster image. Bytes that are not what the source is taken
/// for give `Error::Decode`.
pub fn decode_icon(path: String, declared_type: &str, bytes: Vec<u8>) -> (r: Result<Icon, Error>)
    ensures
        icon_outcome(r) == decoded(path@, declared_type@, bytes@),
{
    if is_vector_source(path.as_str(), declared_type) {
        if looks_like_vector(&bytes) {
            Ok(Icon::new(IconType::Svg(bytes), path))
        } else {
            Err(Error::Decode)
        }
    } else {
        if looks_like_raster(&bytes) {
            Ok(Icon::new(IconType::Raster(bytes), path))
        } else {
            Err(Error::Decode)
        }
    }
}

/// The icon of a candidate from what fetching it gave: `fetched` holds the
/// bytes that were read or downloaded, `None` where there were none to be had.
pub fn fetch_and_decode(candidate: String, declared_type: &str, fetched: Option<Vec<u8>>) -> (r:
    Result<Icon, Error>)
    ensures
        icon_outcome(r) == fetched_icon(
            candidate@,
            declared_type@,
            match fetched {
                Some(bytes) => Some(bytes@),
                None => None,
            },
        ),
{
    match fetched {
        Some(bytes) => decode_icon(candidate, declared_type, bytes),
        None => {
            if is_remote(candidate.as_str()) {
                Err(Error::Network)
            } else {
                Err(Error::Io)
            }
        },
    }
}

/// The text can be the name of a file in a directory: it is not empty, holds
/// neither `/` nor the character 0, and is neither `.` nor `..`.
pub open spec fn is_file_name(name: Seq<char>) -> bool {
    name.len() > 0 && name != seq!['.'] && name != seq!['.', '.'] && forall|i: int|
        0 <= i < name.len() ==> name[i] != '/' && name[i] != '\0'
}

/// The places below a data directory where a named icon may lie, each with the
/// extension of the files there, in the order in which they are tried.
pub open spec fn icon_spots() -> Seq<(Seq<char>, Seq<char>)> {
    seq![
        ("icons/hicolor/scalable/apps"@, "svg"@),
        ("icons/hicolor/256x256/apps"@, "png"@),
        ("icons/hicolor/128x128/apps"@, "png"@),
        ("icons/hicolor/48x48/apps"@, "png"@),
        ("pixmaps"@, "png"@),
        ("pixmaps"@, "svg"@),
    ]
}

/// The path of the icon named `token` at a spot of a data directory.
pub open spec fn spot_path(
    directory: Seq<char>,
    spot: (Seq<char>, Seq<char>),
    token: Seq<char>,
) -> Seq<char> {
    directory + seq!['/'] + spot.0 + seq!['/'] + token + seq!['.'] + spot.1
}

/// The paths where the icon named `token` may lie in one data directory.
pub open spec fn paths_in(directory: Seq<char>, token: Seq<char>) -> Seq<Seq<char>> {
    Seq::new(icon_spots().len(), |i: int| spot_path(directory, icon_spots()[i], token))
}

/// The paths where the icon named `token` may lie, directory by directory;
/// none where the token cannot be the name of a file.
pub open spec fn named_paths(directories: Seq<Seq<char>>, token: Seq<char>) -> Seq<Seq<char>>
    decreases directories.len(),
{
    if directories.len() == 0 || !is_file_name(token) {
        Seq::empty()
    } else {
        named_paths(directories.drop_last(), token) + paths_in(directories.last(), token)
    }
}

/// Whether the text can be the name of a file in a directory.
pub fn is_safe_file_name(name: &str) -> (r: bool)
    ensures
        r == is_file_name(name@),
{
    let v = chars_of(name);
    if v.len() == 0 {
        return false;
    }
    if v.len() == 1 && v[0] == '.' {
        assert(v@ =~= seq!['.']);
        return false;
    }
    if v.len() == 2 && v[0] == '.' && v[1] == '.' {
        assert(v@ =~= seq!['.', '.']);
        return false;
    }
    let mut i: usize = 0;
    while i < v.len()
        invariant
            i <= v.len(),
            v@ == name@,
            forall|k: int| 0 <= k < i ==> v@[k] != '/' && v@[k] != '\0',
        decreases v.len() - i,
    {
        if v[i] == '/' || v[i] == '\0' {
            return false;
        }
        i += 1;
    }
    assert(v@ != seq!['.']) by {
        if v@ == seq!['.'] {
            assert(v@.len() == 1 && v@[0] == '.');
        }
    }
    assert(v@ != seq!['.', '.']) by {
        if v@ == seq!['.', '.'] {
            assert(v@.len() == 2 && v@[0] == '.' && v@[1] == '.');
        }
    }
    true
}

/// The path of the icon named `token` at a spot of a data directory.
fn path_at(directory: &str, spot: &str, token: &str, extension: &str) -> (r: String)
    ensures
        r@ == spot_path(directory@, (spot@, extension@), token@),
{
    let mut r = String::from_str(directory);
    r.push('/');
    r.append(spot);
    r.push('/');
    r.append(token);
    r.push('.');
    r.append(extension);
    r
}

/// The paths where the icon named `token` may lie in the data directories, in
/// the order in which they are tried. Which of them exist is for the caller to
/// find out.
pub fn named_icon_paths(directories: &Vec<String>, token: &str) -> (r: Vec<String>)
    ensures
        r.deep_view() == named_paths(directories.deep_view(), token@),
{
    let mut r: Vec<String> = Vec::new();
    assert(r.deep_view() =~= Seq::<Seq<char>>::empty());
    if !is_safe_file_name(token) {
        return r;
    }
    let ghost all = directories.deep_view();
    assert(all.take(0) =~= Seq::<Seq<char>>::empty());
    let mut i: usize = 0;
    while i < directories.len()
        invariant
            i <= directories.len(),
            all == directories.deep_view(),
            is_file_name(token@),
            r.deep_view() == named_paths(all.take(i as int), token@),
        decreases directories.len() - i,
    {
        let ghost before = r.deep_view();
        assert(all.take(i + 1).drop_last() =~= all.take(i as int));
        assert(all.take(i + 1).last() == directories@[i as int]@);
        let directory = directories[i].as_str();
        push_text(&mut r, path_at(directory, "icons/hicolor/scalable/apps", token, "svg"));
        push_text(&mut r, path_at(directory, "icons/hicolor/256x256/apps", token, "png"));
        push_text(&mut r, path_at(directory, "icons/hicolor/128x128/apps", token, "png"));
        push_text(&mut r, path_at(directory, "icons/hicolor/48x48/apps", token, "png"));
        push_text(&mut r, path_at(directory, "pixmaps", token, "png"));
        push_text(&mut r, path_at(directory, "pixmaps", token, "svg"));
        assert(r.deep_view() =~= before + paths_in(directories@[i as int]@, token@));
        i += 1;
    }
    assert(all.take(directories.len() as int) =~= all);
    r
}

} // verus!

//! The launcher of a web application, and the entry that persists it.

use crate::browser::{
    build_launch_arguments, launch_arguments, lemma_resolved, push_text, resolve, Browser,
    BrowserFamily, BrowserView,
};
use crate::entry::{
    document, escape, escaped, header_and_fields, is_key, lemma_escaped_single_line,
    lemma_field_of_document, lemma_unescape_escaped, lines_of, lookup, lookup_text, make_line,
    single_line, text_of, value_of, write_document,
};
use crate::error::Error;
use crate::text::{
    begins_with, chars_of, finishes_with, join, joined, matches_at, same_chars, split, substring,
};
use crate::weburl::{normalize_url, normalized, parses_as_url, url_parses};
use vstd::prelude::*;
use vstd::string::StringExecFns;

verus! {

/// The category under which a launcher is filed.
#[derive(Clone, Copy, Debug, PartialEq, Eq, Structural)]
pub enum Category {
    Web,
    Accessories,
    Education,
    Games,
    Graphics,
    Internet,
    Office,
    Programming,
    SoundAndVideo,
}

impl Category {
    /// The name of the category as it is shown and written.
    pub open spec fn label_spec(self) -> Seq<char> {
        match self {
            Category::Web => "Web"@,
            Category::Accessories => "Accessories"@,
            Category::Education => "Education"@,
            Category::Games => "Games"@,
            Category::Graphics => "Graphics"@,
            Category::Internet => "Internet"@,
            Category::Office => "Office"@,
            Category::Programming => "Programming"@,
            Category::SoundAndVideo => "Sound & Video"@,
        }
    }

    /// The category of a name.
    pub open spec fn from_label_spec(label: Seq<char>) -> Option<Category> {
        if label == "Web"@ {
            Some(Category::Web)
        } else if label == "Accessories"@ {
            Some(Category::Accessories)
        } else if label == "Education"@ {
            Some(Category::Education)
        } else if label == "Games"@ {
            Some(Category::Games)
        } else if label == "Graphics"@ {
            Some(Category::Graphics)
        } else if label == "Internet"@ {
            Some(Category::Internet)
        } else if label == "Office"@ {
            Some(Category::Office)
        } else if label == "Programming"@ {
            Some(Category::Programming)
        } else if label == "Sound & Video"@ {
            Some(Category::SoundAndVideo)
        } else {
            None
        }
    }

    /// The name of the category as it is shown and written.
    pub fn label(&self) -> (r: String)
        ensures
            r@ == self.label_spec(),
    {
        match self {
            Category::Web => String::from_str("Web"),
            Category::Accessories => String::from_str("Accessories"),
            Category::Education => String::from_str("Education"),
            Category::Games => String::from_str("Games"),
            Category::Graphics => String::from_str("Graphics"),
            Category::Internet => String::from_str("Internet"),
            Category::Office => String::from_str("Office"),
            Category::Programming => String::from_str("Programming"),
            Category::SoundAndVideo => String::from_str("Sound & Video"),
        }
    }

    /// The category of a name, if it names one.
    pub fn from_label(label: &str) -> (r: Option<Category>)
        ensures
            r == Category::from_label_spec(label@),
    {
        let l = String::from_str(label);
        if l == String::from_str("Web") {
            Some(Category::Web)
        } else if l == String::from_str("Accessories") {
            Some(Category::Accessories)
        } else if l == String::from_str("Education") {
            Some(Category::Education)
        } else if l == String::from_str("Games") {
            Some(Category::Games)
        } else if l == String::from_str("Graphics") {
            Some(Category::Graphics)
        } else if l == String::from_str("Internet") {
            Some(Category::Internet)
        } else if l == String::from_str("Office") {
            Some(Category::Office)
        } else if l == String::from_str("Programming") {
            Some(Category::Programming)
        } else if l == String::from_str("Sound & Video") {
            Some(Category::SoundAndVideo)
        } else {
            None
        }
    }

    /// Every category, in the order in which they are offered.
    pub fn all() -> (r: Vec<Category>)
        ensures
            r@ == seq![
                Category::Web,
                Category::Accessories,
                Category::Education,
                Category::Games,
                Category::Graphics,
                Category::Internet,
                Category::Office,
                Category::Programming,
                Category::SoundAndVideo,
            ],
    {
        let mut r: Vec<Category> = Vec::new();
        r.push(Category::Web);
        r.push(Category::Accessories);
        r.push(Category::Education);
        r.push(Category::Games);
        r.push(Category::Graphics);
        r.push(Category::Internet);
        r.push(Category::Office);
        r.push(Category::Programming);
        r.push(Category::SoundAndVideo);
        assert(r@ =~= seq![
            Category::Web,
            Category::Accessories,
            Category::Education,
            Category::Games,
            Category::Graphics,
            Category::Internet,
            Category::Office,
            Category::Programming,
            Category::SoundAndVideo,
        ]);
        r
    }
}

/// The name of a category names that category, holds no `;` and stays on its
/// line.
pub proof fn lemma_category_labels(c: Category)
    ensures
        Category::from_label_spec(c.label_spec()) == Some(c),
        forall|j: int| 0 <= j < c.label_spec().len() ==> c.label_spec()[j] != ';' && c.label_spec()[j] != '\n',
{
    reveal_strlit("Web");
    reveal_strlit("Accessories");
    reveal_strlit("Education");
    reveal_strlit("Games");
    reveal_strlit("Graphics");
    reveal_strlit("Internet");
    reveal_strlit("Office");
    reveal_strlit("Programming");
    reveal_strlit("Sound & Video");
    assert("Web"@.len() == 3 && "Games"@.len() == 5 && "Office"@.len() == 6);
    assert("Education"@.len() == 9 && "Sound & Video"@.len() == 13);
    assert("Accessories"@.len() == 11 && "Programming"@.len() == 11);
    assert("Graphics"@.len() == 8 && "Internet"@.len() == 8);
    assert("Accessories"@[0] == 'A' && "Programming"@[0] == 'P');
    assert("Graphics"@[0] == 'G' && "Internet"@[0] == 'I');
}

/// The launcher of a web application.
#[derive(Debug, PartialEq, Eq)]
pub struct WebAppLauncher {
    pub codename: String,
    pub name: String,
    pub url: String,
    pub icon_path: String,
    pub category: Category,
    pub browser: Browser,
    pub custom_parameters: String,
    pub is_isolated: bool,
    pub show_navbar: bool,
    pub is_incognito: bool,
    pub is_valid: bool,
}

/// What a `WebAppLauncher` holds, as mathematical values.
pub struct LauncherView {
    pub codename: Seq<char>,
    pub name: Seq<char>,
    pub url: Seq<char>,
    pub icon_path: Seq<char>,
    pub category: Category,
    pub browser: BrowserView,
    pub custom_parameters: Seq<char>,
    pub is_isolated: bool,
    pub show_navbar: bool,
    pub is_incognito: bool,
    pub is_valid: bool,
}

impl View for WebAppLauncher {
    type V = LauncherView;

    open spec fn view(&self) -> LauncherView {
        LauncherView {
            codename: self.codename@,
            name: self.name@,
            url: self.url@,
            icon_path: self.icon_path@,
            category: self.category,
            browser: self.browser@,
            custom_parameters: self.custom_parameters@,
            is_isolated: self.is_isolated,
            show_navbar: self.show_navbar,
            is_incognito: self.is_incognito,
            is_valid: self.is_valid,
        }
    }
}

impl DeepView for WebAppLauncher {
    type V = LauncherView;

    open spec fn deep_view(&self) -> LauncherView {
        self@
    }
}

impl Clone for WebAppLauncher {
    fn clone(&self) -> (r: Self)
        ensures
            r@ == self@,
    {
        WebAppLauncher {
            codename: self.codename.clone(),
            name: self.name.clone(),
            url: self.url.clone(),
            icon_path: self.icon_path.clone(),
            category: self.category,
            browser: self.browser.clone(),
            custom_parameters: self.custom_parameters.clone(),
            is_isolated: self.is_isolated,
            show_navbar: self.show_navbar,
            is_incognito: self.is_incognito,
            is_valid: self.is_valid,
        }
    }
}

/// What a persisted entry says of its launcher.
#[derive(Debug, PartialEq, Eq)]
pub struct EntryRecord {
    pub codename: String,
    pub name: String,
    pub url: String,
    pub icon_path: String,
    pub category: Category,
    pub browser_executable: String,
    pub custom_parameters: String,
    pub is_isolated: bool,
    pub show_navbar: bool,
    pub is_incognito: bool,
}

/// What an `EntryRecord` holds, as mathematical values.
pub struct RecordView {
    pub codename: Seq<char>,
    pub name: Seq<char>,
    pub url: Seq<char>,
    pub icon_path: Seq<char>,
    pub category: Category,
    pub browser_executable: Seq<char>,
    pub custom_parameters: Seq<char>,
    pub is_isolated: bool,
    pub show_navbar: bool,
    pub is_incognito: bool,
}

impl View for EntryRecord {
    type V = RecordView;

    open spec fn view(&self) -> RecordView {
        RecordView {
            codename: self.codename@,
            name: self.name@,
            url: self.url@,
            icon_path: self.icon_path@,
            category: self.category,
            browser_executable: self.browser_executable@,
            custom_parameters: self.custom_parameters@,
            is_isolated: self.is_isolated,
            show_navbar: self.show_navbar,
            is_incognito: self.is_incognito,
        }
    }
}

/// A launcher is valid where it has a name, its address is accepted as an
/// absolute one, and its browser is the one that the registry gives for its
/// executable.
pub open spec fn valid(
    name: Seq<char>,
    url_accepted: bool,
    browser: BrowserView,
    browsers: Seq<BrowserView>,
) -> bool {
    name.len() > 0 && url_accepted && resolve(browsers, browser.executable) == Some(browser)
}

/// The launcher says of itself that it is valid exactly where it is.
pub open spec fn consistent(l: LauncherView, browsers: Seq<BrowserView>) -> bool {
    l.is_valid == valid(l.name, url_parses(l.url), l.browser, browsers)
}

/// The browser that stands for an executable which the registry does not know.
pub open spec fn unknown_browser(executable: Seq<char>) -> BrowserView {
    BrowserView {
        name: executable,
        family: BrowserFamily::Other,
        executable,
        supports_isolated_profile: false,
    }
}

/// The launcher that a record describes, given whether its address was
/// accepted: the browser comes from the registry.
pub open spec fn launcher_of_record(
    record: RecordView,
    url_accepted: bool,
    browsers: Seq<BrowserView>,
) -> LauncherView {
    let found = resolve(browsers, record.browser_executable);
    LauncherView {
        codename: record.codename,
        name: record.name,
        url: record.url,
        icon_path: record.icon_path,
        category: record.category,
        browser: match found {
            Some(b) => b,
            None => unknown_browser(record.browser_executable),
        },
        custom_parameters: record.custom_parameters,
        is_isolated: record.is_isolated,
        show_navbar: record.show_navbar,
        is_incognito: record.is_incognito,
        is_valid: record.name.len() > 0 && url_accepted && found is Some,
    }
}

/// The name of the file that holds the entry of a launcher.
pub open spec fn entry_name(codename: Seq<char>) -> Seq<char> {
    codename + ".desktop"@
}

/// The codename of the launcher whose entry a file of this name holds.
pub open spec fn codename_of(file_name: Seq<char>) -> Option<Seq<char>> {
    if finishes_with(file_name, ".desktop"@) {
        Some(file_name.take(file_name.len() - ".desktop"@.len()))
    } else {
        None
    }
}

/// The directory of the browser profile that belongs to a launcher alone.
pub open spec fn profile_dir(profile_root: Seq<char>, codename: Seq<char>) -> Seq<char> {
    profile_root + seq!['/'] + codename
}

/// The command that starts the launcher: the executable of its browser and the
/// launch arguments, with a space between neighbours.
pub open spec fn command_line(l: LauncherView, profile_root: Seq<char>) -> Seq<char> {
    l.browser.executable + seq![' '] + joined(
        launch_arguments(
            l.browser.family,
            l.url,
            l.is_isolated && l.browser.supports_isolated_profile,
            l.is_incognito,
            l.show_navbar,
            l.custom_parameters,
            profile_dir(profile_root, l.codename),
        ),
        ' ',
    )
}

/// How a flag is written.
pub open spec fn flag_text(b: bool) -> Seq<char> {
    if b {
        "true"@
    } else {
        "false"@
    }
}

/// The flag that a written value stands for.
pub open spec fn flag_of(value: Option<Seq<char>>) -> Option<bool> {
    match value {
        Some(v) => if v == "true"@ {
            Some(true)
        } else if v == "false"@ {
            Some(false)
        } else {
            None
        },
        None => None,
    }
}

/// How the category is written: after the toolkit, each ended by `;`.
pub open spec fn category_text(c: Category) -> Seq<char> {
    "GTK;"@ + c.label_spec() + seq![';']
}

/// The category that a written value stands for.
pub open spec fn category_of(value: Option<Seq<char>>) -> Option<Category> {
    match value {
        Some(v) => if begins_with(v, "GTK;"@) && v.len() > "GTK;"@.len() && v.last() == ';' {
            Category::from_label_spec(v.subrange("GTK;"@.len() as int, v.len() - 1))
        } else {
            None
        },
        None => None,
    }
}

/// The first line of every entry.
pub open spec fn entry_header() -> Seq<char> {
    "[Desktop Entry]"@
}

/// The key of the field that marks an entry as one of this library.
pub open spec fn marker_key() -> Seq<char> {
    "X-WebApp-Manager"@
}

/// The value of the field that marks an entry as one of this library.
pub open spec fn marker_value() -> Seq<char> {
    "wam"@
}

/// The keys of an entry, in the order of its lines.
pub open spec fn entry_keys() -> Seq<Seq<char>> {
    seq![
        "Version"@,
        "Type"@,
        "Name"@,
        "Comment"@,
        "Exec"@,
        "Terminal"@,
        "Icon"@,
        "Categories"@,
        "StartupNotify"@,
        marker_key(),
        "X-WebApp-Browser"@,
        "X-WebApp-URL"@,
        "X-WebApp-CustomParameters"@,
        "X-WebApp-Navbar"@,
        "X-WebApp-PrivateWindow"@,
        "X-WebApp-Isolated"@,
    ]
}

/// The values of the entry of a launcher, as written, in the order of its lines.
pub open spec fn entry_values(l: LauncherView, profile_root: Seq<char>) -> Seq<Seq<char>> {
    seq![
        "1.0"@,
        "Application"@,
        escaped(l.name),
        "Web App"@,
        escaped(command_line(l, profile_root)),
        "false"@,
        escaped(l.icon_path),
        category_text(l.category),
        "true"@,
        marker_value(),
        escaped(l.browser.executable),
        escaped(l.url),
        escaped(l.custom_parameters),
        flag_text(l.show_navbar),
        flag_text(l.is_incognito),
        flag_text(l.is_isolated),
    ]
}

/// The text of the entry that persists a launcher.
pub open spec fn entry_text(l: LauncherView, profile_root: Seq<char>) -> Seq<char> {
    document(header_and_fields(entry_header(), entry_keys(), entry_values(l, profile_root)))
}

/// The text is an entry of this library: it carries the marker.
pub open spec fn carries_marker(content: Seq<char>) -> bool {
    value_of(lines_of(content), marker_key()) == Some(marker_value())
}

/// What the entry in a file of this name and content says of its launcher; the
/// entry is malformed where the name is not that of an entry or a field is
/// missing or does not read as what it stands for.
pub open spec fn record_of(file_name: Seq<char>, content: Seq<char>) -> Result<RecordView, Error> {
    let lines = lines_of(content);
    let codename = codename_of(file_name);
    let name = text_of(lines, "Name"@);
    let icon_path = text_of(lines, "Icon"@);
    let category = category_of(value_of(lines, "Categories"@));
    let browser = text_of(lines, "X-WebApp-Browser"@);
    let url = text_of(lines, "X-WebApp-URL"@);
    let custom = text_of(lines, "X-WebApp-CustomParameters"@);
    let navbar = flag_of(value_of(lines, "X-WebApp-Navbar"@));
    let incognito = flag_of(value_of(lines, "X-WebApp-PrivateWindow"@));
    let isolated = flag_of(value_of(lines, "X-WebApp-Isolated"@));
    if codename is Some && name is Some && icon_path is Some && category is Some && browser is Some
        && url is Some && custom is Some && navbar is Some && incognito is Some && isolated is Some {
        Ok(
            RecordView {
                codename: codename->0,
                name: name->0,
                url: url->0,
                icon_path: icon_path->0,
                category: category->0,
                browser_executable: browser->0,
                custom_parameters: custom->0,
                is_isolated: isolated->0,
                show_navbar: navbar->0,
                is_incognito: incognito->0,
            },
        )
    } else {
        Err(Error::Parse)
    }
}

/// The launcher that the entry in a file of this name and content persists.
pub open spec fn parsed_entry(
    file_name: Seq<char>,
    content: Seq<char>,
    browsers: Seq<BrowserView>,
) -> Result<LauncherView, Error> {
    match record_of(file_name, content) {
        Ok(record) => Ok(launcher_of_record(record, url_parses(record.url), browsers)),
        Err(e) => Err(e),
    }
}

/// The view of what reading an entry gave.
pub open spec fn outcome_view(r: Result<WebAppLauncher, Error>) -> Result<LauncherView, Error> {
    match r {
        Ok(l) => Ok(l@),
        Err(e) => Err(e),
    }
}

/// The length of a key and two of its characters: enough to tell the keys of an
/// entry apart.
pub open spec fn key_mark(k: Seq<char>) -> (nat, char, char) {
    (
        k.len(),
        if k.len() > 0 {
            k[0]
        } else {
            ' '
        },
        if k.len() > 9 {
            k[9]
        } else {
            ' '
        },
    )
}

/// The keys of an entry are keys, and no two of them are the same; the header
/// is no field.
pub proof fn lemma_entry_keys()
    ensures
        entry_keys().len() == 16,
        forall|k: int| 0 <= k < 16 ==> is_key(#[trigger] entry_keys()[k]),
        forall|a: int, b: int| 0 <= a < b < 16 ==> entry_keys()[a] != entry_keys()[b],
        forall|j: int|
            0 <= j < entry_header().len() ==> entry_header()[j] != '=' && entry_header()[j] != '\n',
{
    let keys = entry_keys();
    assert(is_key("Version"@) && key_mark("Version"@) == (7nat, 'V', ' ')) by {
        reveal_strlit("Version");
    }
    assert(is_key("Type"@) && key_mark("Type"@) == (4nat, 'T', ' ')) by {
        reveal_strlit("Type");
    }
    assert(is_key("Name"@) && key_mark("Name"@) == (4nat, 'N', ' ')) by {
        reveal_strlit("Name");
    }
    assert(is_key("Comment"@) && key_mark("Comment"@) == (7nat, 'C', ' ')) by {
        reveal_strlit("Comment");
    }
    assert(is_key("Exec"@) && key_mark("Exec"@) == (4nat, 'E', ' ')) by {
        reveal_strlit("Exec");
    }
    assert(is_key("Terminal"@) && key_mark("Terminal"@) == (8nat, 'T', ' ')) by {
        reveal_strlit("Terminal");
    }
    assert(is_key("Icon"@) && key_mark("Icon"@) == (4nat, 'I', ' ')) by {
        reveal_strlit("Icon");
    }
    assert(is_key("Categories"@) && key_mark("Categories"@) == (10nat, 'C', 's')) by {
        reveal_strlit("Categories");
    }
    assert(is_key("StartupNotify"@) && key_mark("StartupNotify"@) == (13nat, 'S', 't')) by {
        reveal_strlit("StartupNotify");
    }
    assert(is_key("X-WebApp-Manager"@) && key_mark("X-WebApp-Manager"@) == (16nat, 'X', 'M')) by {
        reveal_strlit("X-WebApp-Manager");
    }
    assert(is_key("X-WebApp-Browser"@) && key_mark("X-WebApp-Browser"@) == (16nat, 'X', 'B')) by {
        reveal_strlit("X-WebApp-Browser");
    }
    assert(is_key("X-WebApp-URL"@) && key_mark("X-WebApp-URL"@) == (12nat, 'X', 'U')) by {
        reveal_strlit("X-WebApp-URL");
    }
    assert(is_key("X-WebApp-CustomParameters"@) && key_mark("X-WebApp-CustomParameters"@) == (
        25nat,
        'X',
        'C',
    )) by {
        reveal_strlit("X-WebApp-CustomParameters");
    }
    assert(is_key("X-WebApp-Navbar"@) && key_mark("X-WebApp-Navbar"@) == (15nat, 'X', 'N')) by {
        reveal_strlit("X-WebApp-Navbar");
    }
    assert(is_key("X-WebApp-PrivateWindow"@) && key_mark("X-WebApp-PrivateWindow"@) == (
        22nat,
        'X',
        'P',
    )) by {
        reveal_strlit("X-WebApp-PrivateWindow");
    }
    assert(is_key("X-WebApp-Isolated"@) && key_mark("X-WebApp-Isolated"@) == (17nat, 'X', 'I')) by {
        reveal_strlit("X-WebApp-Isolated");
    }
    assert forall|a: int, b: int| 0 <= a < b < 16 implies keys[a] != keys[b] by {
        assert(key_mark(keys[a]) != key_mark(keys[b]));
    }
    reveal_strlit("[Desktop Entry]");
}

/// Every value of an entry stays on its line.
pub proof fn lemma_entry_values(l: LauncherView, profile_root: Seq<char>)
    ensures
        entry_values(l, profile_root).len() == 16,
        forall|k: int| 0 <= k < 16 ==> single_line(#[trigger] entry_values(l, profile_root)[k]),
{
    let values = entry_values(l, profile_root);
    lemma_escaped_single_line(l.name);
    lemma_escaped_single_line(command_line(l, profile_root));
    lemma_escaped_single_line(l.icon_path);
    lemma_escaped_single_line(l.browser.executable);
    lemma_escaped_single_line(l.url);
    lemma_escaped_single_line(l.custom_parameters);
    assert(single_line("1.0"@)) by {
        reveal_strlit("1.0");
    }
    assert(single_line("Application"@)) by {
        reveal_strlit("Application");
    }
    assert(single_line("Web App"@)) by {
        reveal_strlit("Web App");
    }
    assert(single_line("wam"@)) by {
        reveal_strlit("wam");
    }
    assert(single_line("true"@) && single_line("false"@)) by {
        reveal_strlit("true");
        reveal_strlit("false");
    }
    assert(single_line(category_text(l.category))) by {
        reveal_strlit("GTK;");
        lemma_category_labels(l.category);
    }
}

/// A written flag reads as the flag.
pub proof fn lemma_flag_round_trip(b: bool)
    ensures
        flag_of(Some(flag_text(b))) == Some(b),
{
    reveal_strlit("true");
    reveal_strlit("false");
    assert("true"@.len() == 4 && "false"@.len() == 5);
}

/// A written category reads as the category.
pub proof fn lemma_category_round_trip(c: Category)
    ensures
        category_of(Some(category_text(c))) == Some(c),
{
    reveal_strlit("GTK;");
    let prefix = "GTK;"@;
    let v = category_text(c);
    assert(prefix.len() == 4);
    lemma_category_labels(c);
    assert(v.subrange(0, prefix.len() as int) =~= prefix);
    assert(v.subrange(prefix.len() as int, v.len() - 1) =~= c.label_spec());
    assert(c.label_spec().len() > 0) by {
        reveal_strlit("Web");
        reveal_strlit("Accessories");
        reveal_strlit("Education");
        reveal_strlit("Games");
        reveal_strlit("Graphics");
        reveal_strlit("Internet");
        reveal_strlit("Office");
        reveal_strlit("Programming");
        reveal_strlit("Sound & Video");
    }
}

/// The name of an entry's file gives the codename back.
pub proof fn lemma_codename_round_trip(codename: Seq<char>)
    ensures
        codename_of(entry_name(codename)) == Some(codename),
{
    let suffix = ".desktop"@;
    let name = entry_name(codename);
    assert(name.subrange(name.len() - suffix.len(), name.len() as int) =~= suffix);
    assert(name.take(name.len() - suffix.len()) =~= codename);
}

/// The entry of a launcher carries the marker, and reading it gives back what
/// was written: every field of the launcher.
pub proof fn lemma_record_of_entry(l: LauncherView, profile_root: Seq<char>)
    ensures
        carries_marker(entry_text(l, profile_root)),
        record_of(entry_name(l.codename), entry_text(l, profile_root)) == Ok::<RecordView, Error>(
            RecordView {
                codename: l.codename,
                name: l.name,
                url: l.url,
                icon_path: l.icon_path,
                category: l.category,
                browser_executable: l.browser.executable,
                custom_parameters: l.custom_parameters,
                is_isolated: l.is_isolated,
                show_navbar: l.show_navbar,
                is_incognito: l.is_incognito,
            },
        ),
{
    let keys = entry_keys();
    let values = entry_values(l, profile_root);
    let header = entry_header();
    let lines = lines_of(entry_text(l, profile_root));
    lemma_entry_keys();
    lemma_entry_values(l, profile_root);
    assert forall|i: int| 0 <= i < 16 implies value_of(lines, #[trigger] keys[i]) == Some(
        values[i],
    ) by {
        lemma_field_of_document(header, keys, values, i);
    }
    assert(value_of(lines, keys[9]) == Some(values[9]));
    assert(value_of(lines, keys[2]) == Some(values[2]));
    assert(value_of(lines, keys[6]) == Some(values[6]));
    assert(value_of(lines, keys[7]) == Some(values[7]));
    assert(value_of(lines, keys[10]) == Some(values[10]));
    assert(value_of(lines, keys[11]) == Some(values[11]));
    assert(value_of(lines, keys[12]) == Some(values[12]));
    assert(value_of(lines, keys[13]) == Some(values[13]));
    assert(value_of(lines, keys[14]) == Some(values[14]));
    assert(value_of(lines, keys[15]) == Some(values[15]));
    lemma_unescape_escaped(l.name);
    lemma_unescape_escaped(l.icon_path);
    lemma_unescape_escaped(l.browser.executable);
    lemma_unescape_escaped(l.url);
    lemma_unescape_escaped(l.custom_parameters);
    lemma_flag_round_trip(l.show_navbar);
    lemma_flag_round_trip(l.is_incognito);
    lemma_flag_round_trip(l.is_isolated);
    lemma_category_round_trip(l.category);
    lemma_codename_round_trip(l.codename);
}

/// Reading the entry of a valid launcher gives the launcher back.
pub proof fn lemma_entry_round_trip(
    l: LauncherView,
    profile_root: Seq<char>,
    browsers: Seq<BrowserView>,
)
    requires
        l.is_valid,
        consistent(l, browsers),
    ensures
        carries_marker(entry_text(l, profile_root)),
        parsed_entry(entry_name(l.codename), entry_text(l, profile_root), browsers) == Ok::<
            LauncherView,
            Error,
        >(l),
{
    lemma_record_of_entry(l, profile_root);
}

impl WebAppLauncher {
    /// The launcher of these values, given whether its address was accepted as
    /// an absolute one. It is valid where it has a name, the address was
    /// accepted and the browser is the registry's for its executable.
    pub fn assemble(
        name: String,
        codename: String,
        url: String,
        icon_path: String,
        category: Category,
        browser: Browser,
        custom_parameters: String,
        is_isolated: bool,
        show_navbar: bool,
        is_incognito: bool,
        url_accepted: bool,
        browsers: &Vec<Browser>,
    ) -> (r: Self)
        ensures
            r@ == (LauncherView {
                codename: codename@,
                name: name@,
                url: url@,
                icon_path: icon_path@,
                category,
                browser: browser@,
                custom_parameters: custom_parameters@,
                is_isolated,
                show_navbar,
                is_incognito,
                is_valid: valid(name@, url_accepted, browser@, browsers.deep_view()),
            }),
    {
        let resolved = match Browser::web_browser(browsers, browser.executable.as_str()) {
            Some(found) => found.same(&browser),
            None => false,
        };
        let is_valid = name.as_str().unicode_len() > 0 && url_accepted && resolved;
        WebAppLauncher {
            codename,
            name,
            url,
            icon_path,
            category,
            browser,
            custom_parameters,
            is_isolated,
            show_navbar,
            is_incognito,
            is_valid,
        }
    }

    /// The launcher of these values. The address gets its scheme first; the
    /// launcher is valid where it has a name, the `url` crate accepts the
    /// address and the browser is the registry's for its executable.
    pub fn new(
        name: String,
        codename: String,
        url: &str,
        icon_path: String,
        category: Category,
        browser: Browser,
        custom_parameters: String,
        is_isolated: bool,
        show_navbar: bool,
        is_incognito: bool,
        browsers: &Vec<Browser>,
    ) -> (r: Self)
        ensures
            r@ == (LauncherView {
                codename: codename@,
                name: name@,
                url: normalized(url@),
                icon_path: icon_path@,
                category,
                browser: browser@,
                custom_parameters: custom_parameters@,
                is_isolated,
                show_navbar,
                is_incognito,
                is_valid: valid(
                    name@,
                    url_parses(normalized(url@)),
                    browser@,
                    browsers.deep_view(),
                ),
            }),
            consistent(r@, browsers.deep_view()),
    {
        let address = normalize_url(url);
        let accepted = parses_as_url(address.as_str());
        WebAppLauncher::assemble(
            name,
            codename,
            address,
            icon_path,
            category,
            browser,
            custom_parameters,
            is_isolated,
            show_navbar,
            is_incognito,
            accepted,
            browsers,
        )
    }

    /// The launcher that a record describes, given whether its address was
    /// accepted as an absolute one. Its browser is the one that the registry
    /// gives for the recorded executable; where it gives none, the launcher is
    /// not valid.
    pub fn from_record(record: EntryRecord, url_accepted: bool, browsers: &Vec<Browser>) -> (r:
        Self)
        ensures
            r@ == launcher_of_record(record@, url_accepted, browsers.deep_view()),
            url_accepted == url_parses(record@.url) ==> consistent(r@, browsers.deep_view()),
    {
        proof {
            lemma_resolved(browsers.deep_view(), record@.browser_executable, 0);
        }
        let found = Browser::web_browser(browsers, record.browser_executable.as_str());
        let named = record.name.as_str().unicode_len() > 0;
        let (browser, resolved) = match found {
            Some(b) => (b, true),
            None => (
                Browser {
                    name: record.browser_executable.clone(),
                    family: BrowserFamily::Other,
                    executable: record.browser_executable.clone(),
                    supports_isolated_profile: false,
                },
                false,
            ),
        };
        WebAppLauncher {
            codename: record.codename,
            name: record.name,
            url: record.url,
            icon_path: record.icon_path,
            category: record.category,
            browser,
            custom_parameters: record.custom_parameters,
            is_isolated: record.is_isolated,
            show_navbar: record.show_navbar,
            is_incognito: record.is_incognito,
            is_valid: named && url_accepted && resolved,
        }
    }
}

/// The name of the file that holds the entry of the launcher `codename`.
pub fn entry_file_name(codename: &str) -> (r: String)
    ensures
        r@ == entry_name(codename@),
{
    let mut r = String::from_str(codename);
    r.append(".desktop");
    r
}

/// The codename of the launcher whose entry a file of this name holds.
pub fn codename_from(file_name: &str) -> (r: Option<String>)
    ensures
        r.deep_view() == codename_of(file_name@),
{
    let name = chars_of(file_name);
    let suffix = chars_of(".desktop");
    if suffix.len() <= name.len() && matches_at(&name, name.len() - suffix.len(), &suffix) {
        let r = substring(&name, 0, name.len() - suffix.len());
        assert(name@.subrange(0, name.len() - suffix.len()) =~= name@.take(
            name.len() - suffix.len(),
        ));
        Some(r)
    } else {
        None
    }
}

/// The command that starts the launcher, as the entry holds it.
pub fn launch_command(launcher: &WebAppLauncher, profile_root: &str) -> (r: String)
    ensures
        r@ == command_line(launcher@, profile_root@),
{
    let mut dir = String::from_str(profile_root);
    dir.push('/');
    dir.append(launcher.codename.as_str());
    assert(dir@ =~= profile_dir(profile_root@, launcher@.codename));
    let arguments = build_launch_arguments(
        &launcher.browser,
        launcher.url.as_str(),
        launcher.is_isolated && launcher.browser.supports_isolated_profile,
        launcher.is_incognito,
        launcher.show_navbar,
        launcher.custom_parameters.as_str(),
        dir.as_str(),
    );
    let mut r = launcher.browser.executable.clone();
    r.push(' ');
    r.append(join(&arguments, ' ').as_str());
    assert(r@ =~= command_line(launcher@, profile_root@));
    r
}

/// How a flag is written.
pub fn flag_string(b: bool) -> (r: String)
    ensures
        r@ == flag_text(b),
{
    if b {
        String::from_str("true")
    } else {
        String::from_str("false")
    }
}

/// The text of the entry that persists the launcher.
pub fn render_entry(launcher: &WebAppLauncher, profile_root: &str) -> (r: String)
    ensures
        r@ == entry_text(launcher@, profile_root@),
{
    let mut category = String::from_str("GTK;");
    category.append(launcher.category.label().as_str());
    category.push(';');
    assert(category@ =~= category_text(launcher@.category));
    let command = launch_command(launcher, profile_root);
    let mut lines: Vec<String> = Vec::new();
    assert(lines.deep_view() =~= Seq::<Seq<char>>::empty());
    push_text(&mut lines, String::from_str("[Desktop Entry]"));
    push_text(&mut lines, make_line("Version", "1.0"));
    push_text(&mut lines, make_line("Type", "Application"));
    push_text(&mut lines, make_line("Name", escape(launcher.name.as_str()).as_str()));
    push_text(&mut lines, make_line("Comment", "Web App"));
    push_text(&mut lines, make_line("Exec", escape(command.as_str()).as_str()));
    push_text(&mut lines, make_line("Terminal", "false"));
    push_text(&mut lines, make_line("Icon", escape(launcher.icon_path.as_str()).as_str()));
    push_text(&mut lines, make_line("Categories", category.as_str()));
    push_text(&mut lines, make_line("StartupNotify", "true"));
    push_text(&mut lines, make_line("X-WebApp-Manager", "wam"));
    push_text(
        &mut lines,
        make_line("X-WebApp-Browser", escape(launcher.browser.executable.as_str()).as_str()),
    );
    push_text(&mut lines, make_line("X-WebApp-URL", escape(launcher.url.as_str()).as_str()));
    push_text(
        &mut lines,
        make_line(
            "X-WebApp-CustomParameters",
            escape(launcher.custom_parameters.as_str()).as_str(),
        ),
    );
    push_text(&mut lines, make_line("X-WebApp-Navbar", flag_string(launcher.show_navbar).as_str()));
    push_text(
        &mut lines,
        make_line("X-WebApp-PrivateWindow", flag_string(launcher.is_incognito).as_str()),
    );
    push_text(
        &mut lines,
        make_line("X-WebApp-Isolated", flag_string(launcher.is_isolated).as_str()),
    );
    assert(lines.deep_view() =~= header_and_fields(
        entry_header(),
        entry_keys(),
        entry_values(launcher@, profile_root@),
    ));
    write_document(lines)
}

/// Whether the text is an entry of this library: whether it carries the marker.
pub fn is_launcher_entry(content: &str) -> (r: bool)
    ensures
        r == carries_marker(content@),
{
    let lines = split(&chars_of(content), '\n');
    match lookup(&lines, "X-WebApp-Manager") {
        Some(v) => same_chars(&v, &chars_of("wam")),
        None => false,
    }
}

/// The flag that the field `key` holds.
pub fn read_flag(lines: &Vec<String>, key: &str) -> (r: Option<bool>)
    ensures
        r == flag_of(value_of(lines.deep_view(), key@)),
{
    match lookup(lines, key) {
        Some(v) => {
            if same_chars(&v, &chars_of("true")) {
                Some(true)
            } else if same_chars(&v, &chars_of("false")) {
                Some(false)
            } else {
                None
            }
        },
        None => None,
    }
}

/// The category that the entry holds.
pub fn read_category(lines: &Vec<String>) -> (r: Option<Category>)
    ensures
        r == category_of(value_of(lines.deep_view(), "Categories"@)),
{
    match lookup(lines, "Categories") {
        Some(v) => {
            let prefix = chars_of("GTK;");
            if matches_at(&v, 0, &prefix) && v.len() > prefix.len() && v[v.len() - 1] == ';' {
                let label = substring(&v, prefix.len(), v.len() - 1);
                Category::from_label(label.as_str())
            } else {
                None
            }
        },
        None => None,
    }
}

/// What the entry in a file of this name and content says of its launcher.
/// Every field must be there and read as what it stands for; else the entry is
/// malformed.
pub fn read_record(file_name: &str, content: &str) -> (r: Result<EntryRecord, Error>)
    ensures
        match r {
            Ok(record) => record_of(file_name@, content@) == Ok::<RecordView, Error>(record@),
            Err(e) => record_of(file_name@, content@) == Err::<RecordView, Error>(e),
        },
{
    let lines = split(&chars_of(content), '\n');
    let codename = codename_from(file_name);
    let name = lookup_text(&lines, "Name");
    let icon_path = lookup_text(&lines, "Icon");
    let category = read_category(&lines);
    let browser = lookup_text(&lines, "X-WebApp-Browser");
    let url = lookup_text(&lines, "X-WebApp-URL");
    let custom = lookup_text(&lines, "X-WebApp-CustomParameters");
    let navbar = read_flag(&lines, "X-WebApp-Navbar");
    let incognito = read_flag(&lines, "X-WebApp-PrivateWindow");
    let isolated = read_flag(&lines, "X-WebApp-Isolated");
    match (codename, name, icon_path, category, browser, url, custom, navbar, incognito, isolated) {
        (
            Some(codename),
            Some(name),
            Some(icon_path),
            Some(category),
            Some(browser_executable),
            Some(url),
            Some(custom_parameters),
            Some(show_navbar),
            Some(is_incognito),
            Some(is_isolated),
        ) => Ok(
            EntryRecord {
                codename,
                name,
                url,
                icon_path,
                category,
                browser_executable,
                custom_parameters,
                is_isolated,
                show_navbar,
                is_incognito,
            },
        ),
        _ => Err(Error::Parse),
    }
}

/// The launcher that the entry in a file of this name and content persists.
/// Its browser comes from the registry, by the recorded executable.
pub fn parse_entry(file_name: &str, content: &str, browsers: &Vec<Browser>) -> (r: Result<
    WebAppLauncher,
    Error,
>)
    ensures
        outcome_view(r) == parsed_entry(file_name@, content@, browsers.deep_view()),
        r matches Ok(l) ==> consistent(l@, browsers.deep_view()),
{
    match read_record(file_name, content) {
        Ok(record) => {
            let accepted = parses_as_url(record.url.as_str());
            Ok(WebAppLauncher::from_record(record, accepted, browsers))
        },
        Err(e) => Err(e),
    }
}

/// The values of the launcher form, as they are when the launcher is saved.
#[derive(Debug, PartialEq, Eq)]
pub struct LauncherForm {
    pub name: String,
    pub url: String,
    pub icon_path: String,
    pub category: String,
    pub browser: Browser,
    pub custom_parameters: String,
    pub is_isolated: bool,
    pub show_navbar: bool,
    pub is_incognito: bool,
}

/// What a `LauncherForm` holds, as mathematical values.
pub struct FormView {
    pub name: Seq<char>,
    pub url: Seq<char>,
    pub icon_path: Seq<char>,
    pub category: Seq<char>,
    pub browser: BrowserView,
    pub custom_parameters: Seq<char>,
    pub is_isolated: bool,
    pub show_navbar: bool,
    pub is_incognito: bool,
}

impl View for LauncherForm {
    type V = FormView;

    open spec fn view(&self) -> FormView {
        FormView {
            name: self.name@,
            url: self.url@,
            icon_path: self.icon_path@,
            category: self.category@,
            browser: self.browser@,
            custom_parameters: self.custom_parameters@,
            is_isolated: self.is_isolated,
            show_navbar: self.show_navbar,
            is_incognito: self.is_incognito,
        }
    }
}

impl Clone for LauncherForm {
    fn clone(&self) -> (r: Self)
        ensures
            r@ == self@,
    {
        LauncherForm {
            name: self.name.clone(),
            url: self.url.clone(),
            icon_path: self.icon_path.clone(),
            category: self.category.clone(),
            browser: self.browser.clone(),
            custom_parameters: self.custom_parameters.clone(),
            is_isolated: self.is_isolated,
            show_navbar: self.show_navbar,
            is_incognito: self.is_incognito,
        }
    }
}

/// The launcher that the form describes under `codename`: its address with a
/// scheme, valid where it has a name, the address is accepted and the browser
/// is the registry's. There is none where the form names no category.
pub open spec fn form_launcher(
    form: FormView,
    codename: Seq<char>,
    browsers: Seq<BrowserView>,
) -> Option<LauncherView> {
    match Category::from_label_spec(form.category) {
        Some(category) => Some(
            LauncherView {
                codename,
                name: form.name,
                url: normalized(form.url),
                icon_path: form.icon_path,
                category,
                browser: form.browser,
                custom_parameters: form.custom_parameters,
                is_isolated: form.is_isolated,
                show_navbar: form.show_navbar,
                is_incognito: form.is_incognito,
                is_valid: valid(
                    form.name,
                    url_parses(normalized(form.url)),
                    form.browser,
                    browsers,
                ),
            },
        ),
        None => None,
    }
}

impl LauncherForm {
    /// The launcher that the form describes under `codename`, if the form names
    /// a category.
    pub fn launcher(&self, codename: String, browsers: &Vec<Browser>) -> (r: Option<WebAppLauncher>)
        ensures
            r.deep_view() == form_launcher(self@, codename@, browsers.deep_view()),
            r matches Some(l) ==> consistent(l@, browsers.deep_view()),
    {
        match Category::from_label(self.category.as_str()) {
            Some(category) => Some(
                WebAppLauncher::new(
                    self.name.clone(),
                    codename,
                    self.url.as_str(),
                    self.icon_path.clone(),
                    category,
                    self.browser.clone(),
                    self.custom_parameters.clone(),
                    self.is_isolated,
                    self.show_navbar,
                    self.is_incognito,
                    browsers,
                ),
            ),
            None => None,
        }
    }
}

} // verus!

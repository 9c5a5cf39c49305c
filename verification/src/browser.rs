//! The browser registry: the browsers this library knows, which of them are
//! installed, and the arguments that open a page in one of them.

use vstd::prelude::*;
use vstd::string::StringExecFns;

verus! {

/// The engine family of a browser, which decides the set of flags it takes.
#[derive(Clone, Copy, Debug, PartialEq, Eq, Structural)]
pub enum BrowserFamily {
    Gecko,
    Chromium,
    Other,
}

/// An installed browser.
#[derive(Debug, PartialEq, Eq)]
pub struct Browser {
    pub name: String,
    pub family: BrowserFamily,
    pub executable: String,
    pub supports_isolated_profile: bool,
}

/// What a `Browser` holds, as mathematical values.
pub struct BrowserView {
    pub name: Seq<char>,
    pub family: BrowserFamily,
    pub executable: Seq<char>,
    pub supports_isolated_profile: bool,
}

impl View for Browser {
    type V = BrowserView;

    open spec fn view(&self) -> BrowserView {
        BrowserView {
            name: self.name@,
            family: self.family,
            executable: self.executable@,
            supports_isolated_profile: self.supports_isolated_profile,
        }
    }
}

impl DeepView for Browser {
    type V = BrowserView;

    open spec fn deep_view(&self) -> BrowserView {
        self@
    }
}

impl Clone for Browser {
    fn clone(&self) -> (r: Self)
        ensures
            r@ == self@,
    {
        Browser {
            name: self.name.clone(),
            family: self.family,
            executable: self.executable.clone(),
            supports_isolated_profile: self.supports_isolated_profile,
        }
    }
}

/// A browser this library knows, with what must be present for it to count as
/// installed: a binary of that name on the search path, or, where `sandboxed`,
/// a sandboxed package of that identity.
#[derive(Debug, PartialEq, Eq)]
pub struct BrowserProbe {
    pub browser: Browser,
    pub identity: String,
    pub sandboxed: bool,
}

/// What a `BrowserProbe` holds, as mathematical values.
pub struct ProbeView {
    pub browser: BrowserView,
    pub identity: Seq<char>,
    pub sandboxed: bool,
}

impl View for BrowserProbe {
    type V = ProbeView;

    open spec fn view(&self) -> ProbeView {
        ProbeView { browser: self.browser@, identity: self.identity@, sandboxed: self.sandboxed }
    }
}

impl DeepView for BrowserProbe {
    type V = ProbeView;

    open spec fn deep_view(&self) -> ProbeView {
        self@
    }
}

/// A probe for a binary on the search path; it starts the browser by that name.
pub open spec fn binary_probe(
    name: Seq<char>,
    family: BrowserFamily,
    binary: Seq<char>,
    isolated: bool,
) -> ProbeView {
    ProbeView {
        browser: BrowserView {
            name,
            family,
            executable: binary,
            supports_isolated_profile: isolated,
        },
        identity: binary,
        sandboxed: false,
    }
}

/// A probe for a sandboxed package; the sandbox runner starts it.
pub open spec fn sandbox_probe(name: Seq<char>, family: BrowserFamily, package: Seq<char>) -> ProbeView {
    ProbeView {
        browser: BrowserView {
            name,
            family,
            executable: "flatpak run "@ + package,
            supports_isolated_profile: true,
        },
        identity: package,
        sandboxed: true,
    }
}

/// The browsers this library knows, in the order of preference.
pub open spec fn known_browsers_spec() -> Seq<ProbeView> {
    seq![
        binary_probe("Firefox"@, BrowserFamily::Gecko, "firefox"@, true),
        sandbox_probe("Firefox (Flatpak)"@, BrowserFamily::Gecko, "org.mozilla.firefox"@),
        binary_probe("LibreWolf"@, BrowserFamily::Gecko, "librewolf"@, true),
        sandbox_probe("Waterfox (Flatpak)"@, BrowserFamily::Gecko, "net.waterfox.waterfox"@),
        binary_probe("Chromium"@, BrowserFamily::Chromium, "chromium"@, true),
        binary_probe("Google Chrome"@, BrowserFamily::Chromium, "google-chrome-stable"@, true),
        binary_probe("Brave"@, BrowserFamily::Chromium, "brave-browser"@, true),
        binary_probe("Vivaldi"@, BrowserFamily::Chromium, "vivaldi-stable"@, true),
        binary_probe("Microsoft Edge"@, BrowserFamily::Chromium, "microsoft-edge-stable"@, true),
        binary_probe("Epiphany"@, BrowserFamily::Other, "epiphany"@, false),
        binary_probe("Falkon"@, BrowserFamily::Other, "falkon"@, false),
    ]
}

/// The browsers of `known` whose probe was answered with `true`, in the order of
/// `known`. A probe without an answer counts as absent.
pub open spec fn installed(known: Seq<ProbeView>, present: Seq<bool>) -> Seq<BrowserView>
    decreases known.len(),
{
    if known.len() == 0 {
        Seq::empty()
    } else {
        let rest = installed(known.drop_last(), present);
        if known.len() <= present.len() && present[known.len() - 1] {
            rest.push(known.last().browser)
        } else {
            rest
        }
    }
}

/// The first browser at or after `from` that is started by `executable`.
pub open spec fn resolve_from(browsers: Seq<BrowserView>, executable: Seq<char>, from: int) -> Option<
    BrowserView,
>
    decreases browsers.len() - from,
{
    if from < 0 || from >= browsers.len() {
        None
    } else if browsers[from].executable == executable {
        Some(browsers[from])
    } else {
        resolve_from(browsers, executable, from + 1)
    }
}

/// The first browser of the registry that is started by `executable`.
pub open spec fn resolve(browsers: Seq<BrowserView>, executable: Seq<char>) -> Option<BrowserView> {
    resolve_from(browsers, executable, 0)
}

/// The browser that the registry gives for an executable is started by it, and
/// is the one that the registry gives for its own executable.
pub proof fn lemma_resolved(browsers: Seq<BrowserView>, executable: Seq<char>, from: int)
    requires
        0 <= from,
    ensures
        resolve_from(browsers, executable, from) matches Some(b) ==> b.executable == executable,
    decreases browsers.len() - from,
{
    if from < browsers.len() && browsers[from].executable != executable {
        lemma_resolved(browsers, executable, from + 1);
    }
}

/// `custom` as the last argument, unless it is empty.
pub open spec fn custom_tail(custom: Seq<char>) -> Seq<Seq<char>> {
    if custom.len() == 0 {
        Seq::empty()
    } else {
        seq![custom]
    }
}

/// The arguments for a browser of the Gecko family: the profile directory where
/// the launcher is isolated, the kiosk flag where the navigation bar is hidden,
/// then the window flag (private or not) followed by the page.
pub open spec fn gecko_arguments(
    url: Seq<char>,
    is_isolated: bool,
    is_incognito: bool,
    show_navbar: bool,
    custom: Seq<char>,
    profile_dir: Seq<char>,
) -> Seq<Seq<char>> {
    (if is_isolated {
        seq!["--no-remote"@, "--profile"@, profile_dir]
    } else {
        Seq::empty()
    }) + (if show_navbar {
        Seq::empty()
    } else {
        seq!["--kiosk"@]
    }) + seq![
        if is_incognito {
            "--private-window"@
        } else {
            "--new-window"@
        },
        url,
    ] + custom_tail(custom)
}

/// The arguments for a browser of the Chromium family: the page in app mode,
/// the user data directory where the launcher is isolated, the incognito flag.
/// The navigation bar plays no part: app mode has none.
pub open spec fn chromium_arguments(
    url: Seq<char>,
    is_isolated: bool,
    is_incognito: bool,
    custom: Seq<char>,
    profile_dir: Seq<char>,
) -> Seq<Seq<char>> {
    seq!["--app="@ + url] + (if is_isolated {
        seq!["--user-data-dir="@ + profile_dir]
    } else {
        Seq::empty()
    }) + (if is_incognito {
        seq!["--incognito"@]
    } else {
        Seq::empty()
    }) + custom_tail(custom)
}

/// The arguments that open `url` in a browser of `family`.
pub open spec fn launch_arguments(
    family: BrowserFamily,
    url: Seq<char>,
    is_isolated: bool,
    is_incognito: bool,
    show_navbar: bool,
    custom: Seq<char>,
    profile_dir: Seq<char>,
) -> Seq<Seq<char>> {
    match family {
        BrowserFamily::Gecko => gecko_arguments(
            url,
            is_isolated,
            is_incognito,
            show_navbar,
            custom,
            profile_dir,
        ),
        BrowserFamily::Chromium => chromium_arguments(
            url,
            is_isolated,
            is_incognito,
            custom,
            profile_dir,
        ),
        BrowserFamily::Other => seq![url] + custom_tail(custom),
    }
}

/// Appends `s` to `v`.
pub fn push_text(v: &mut Vec<String>, s: String)
    ensures
        final(v).deep_view() == old(v).deep_view().push(s@),
{
    v.push(s);
    assert(v.deep_view() =~= old(v).deep_view().push(s@));
}

/// `head` followed by `tail`, as one `String`.
pub fn concat(head: &str, tail: &str) -> (r: String)
    ensures
        r@ == head@ + tail@,
{
    let mut r = String::from_str(head);
    r.append(tail);
    r
}

fn binary(name: &str, family: BrowserFamily, program: &str, isolated: bool) -> (r: BrowserProbe)
    ensures
        r@ == binary_probe(name@, family, program@, isolated),
{
    BrowserProbe {
        browser: Browser {
            name: String::from_str(name),
            family,
            executable: String::from_str(program),
            supports_isolated_profile: isolated,
        },
        identity: String::from_str(program),
        sandboxed: false,
    }
}

fn sandbox(name: &str, family: BrowserFamily, package: &str) -> (r: BrowserProbe)
    ensures
        r@ == sandbox_probe(name@, family, package@),
{
    BrowserProbe {
        browser: Browser {
            name: String::from_str(name),
            family,
            executable: concat("flatpak run ", package),
            supports_isolated_profile: true,
        },
        identity: String::from_str(package),
        sandboxed: true,
    }
}

/// The browsers this library knows, in the order of preference.
pub fn known_browsers() -> (r: Vec<BrowserProbe>)
    ensures
        r.deep_view() == known_browsers_spec(),
{
    let mut r: Vec<BrowserProbe> = Vec::new();
    r.push(binary("Firefox", BrowserFamily::Gecko, "firefox", true));
    r.push(sandbox("Firefox (Flatpak)", BrowserFamily::Gecko, "org.mozilla.firefox"));
    r.push(binary("LibreWolf", BrowserFamily::Gecko, "librewolf", true));
    r.push(sandbox("Waterfox (Flatpak)", BrowserFamily::Gecko, "net.waterfox.waterfox"));
    r.push(binary("Chromium", BrowserFamily::Chromium, "chromium", true));
    r.push(binary("Google Chrome", BrowserFamily::Chromium, "google-chrome-stable", true));
    r.push(binary("Brave", BrowserFamily::Chromium, "brave-browser", true));
    r.push(binary("Vivaldi", BrowserFamily::Chromium, "vivaldi-stable", true));
    r.push(binary("Microsoft Edge", BrowserFamily::Chromium, "microsoft-edge-stable", true));
    r.push(binary("Epiphany", BrowserFamily::Other, "epiphany", false));
    r.push(binary("Falkon", BrowserFamily::Other, "falkon", false));
    assert(r.deep_view() =~= known_browsers_spec());
    r
}

/// The browsers of `known` that are present, in the order of `known`.
pub fn select_installed(known: &Vec<BrowserProbe>, present: &Vec<bool>) -> (r: Vec<Browser>)
    ensures
        r.deep_view() == installed(known.deep_view(), present@),
{
    let mut r: Vec<Browser> = Vec::new();
    let mut i: usize = 0;
    assert(r.deep_view() =~= Seq::<BrowserView>::empty());
    assert(known.deep_view().take(0) =~= Seq::<ProbeView>::empty());
    while i < known.len()
        invariant
            i <= known.len(),
            r.deep_view() == installed(known.deep_view().take(i as int), present@),
        decreases known.len() - i,
    {
        let ghost before = r.deep_view();
        assert(known.deep_view().take(i + 1).drop_last() =~= known.deep_view().take(i as int));
        assert(known.deep_view().take(i + 1).last() == known@[i as int]@);
        if i < present.len() && present[i] {
            r.push(known[i].browser.clone());
            assert(r.deep_view() =~= before.push(known@[i as int]@.browser));
        }
        i += 1;
    }
    assert(known.deep_view().take(known.len() as int) =~= known.deep_view());
    r
}

/// The installed browsers, in the order of preference, from the answers to the
/// probes of `known_browsers`, one answer per probe and in its order.
pub fn detect_installed_browsers(present: &Vec<bool>) -> (r: Vec<Browser>)
    ensures
        r.deep_view() == installed(known_browsers_spec(), present@),
{
    let known = known_browsers();
    select_installed(&known, present)
}

impl Browser {
    /// Whether two browsers hold the same values.
    pub fn same(&self, other: &Browser) -> (r: bool)
        ensures
            r == (self@ == other@),
    {
        self.name == other.name && self.family == other.family && self.executable
            == other.executable && self.supports_isolated_profile
            == other.supports_isolated_profile
    }

    /// The browser of the registry that `executable` starts: the first one, where
    /// several share it.
    pub fn web_browser(browsers: &Vec<Browser>, executable: &str) -> (r: Option<Browser>)
        ensures
            match r {
                Some(b) => resolve(browsers.deep_view(), executable@) == Some(b@),
                None => resolve(browsers.deep_view(), executable@) is None,
            },
    {
        let wanted = String::from_str(executable);
        let mut i: usize = 0;
        while i < browsers.len()
            invariant
                i <= browsers.len(),
                wanted@ == executable@,
                resolve(browsers.deep_view(), executable@) == resolve_from(
                    browsers.deep_view(),
                    executable@,
                    i as int,
                ),
            decreases browsers.len() - i,
        {
            assert(browsers.deep_view()[i as int] == browsers@[i as int]@);
            if browsers[i].executable == wanted {
                return Some(browsers[i].clone());
            }
            i += 1;
        }
        None
    }
}

/// The arguments that open `url` in `browser`, in the order in which they are
/// written into a launcher entry. The result depends on nothing but the
/// arguments.
pub fn build_launch_arguments(
    browser: &Browser,
    url: &str,
    is_isolated: bool,
    is_incognito: bool,
    show_navbar: bool,
    custom_parameters: &str,
    profile_dir: &str,
) -> (r: Vec<String>)
    ensures
        r.deep_view() == launch_arguments(
            browser@.family,
            url@,
            is_isolated,
            is_incognito,
            show_navbar,
            custom_parameters@,
            profile_dir@,
        ),
{
    let mut r: Vec<String> = Vec::new();
    assert(r.deep_view() =~= Seq::<Seq<char>>::empty());
    match browser.family {
        BrowserFamily::Gecko => {
            if is_isolated {
                push_text(&mut r, String::from_str("--no-remote"));
                push_text(&mut r, String::from_str("--profile"));
                push_text(&mut r, String::from_str(profile_dir));
            }
            if !show_navbar {
                push_text(&mut r, String::from_str("--kiosk"));
            }
            if is_incognito {
                push_text(&mut r, String::from_str("--private-window"));
            } else {
                push_text(&mut r, String::from_str("--new-window"));
            }
            push_text(&mut r, String::from_str(url));
        },
        BrowserFamily::Chromium => {
            push_text(&mut r, concat("--app=", url));
            if is_isolated {
                push_text(&mut r, concat("--user-data-dir=", profile_dir));
            }
            if is_incognito {
                push_text(&mut r, String::from_str("--incognito"));
            }
        },
        BrowserFamily::Other => {
            push_text(&mut r, String::from_str(url));
        },
    }
    if custom_parameters.unicode_len() > 0 {
        push_text(&mut r, String::from_str(custom_parameters));
    }
    assert(r.deep_view() =~= launch_arguments(
        browser@.family,
        url@,
        is_isolated,
        is_incognito,
        show_navbar,
        custom_parameters@,
        profile_dir@,
    ));
    r
}

/// The arguments are determined by what is given: two browsers of one family
/// get the same arguments for the same page and options, whatever else
/// differs between them.
pub proof fn launch_arguments_are_determined(
    a: BrowserView,
    b: BrowserView,
    url: Seq<char>,
    is_isolated: bool,
    is_incognito: bool,
    show_navbar: bool,
    custom: Seq<char>,
    profile_dir: Seq<char>,
)
    requires
        a.family == b.family,
    ensures
        launch_arguments(a.family, url, is_isolated, is_incognito, show_navbar, custom, profile_dir)
            == launch_arguments(
            b.family,
            url,
            is_isolated,
            is_incognito,
            show_navbar,
            custom,
            profile_dir,
        ),
{
}

/// For a browser of the Chromium family the navigation bar changes nothing.
pub proof fn chromium_ignores_navbar(
    url: Seq<char>,
    is_isolated: bool,
    is_incognito: bool,
    custom: Seq<char>,
    profile_dir: Seq<char>,
)
    ensures
        launch_arguments(
            BrowserFamily::Chromium,
            url,
            is_isolated,
            is_incognito,
            true,
            custom,
            profile_dir,
        ) == launch_arguments(
            BrowserFamily::Chromium,
            url,
            is_isolated,
            is_incognito,
            false,
            custom,
            profile_dir,
        ),
{
}

/// The custom parameters, where there are any, are the last argument, unchanged.
pub proof fn custom_parameters_come_last(
    family: BrowserFamily,
    url: Seq<char>,
    is_isolated: bool,
    is_incognito: bool,
    show_navbar: bool,
    custom: Seq<char>,
    profile_dir: Seq<char>,
)
    requires
        custom.len() > 0,
    ensures
        launch_arguments(
            family,
            url,
            is_isolated,
            is_incognito,
            show_navbar,
            custom,
            profile_dir,
        ).last() == custom,
{
}

} // verus!

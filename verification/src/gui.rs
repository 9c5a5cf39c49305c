//! The controller of the launcher form: its state, the messages that reach it,
//! and, for each message, the next state and the work to be done outside.

use crate::browser::{resolve, Browser, BrowserFamily, BrowserView};
use crate::error::Error;
use crate::launcher::{FormView, LauncherForm, LauncherView, WebAppLauncher};
use crate::text::{contains, ends_with, finishes_with, includes, remove_char, without};
use crate::weburl::{
    derive_search_token, host_of_url, normalize_url, normalized, search_token, url_host,
};
use vstd::prelude::*;
use vstd::string::StringExecFns;

verus! {

/// The image of an icon, by kind: the bytes of a raster image, or the markup of
/// a vector image.
#[derive(Debug, PartialEq, Eq)]
pub enum IconType {
    Raster(Vec<u8>),
    Svg(Vec<u8>),
}

/// What an `IconType` holds, as mathematical values.
pub enum IconTypeView {
    Raster(Seq<u8>),
    Svg(Seq<u8>),
}

impl View for IconType {
    type V = IconTypeView;

    open spec fn view(&self) -> IconTypeView {
        match self {
            IconType::Raster(bytes) => IconTypeView::Raster(bytes@),
            IconType::Svg(bytes) => IconTypeView::Svg(bytes@),
        }
    }
}

impl Clone for IconType {
    fn clone(&self) -> (r: Self)
        ensures
            r@ == self@,
    {
        match self {
            IconType::Raster(bytes) => {
                let copy = bytes.clone();
                assert(copy@ =~= bytes@);
                IconType::Raster(copy)
            },
            IconType::Svg(bytes) => {
                let copy = bytes.clone();
                assert(copy@ =~= bytes@);
                IconType::Svg(copy)
            },
        }
    }
}

/// An icon in memory: its image and where it came from, a path or an address.
#[derive(Debug, PartialEq, Eq)]
pub struct Icon {
    pub icon: IconType,
    pub path: String,
}

/// What an `Icon` holds, as mathematical values.
pub struct IconView {
    pub icon: IconTypeView,
    pub path: Seq<char>,
}

impl View for Icon {
    type V = IconView;

    open spec fn view(&self) -> IconView {
        IconView { icon: self.icon@, path: self.path@ }
    }
}

impl DeepView for Icon {
    type V = IconView;

    open spec fn deep_view(&self) -> IconView {
        self@
    }
}

impl Clone for Icon {
    fn clone(&self) -> (r: Self)
        ensures
            r@ == self@,
    {
        Icon { icon: self.icon.clone(), path: self.path.clone() }
    }
}

impl Icon {
    /// An icon of this image and origin.
    pub fn new(icon: IconType, path: String) -> (r: Self)
        ensures
            r.icon == icon,
            r.path == path,
    {
        Self { icon, path }
    }
}

/// What was clicked in the form.
#[derive(Debug, PartialEq, Eq)]
pub enum Buttons {
    SearchFavicon,
    Favicon(String),
    Edit(Box<WebAppLauncher>),
    Delete(Box<WebAppLauncher>),
    Navbar(bool),
    IsolatedProfile(bool),
    Incognito(bool),
}

/// What a `Buttons` holds, as mathematical values.
pub enum ButtonsView {
    SearchFavicon,
    Favicon(Seq<char>),
    Edit(LauncherView),
    Delete(LauncherView),
    Navbar(bool),
    IsolatedProfile(bool),
    Incognito(bool),
}

impl View for Buttons {
    type V = ButtonsView;

    open spec fn view(&self) -> ButtonsView {
        match self {
            Buttons::SearchFavicon => ButtonsView::SearchFavicon,
            Buttons::Favicon(path) => ButtonsView::Favicon(path@),
            Buttons::Edit(launcher) => ButtonsView::Edit((**launcher)@),
            Buttons::Delete(launcher) => ButtonsView::Delete((**launcher)@),
            Buttons::Navbar(on) => ButtonsView::Navbar(*on),
            Buttons::IsolatedProfile(on) => ButtonsView::IsolatedProfile(*on),
            Buttons::Incognito(on) => ButtonsView::Incognito(*on),
        }
    }
}

impl Clone for Buttons {
    fn clone(&self) -> (r: Self)
        ensures
            r@ == self@,
    {
        match self {
            Buttons::SearchFavicon => Buttons::SearchFavicon,
            Buttons::Favicon(path) => Buttons::Favicon(path.clone()),
            Buttons::Edit(launcher) => Buttons::Edit(Box::new((**launcher).clone())),
            Buttons::Delete(launcher) => Buttons::Delete(Box::new((**launcher).clone())),
            Buttons::Navbar(on) => Buttons::Navbar(*on),
            Buttons::IsolatedProfile(on) => Buttons::IsolatedProfile(*on),
            Buttons::Incognito(on) => Buttons::Incognito(*on),
        }
    }
}

/// A copy of a list of texts.
pub fn copy_texts(texts: &Vec<String>) -> (r: Vec<String>)
    ensures
        r.deep_view() == texts.deep_view(),
{
    let mut r: Vec<String> = Vec::new();
    let mut i: usize = 0;
    while i < texts.len()
        invariant
            i <= texts.len(),
            r.len() == i,
            forall|k: int| 0 <= k < i ==> (#[trigger] r@[k])@ == texts@[k]@,
        decreases texts.len() - i,
    {
        r.push(texts[i].clone());
        i += 1;
    }
    assert(r.deep_view() =~= texts.deep_view());
    r
}

/// A message to the controller: an input of the form, or the outcome of work
/// that it asked for.
#[derive(Debug, PartialEq, Eq)]
pub enum AppMessage {
    PushIcon(Icon),
    FoundIcons(Vec<String>),
    SetIcon(Icon),
    OpenModal,
    CloseModal,
    CancelButtonPressed,
    PerformIconSearch,
    CustomIconsSearch(String),
    Result,
    Clicked(Buttons),
    Title(String),
    Url(String),
    Arguments(String),
    Browser(Browser),
    Category(String),
    ErrorLoadingIcon,
    SelectIcon(Icon),
    /// An icon was moved into the icon store and lies at `path`; `select` says
    /// whether it is to be shown as the selected one.
    IconMoved { path: String, select: bool },
}

/// What an `AppMessage` holds, as mathematical values.
pub enum MessageView {
    PushIcon(IconView),
    FoundIcons(Seq<Seq<char>>),
    SetIcon(IconView),
    OpenModal,
    CloseModal,
    CancelButtonPressed,
    PerformIconSearch,
    CustomIconsSearch(Seq<char>),
    Result,
    Clicked(ButtonsView),
    Title(Seq<char>),
    Url(Seq<char>),
    Arguments(Seq<char>),
    Browser(BrowserView),
    Category(Seq<char>),
    ErrorLoadingIcon,
    SelectIcon(IconView),
    IconMoved { path: Seq<char>, select: bool },
}

impl View for AppMessage {
    type V = MessageView;

    open spec fn view(&self) -> MessageView {
        match self {
            AppMessage::PushIcon(icon) => MessageView::PushIcon(icon@),
            AppMessage::FoundIcons(paths) => MessageView::FoundIcons(paths.deep_view()),
            AppMessage::SetIcon(icon) => MessageView::SetIcon(icon@),
            AppMessage::OpenModal => MessageView::OpenModal,
            AppMessage::CloseModal => MessageView::CloseModal,
            AppMessage::CancelButtonPressed => MessageView::CancelButtonPressed,
            AppMessage::PerformIconSearch => MessageView::PerformIconSearch,
            AppMessage::CustomIconsSearch(text) => MessageView::CustomIconsSearch(text@),
            AppMessage::Result => MessageView::Result,
            AppMessage::Clicked(button) => MessageView::Clicked(button@),
            AppMessage::Title(text) => MessageView::Title(text@),
            AppMessage::Url(text) => MessageView::Url(text@),
            AppMessage::Arguments(text) => MessageView::Arguments(text@),
            AppMessage::Browser(browser) => MessageView::Browser(browser@),
            AppMessage::Category(text) => MessageView::Category(text@),
            AppMessage::ErrorLoadingIcon => MessageView::ErrorLoadingIcon,
            AppMessage::SelectIcon(icon) => MessageView::SelectIcon(icon@),
            AppMessage::IconMoved { path, select } => MessageView::IconMoved {
                path: path@,
                select: *select,
            },
        }
    }
}

impl Clone for AppMessage {
    fn clone(&self) -> (r: Self)
        ensures
            r@ == self@,
    {
        match self {
            AppMessage::PushIcon(icon) => AppMessage::PushIcon(icon.clone()),
            AppMessage::FoundIcons(paths) => AppMessage::FoundIcons(copy_texts(paths)),
            AppMessage::SetIcon(icon) => AppMessage::SetIcon(icon.clone()),
            AppMessage::OpenModal => AppMessage::OpenModal,
            AppMessage::CloseModal => AppMessage::CloseModal,
            AppMessage::CancelButtonPressed => AppMessage::CancelButtonPressed,
            AppMessage::PerformIconSearch => AppMessage::PerformIconSearch,
            AppMessage::CustomIconsSearch(text) => AppMessage::CustomIconsSearch(text.clone()),
            AppMessage::Result => AppMessage::Result,
            AppMessage::Clicked(button) => AppMessage::Clicked(button.clone()),
            AppMessage::Title(text) => AppMessage::Title(text.clone()),
            AppMessage::Url(text) => AppMessage::Url(text.clone()),
            AppMessage::Arguments(text) => AppMessage::Arguments(text.clone()),
            AppMessage::Browser(browser) => AppMessage::Browser(browser.clone()),
            AppMessage::Category(text) => AppMessage::Category(text.clone()),
            AppMessage::ErrorLoadingIcon => AppMessage::ErrorLoadingIcon,
            AppMessage::SelectIcon(icon) => AppMessage::SelectIcon(icon.clone()),
            AppMessage::IconMoved { path, select } => AppMessage::IconMoved {
                path: path.clone(),
                select: *select,
            },
        }
    }
}

/// The message in which a loaded icon comes back.
#[derive(Clone, Copy, Debug, PartialEq, Eq, Structural)]
pub enum IconReply {
    /// `AppMessage::PushIcon`: one more icon to pick from.
    Offer,
    /// `AppMessage::SetIcon`: the icon that was picked.
    Pick,
    /// `AppMessage::SelectIcon`: the icon to show as the selected one.
    Show,
}

/// An icon to be fetched and decoded.
#[derive(Debug, PartialEq, Eq)]
pub struct IconRequest {
    pub path: String,
    pub svg: bool,
    pub reply: IconReply,
}

/// What an `IconRequest` holds, as mathematical values.
pub struct RequestView {
    pub path: Seq<char>,
    pub svg: bool,
    pub reply: IconReply,
}

impl View for IconRequest {
    type V = RequestView;

    open spec fn view(&self) -> RequestView {
        RequestView { path: self.path@, svg: self.svg, reply: self.reply }
    }
}

impl DeepView for IconRequest {
    type V = RequestView;

    open spec fn deep_view(&self) -> RequestView {
        self@
    }
}

/// The work that the controller asks for. Whoever does it hands the outcome
/// back as a message.
#[derive(Debug, PartialEq, Eq)]
pub enum Command {
    /// Nothing is to be done.
    Idle,
    /// Search the icons of the site at `url` and the icons named `token`; the
    /// candidates come back in `AppMessage::FoundIcons`.
    FindIcons { token: String, url: String },
    /// Fetch and decode each icon on its own; each comes back in the message
    /// that its request names, or as `AppMessage::ErrorLoadingIcon`.
    LoadIcons(Vec<IconRequest>),
    /// Fetch and decode one icon.
    LoadIcon(IconRequest),
    /// Move the icon at `source` into the icon store for `owner`; where that
    /// succeeds, the new path comes back in `AppMessage::IconMoved`.
    MoveIcon { source: String, owner: String, select: bool },
    /// Delete the launcher.
    Delete(Box<WebAppLauncher>),
    /// Save the form as a launcher, in the place of `previous` where there is
    /// one.
    Save { previous: Option<Box<WebAppLauncher>>, form: LauncherForm },
}

/// What a `Command` holds, as mathematical values.
pub enum CommandView {
    Idle,
    FindIcons { token: Seq<char>, url: Seq<char> },
    LoadIcons(Seq<RequestView>),
    LoadIcon(RequestView),
    MoveIcon { source: Seq<char>, owner: Seq<char>, select: bool },
    Delete(LauncherView),
    Save { previous: Option<LauncherView>, form: FormView },
}

/// What an optional launcher holds.
pub open spec fn optional_launcher(launcher: Option<Box<WebAppLauncher>>) -> Option<LauncherView> {
    match launcher {
        Some(l) => Some((*l)@),
        None => None,
    }
}

/// What an optional icon holds.
pub open spec fn optional_icon(icon: Option<Icon>) -> Option<IconView> {
    match icon {
        Some(i) => Some(i@),
        None => None,
    }
}

/// What an optional list of icons holds.
pub open spec fn optional_icons(icons: Option<Vec<Icon>>) -> Option<Seq<IconView>> {
    match icons {
        Some(list) => Some(list.deep_view()),
        None => None,
    }
}

/// What an optional text holds.
pub open spec fn optional_text(text: Option<String>) -> Option<Seq<char>> {
    match text {
        Some(t) => Some(t@),
        None => None,
    }
}

impl View for Command {
    type V = CommandView;

    open spec fn view(&self) -> CommandView {
        match self {
            Command::Idle => CommandView::Idle,
            Command::FindIcons { token, url } => CommandView::FindIcons { token: token@, url: url@ },
            Command::LoadIcons(requests) => CommandView::LoadIcons(requests.deep_view()),
            Command::LoadIcon(request) => CommandView::LoadIcon(request@),
            Command::MoveIcon { source, owner, select } => CommandView::MoveIcon {
                source: source@,
                owner: owner@,
                select: *select,
            },
            Command::Delete(launcher) => CommandView::Delete((**launcher)@),
            Command::Save { previous, form } => CommandView::Save {
                previous: optional_launcher(*previous),
                form: form@,
            },
        }
    }
}

/// The state of the launcher form.
#[derive(Debug, PartialEq, Eq)]
pub struct Wam {
    pub icons_paths: Vec<String>,
    pub icons: Option<Vec<Icon>>,
    pub app_codename: Option<String>,
    pub app_title: String,
    pub app_url: String,
    pub app_icon: String,
    pub app_parameters: String,
    pub app_category: String,
    pub app_browser_name: String,
    pub app_browser: Browser,
    pub app_navbar: bool,
    pub app_incognito: bool,
    pub app_isolated: bool,
    pub show_modal: bool,
    pub icon_searching: String,
    pub selected_icon: Option<Icon>,
    pub app_browsers: Vec<Browser>,
    pub edit_mode: bool,
    pub launcher: Option<Box<WebAppLauncher>>,
    pub app_base_dir: String,
}

/// What a `Wam` holds, as mathematical values.
pub struct WamView {
    pub icons_paths: Seq<Seq<char>>,
    pub icons: Option<Seq<IconView>>,
    pub app_codename: Option<Seq<char>>,
    pub app_title: Seq<char>,
    pub app_url: Seq<char>,
    pub app_icon: Seq<char>,
    pub app_parameters: Seq<char>,
    pub app_category: Seq<char>,
    pub app_browser_name: Seq<char>,
    pub app_browser: BrowserView,
    pub app_navbar: bool,
    pub app_incognito: bool,
    pub app_isolated: bool,
    pub show_modal: bool,
    pub icon_searching: Seq<char>,
    pub selected_icon: Option<IconView>,
    pub app_browsers: Seq<BrowserView>,
    pub edit_mode: bool,
    pub launcher: Option<LauncherView>,
    pub app_base_dir: Seq<char>,
}

impl View for Wam {
    type V = WamView;

    open spec fn view(&self) -> WamView {
        WamView {
            icons_paths: self.icons_paths.deep_view(),
            icons: optional_icons(self.icons),
            app_codename: optional_text(self.app_codename),
            app_title: self.app_title@,
            app_url: self.app_url@,
            app_icon: self.app_icon@,
            app_parameters: self.app_parameters@,
            app_category: self.app_category@,
            app_browser_name: self.app_browser_name@,
            app_browser: self.app_browser@,
            app_navbar: self.app_navbar,
            app_incognito: self.app_incognito,
            app_isolated: self.app_isolated,
            show_modal: self.show_modal,
            icon_searching: self.icon_searching@,
            selected_icon: optional_icon(self.selected_icon),
            app_browsers: self.app_browsers.deep_view(),
            edit_mode: self.edit_mode,
            launcher: optional_launcher(self.launcher),
            app_base_dir: self.app_base_dir@,
        }
    }
}

/// The browser that stands in the form while none is installed.
pub open spec fn no_browser() -> BrowserView {
    BrowserView {
        name: Seq::empty(),
        family: BrowserFamily::Other,
        executable: Seq::empty(),
        supports_isolated_profile: false,
    }
}

/// The form as it opens: empty, filed under `Web`, isolated, with the first of
/// the installed browsers.
pub open spec fn initial(browsers: Seq<BrowserView>, base_dir: Seq<char>) -> WamView {
    WamView {
        icons_paths: Seq::empty(),
        icons: Some(Seq::empty()),
        app_codename: None,
        app_title: Seq::empty(),
        app_url: Seq::empty(),
        app_icon: Seq::empty(),
        app_parameters: Seq::empty(),
        app_category: "Web"@,
        app_browser_name: "Browser"@,
        app_browser: if browsers.len() > 0 {
            browsers[0]
        } else {
            no_browser()
        },
        app_navbar: false,
        app_incognito: false,
        app_isolated: true,
        show_modal: false,
        icon_searching: Seq::empty(),
        selected_icon: None,
        app_browsers: browsers,
        edit_mode: false,
        launcher: None,
        app_base_dir: base_dir,
    }
}

/// The source is taken for a vector image by its name: it ends in `.svg`.
pub open spec fn names_svg(path: Seq<char>) -> bool {
    finishes_with(path, ".svg"@)
}

/// The request that loads the icon at `path`.
pub open spec fn request_for(path: Seq<char>, reply: IconReply) -> RequestView {
    RequestView { path, svg: names_svg(path), reply }
}

/// The requests that load the candidates of a search, each to be pushed.
pub open spec fn requests_for(paths: Seq<Seq<char>>) -> Seq<RequestView> {
    Seq::new(paths.len(), |i: int| request_for(paths[i], IconReply::Offer))
}

/// The icons to pick from, emptied where there is a list.
pub open spec fn emptied(icons: Option<Seq<IconView>>) -> Option<Seq<IconView>> {
    match icons {
        Some(_) => Some(Seq::empty()),
        None => None,
    }
}

/// The values of the form, as they are saved.
pub open spec fn form_of(w: WamView) -> FormView {
    FormView {
        name: w.app_title,
        url: w.app_url,
        icon_path: w.app_icon,
        category: w.app_category,
        browser: w.app_browser,
        custom_parameters: w.app_parameters,
        is_isolated: w.app_isolated,
        show_navbar: w.app_navbar,
        is_incognito: w.app_incognito,
    }
}

/// The form with the values of a launcher, for editing. The browser is the
/// registry's for the executable of the launcher's; where the registry has
/// none, the launcher's own.
pub open spec fn editing(w: WamView, l: LauncherView) -> WamView {
    WamView {
        edit_mode: true,
        launcher: Some(l),
        app_title: l.name,
        app_url: l.url,
        app_icon: l.icon_path,
        app_parameters: l.custom_parameters,
        app_category: l.category.label_spec(),
        app_browser: match resolve(w.app_browsers, l.browser.executable) {
            Some(b) => b,
            None => l.browser,
        },
        app_navbar: l.show_navbar,
        app_incognito: l.is_incognito,
        app_isolated: l.is_isolated,
        ..w
    }
}

/// The state after a click.
pub open spec fn after_click(w: WamView, button: ButtonsView) -> WamView {
    match button {
        ButtonsView::SearchFavicon => if w.app_url.len() > 0 {
            WamView { icons: emptied(w.icons), app_url: normalized(w.app_url), ..w }
        } else {
            WamView { icons: emptied(w.icons), ..w }
        },
        ButtonsView::Favicon(_) => w,
        ButtonsView::Edit(l) => editing(w, l),
        ButtonsView::Delete(_) => w,
        ButtonsView::Navbar(on) => WamView { app_navbar: on, ..w },
        ButtonsView::IsolatedProfile(on) => WamView { app_isolated: on, ..w },
        ButtonsView::Incognito(on) => WamView { app_incognito: on, ..w },
    }
}

/// The work that a click asks for.
pub open spec fn click_command(w: WamView, button: ButtonsView) -> CommandView {
    match button {
        ButtonsView::SearchFavicon => if w.app_url.len() > 0 {
            CommandView::FindIcons {
                token: search_token(url_host(normalized(w.app_url))),
                url: normalized(w.app_url),
            }
        } else {
            CommandView::Idle
        },
        ButtonsView::Favicon(path) => CommandView::LoadIcon(request_for(path, IconReply::Pick)),
        ButtonsView::Edit(l) => CommandView::LoadIcon(request_for(l.icon_path, IconReply::Pick)),
        ButtonsView::Delete(l) => CommandView::Delete(l),
        ButtonsView::Navbar(_) => CommandView::Idle,
        ButtonsView::IsolatedProfile(_) => CommandView::Idle,
        ButtonsView::Incognito(_) => CommandView::Idle,
    }
}

/// The icon is the first one of a search: it becomes the selected one, and is
/// moved into the icon store to become the launcher's.
pub open spec fn first_of_search(w: WamView) -> bool {
    w.icons matches Some(list) && list.len() == 0
}

/// The state after a message.
pub open spec fn next_state(w: WamView, message: MessageView) -> WamView {
    match message {
        MessageView::PushIcon(icon) => match w.icons {
            Some(list) => if list.len() == 0 {
                WamView { icons: Some(list.push(icon)), selected_icon: Some(icon), ..w }
            } else {
                WamView { icons: Some(list.push(icon)), ..w }
            },
            None => w,
        },
        MessageView::FoundIcons(_) => w,
        MessageView::SetIcon(_) => WamView { show_modal: false, ..w },
        MessageView::OpenModal => WamView { show_modal: true, ..w },
        MessageView::CloseModal => WamView { show_modal: false, ..w },
        MessageView::CancelButtonPressed => WamView { show_modal: false, ..w },
        MessageView::PerformIconSearch => WamView { icons: emptied(w.icons), ..w },
        MessageView::CustomIconsSearch(text) => WamView { icon_searching: text, ..w },
        MessageView::Result => w,
        MessageView::Clicked(button) => after_click(w, button),
        MessageView::Title(text) => WamView { app_title: text, ..w },
        MessageView::Url(text) => WamView { app_url: text, ..w },
        MessageView::Arguments(text) => WamView { app_parameters: text, ..w },
        MessageView::Browser(browser) => WamView { app_browser: browser, ..w },
        MessageView::Category(text) => WamView { app_category: text, ..w },
        MessageView::ErrorLoadingIcon => w,
        MessageView::SelectIcon(icon) => WamView { selected_icon: Some(icon), ..w },
        MessageView::IconMoved { path, select } => WamView { app_icon: path, ..w },
    }
}

/// The work that a message asks for.
pub open spec fn command_of(w: WamView, message: MessageView) -> CommandView {
    match message {
        MessageView::PushIcon(icon) => if first_of_search(w) {
            CommandView::MoveIcon {
                source: icon.path,
                owner: without(w.app_title, ' '),
                select: false,
            }
        } else {
            CommandView::Idle
        },
        MessageView::FoundIcons(paths) => if paths.len() > 0 {
            CommandView::LoadIcons(requests_for(paths))
        } else {
            CommandView::Idle
        },
        MessageView::SetIcon(icon) => CommandView::MoveIcon {
            source: icon.path,
            owner: w.app_title,
            select: true,
        },
        MessageView::PerformIconSearch => if w.icon_searching.len() > 0 {
            CommandView::FindIcons { token: w.icon_searching, url: w.app_url }
        } else {
            CommandView::Idle
        },
        MessageView::Result => CommandView::Save { previous: w.launcher, form: form_of(w) },
        MessageView::Clicked(button) => click_command(w, button),
        MessageView::IconMoved { path, select } => if select {
            CommandView::LoadIcon(request_for(path, IconReply::Show))
        } else {
            CommandView::Idle
        },
        _ => CommandView::Idle,
    }
}

/// Whether the source is taken for a vector image by its name.
pub fn is_svg(path: &str) -> (r: bool)
    ensures
        r == names_svg(path@),
{
    ends_with(path, ".svg")
}

/// The request that loads the icon at `path`.
pub fn make_request(path: String, reply: IconReply) -> (r: IconRequest)
    ensures
        r@ == request_for(path@, reply),
{
    let svg = is_svg(path.as_str());
    IconRequest { path, svg, reply }
}

/// The requests that load the candidates of a search.
pub fn make_requests(paths: &Vec<String>) -> (r: Vec<IconRequest>)
    ensures
        r.deep_view() == requests_for(paths.deep_view()),
{
    let mut r: Vec<IconRequest> = Vec::new();
    let mut i: usize = 0;
    while i < paths.len()
        invariant
            i <= paths.len(),
            r.len() == i,
            forall|k: int|
                0 <= k < i ==> (#[trigger] r@[k])@ == request_for(
                    paths@[k]@,
                    IconReply::Offer,
                ),
        decreases paths.len() - i,
    {
        r.push(make_request(paths[i].clone(), IconReply::Offer));
        i += 1;
    }
    assert(r.deep_view() =~= requests_for(paths.deep_view()));
    r
}

/// A copy of an optional launcher.
pub fn copy_launcher(launcher: &Option<Box<WebAppLauncher>>) -> (r: Option<Box<WebAppLauncher>>)
    ensures
        optional_launcher(r) == optional_launcher(*launcher),
{
    match launcher {
        Some(l) => Some(Box::new((**l).clone())),
        None => None,
    }
}

impl Wam {
    /// The form as it opens, for these installed browsers, in preference order,
    /// and this directory of the application's own files.
    pub fn new(browsers: Vec<Browser>, base_dir: String) -> (r: Self)
        ensures
            r@ == initial(browsers.deep_view(), base_dir@),
    {
        let browser = if browsers.len() > 0 {
            assert(browsers.deep_view()[0] == browsers@[0]@);
            browsers[0].clone()
        } else {
            Browser {
                name: String::new(),
                family: BrowserFamily::Other,
                executable: String::new(),
                supports_isolated_profile: false,
            }
        };
        let r = Wam {
            icons_paths: Vec::new(),
            icons: Some(Vec::new()),
            app_codename: None,
            app_title: String::new(),
            app_url: String::new(),
            app_icon: String::new(),
            app_parameters: String::new(),
            app_category: String::from_str("Web"),
            app_browser_name: String::from_str("Browser"),
            app_browser: browser,
            app_navbar: false,
            app_incognito: false,
            app_isolated: true,
            show_modal: false,
            icon_searching: String::new(),
            selected_icon: None,
            app_browsers: browsers,
            edit_mode: false,
            launcher: None,
            app_base_dir: base_dir,
        };
        assert(r@.icons_paths =~= Seq::<Seq<char>>::empty());
        assert(r@.icons->0 =~= Seq::<IconView>::empty());
        r
    }

    /// The values of the form, as they are saved.
    pub fn form(&self) -> (r: LauncherForm)
        ensures
            r@ == form_of(self@),
    {
        LauncherForm {
            name: self.app_title.clone(),
            url: self.app_url.clone(),
            icon_path: self.app_icon.clone(),
            category: self.app_category.clone(),
            browser: self.app_browser.clone(),
            custom_parameters: self.app_parameters.clone(),
            is_isolated: self.app_isolated,
            show_navbar: self.app_navbar,
            is_incognito: self.app_incognito,
        }
    }

    /// Empties the list of icons to pick from, where there is one.
    fn clear_icons(&mut self)
        ensures
            final(self)@ == (WamView { icons: emptied(old(self)@.icons), ..old(self)@ }),
    {
        if self.icons.is_some() {
            let list: Vec<Icon> = Vec::new();
            assert(list.deep_view() =~= Seq::<IconView>::empty());
            self.icons = Some(list);
        }
    }

    /// Takes one more icon to pick from. The first one of a search becomes the
    /// selected one and is to be moved into the icon store for the launcher.
    fn push_icon(&mut self, icon: Icon) -> (r: Command)
        ensures
            final(self)@ == next_state(old(self)@, MessageView::PushIcon(icon@)),
            r@ == command_of(old(self)@, MessageView::PushIcon(icon@)),
    {
        match self.icons.take() {
            Some(list) => {
                let mut list = list;
                let ghost before = list.deep_view();
                let mut command = Command::Idle;
                if list.len() == 0 {
                    self.selected_icon = Some(icon.clone());
                    command = Command::MoveIcon {
                        source: icon.path.clone(),
                        owner: remove_char(self.app_title.as_str(), ' '),
                        select: false,
                    };
                }
                list.push(icon);
                assert(list.deep_view() =~= before.push(icon@));
                self.icons = Some(list);
                command
            },
            None => Command::Idle,
        }
    }

    /// Fills the form with the values of a launcher, for editing.
    fn edit(&mut self, launcher: WebAppLauncher) -> (r: Command)
        ensures
            final(self)@ == editing(old(self)@, launcher@),
            r@ == CommandView::LoadIcon(request_for(launcher@.icon_path, IconReply::Pick)),
    {
        let found = Browser::web_browser(&self.app_browsers, launcher.browser.executable.as_str());
        self.app_browser = match found {
            Some(browser) => browser,
            None => launcher.browser.clone(),
        };
        self.edit_mode = true;
        self.app_title = launcher.name.clone();
        self.app_url = launcher.url.clone();
        self.app_icon = launcher.icon_path.clone();
        self.app_parameters = launcher.custom_parameters.clone();
        self.app_category = launcher.category.label();
        self.app_navbar = launcher.show_navbar;
        self.app_incognito = launcher.is_incognito;
        self.app_isolated = launcher.is_isolated;
        let request = make_request(launcher.icon_path.clone(), IconReply::Pick);
        self.launcher = Some(Box::new(launcher));
        Command::LoadIcon(request)
    }

    /// Takes a click.
    fn click(&mut self, button: Buttons) -> (r: Command)
        ensures
            final(self)@ == after_click(old(self)@, button@),
            r@ == click_command(old(self)@, button@),
    {
        match button {
            Buttons::SearchFavicon => {
                self.clear_icons();
                if self.app_url.as_str().unicode_len() > 0 {
                    let address = normalize_url(self.app_url.as_str());
                    let token = derive_search_token(address.as_str());
                    self.app_url = address.clone();
                    Command::FindIcons { token, url: address }
                } else {
                    Command::Idle
                }
            },
            Buttons::Favicon(path) => Command::LoadIcon(make_request(path, IconReply::Pick)),
            Buttons::Edit(launcher) => self.edit(*launcher),
            Buttons::Delete(launcher) => Command::Delete(launcher),
            Buttons::Navbar(on) => {
                self.app_navbar = on;
                Command::Idle
            },
            Buttons::IsolatedProfile(on) => {
                self.app_isolated = on;
                Command::Idle
            },
            Buttons::Incognito(on) => {
                self.app_incognito = on;
                Command::Idle
            },
        }
    }

    /// Takes a message: changes the form and says what is to be done outside.
    /// Nothing but the state and the message decides either.
    pub fn update(&mut self, message: AppMessage) -> (r: Command)
        ensures
            final(self)@ == next_state(old(self)@, message@),
            r@ == command_of(old(self)@, message@),
    {
        match message {
            AppMessage::Title(text) => {
                self.app_title = text;
                Command::Idle
            },
            AppMessage::Url(url) => {
                self.app_url = url;
                Command::Idle
            },
            AppMessage::Arguments(arguments) => {
                self.app_parameters = arguments;
                Command::Idle
            },
            AppMessage::PushIcon(icon) => self.push_icon(icon),
            AppMessage::FoundIcons(paths) => {
                if paths.len() > 0 {
                    Command::LoadIcons(make_requests(&paths))
                } else {
                    Command::Idle
                }
            },
            AppMessage::Clicked(button) => self.click(button),
            AppMessage::Browser(browser) => {
                self.app_browser = browser;
                Command::Idle
            },
            AppMessage::Result => Command::Save {
                previous: copy_launcher(&self.launcher),
                form: self.form(),
            },
            AppMessage::Category(category) => {
                self.app_category = category;
                Command::Idle
            },
            AppMessage::OpenModal => {
                self.show_modal = true;
                Command::Idle
            },
            AppMessage::CloseModal => {
                self.show_modal = false;
                Command::Idle
            },
            AppMessage::CancelButtonPressed => {
                self.show_modal = false;
                Command::Idle
            },
            AppMessage::ErrorLoadingIcon => Command::Idle,
            AppMessage::SetIcon(icon) => {
                self.show_modal = false;
                Command::MoveIcon { source: icon.path, owner: self.app_title.clone(), select: true }
            },
            AppMessage::SelectIcon(icon) => {
                self.selected_icon = Some(icon);
                Command::Idle
            },
            AppMessage::CustomIconsSearch(text) => {
                self.icon_searching = text;
                Command::Idle
            },
            AppMessage::PerformIconSearch => {
                self.clear_icons();
                if self.icon_searching.as_str().unicode_len() > 0 {
                    Command::FindIcons {
                        token: self.icon_searching.clone(),
                        url: self.app_url.clone(),
                    }
                } else {
                    Command::Idle
                }
            },
            AppMessage::IconMoved { path, select } => {
                self.app_icon = path.clone();
                if select {
                    Command::LoadIcon(make_request(path, IconReply::Show))
                } else {
                    Command::Idle
                }
            },
        }
    }
}

/// The switch that the form offers besides the private mode.
#[derive(Clone, Copy, Debug, PartialEq, Eq, Structural)]
pub enum BrowserSwitch {
    /// The navigation bar, for browsers of the Gecko family.
    Navbar,
    /// The isolated profile, for the others.
    IsolatedProfile,
}

/// A row of the list of installed launchers.
#[derive(Debug, PartialEq, Eq)]
pub struct LauncherRow {
    pub name: String,
    pub host: String,
}

/// What a `LauncherRow` holds, as mathematical values.
pub struct RowView {
    pub name: Seq<char>,
    pub host: Seq<char>,
}

impl View for LauncherRow {
    type V = RowView;

    open spec fn view(&self) -> RowView {
        RowView { name: self.name@, host: self.host@ }
    }
}

impl DeepView for LauncherRow {
    type V = RowView;

    open spec fn deep_view(&self) -> RowView {
        self@
    }
}

/// The switch that the form offers for a browser of this family.
pub open spec fn switch_for(family: BrowserFamily) -> BrowserSwitch {
    match family {
        BrowserFamily::Gecko => BrowserSwitch::Navbar,
        _ => BrowserSwitch::IsolatedProfile,
    }
}

/// The icon that the form shows: the selected one, once there are icons to pick
/// from or the launcher has one.
pub open spec fn icon_shown(w: WamView) -> Option<IconView> {
    if (w.icons matches Some(list) && list.len() > 0) || w.app_icon.len() > 0 {
        w.selected_icon
    } else {
        None
    }
}

/// The row of a launcher: its name, and the host of its address, empty where
/// the address has none.
pub open spec fn row_of(l: LauncherView) -> RowView {
    RowView {
        name: l.name,
        host: match url_host(l.url) {
            Some(h) => h,
            None => Seq::empty(),
        },
    }
}

/// The rows of a listing: one for each launcher that could be read, in order.
pub open spec fn rows_of(items: Seq<Result<LauncherView, Error>>) -> Seq<RowView>
    decreases items.len(),
{
    if items.len() == 0 {
        Seq::empty()
    } else {
        match items.last() {
            Ok(l) => rows_of(items.drop_last()).push(row_of(l)),
            Err(_) => rows_of(items.drop_last()),
        }
    }
}

/// How many launchers of a listing could not be read.
pub open spec fn unreadable(items: Seq<Result<LauncherView, Error>>) -> nat
    decreases items.len(),
{
    if items.len() == 0 {
        0
    } else {
        unreadable(items.drop_last()) + if items.last() is Err {
            1nat
        } else {
            0nat
        }
    }
}

impl Wam {
    /// The switch that the form offers for the chosen browser.
    pub fn browser_switch(&self) -> (r: BrowserSwitch)
        ensures
            r == switch_for(self@.app_browser.family),
    {
        match self.app_browser.family {
            BrowserFamily::Gecko => BrowserSwitch::Navbar,
            _ => BrowserSwitch::IsolatedProfile,
        }
    }

    /// The icon that the form shows, if it shows one.
    pub fn shown_icon(&self) -> (r: Option<Icon>)
        ensures
            optional_icon(r) == icon_shown(self@),
    {
        let offered = match &self.icons {
            Some(list) => list.len() > 0,
            None => false,
        };
        if offered || self.app_icon.as_str().unicode_len() > 0 {
            match &self.selected_icon {
                Some(icon) => Some(icon.clone()),
                None => None,
            }
        } else {
            None
        }
    }
}

/// The rows of the list of installed launchers, and how many launchers could
/// not be read.
pub fn launcher_rows(items: &Vec<Result<WebAppLauncher, Error>>) -> (r: (Vec<LauncherRow>, usize))
    ensures
        r.0.deep_view() == rows_of(crate::store::outcomes(items@)),
        r.1 == unreadable(crate::store::outcomes(items@)),
{
    let mut rows: Vec<LauncherRow> = Vec::new();
    let mut failed: usize = 0;
    let mut i: usize = 0;
    let ghost all = crate::store::outcomes(items@);
    assert(rows.deep_view() =~= Seq::<RowView>::empty());
    assert(all.take(0) =~= Seq::<Result<LauncherView, Error>>::empty());
    while i < items.len()
        invariant
            i <= items.len(),
            failed <= i,
            all == crate::store::outcomes(items@),
            rows.deep_view() == rows_of(all.take(i as int)),
            failed == unreadable(all.take(i as int)),
        decreases items.len() - i,
    {
        assert(all.take(i + 1).drop_last() =~= all.take(i as int));
        assert(all.take(i + 1).last() == crate::launcher::outcome_view(items@[i as int]));
        match &items[i] {
            Ok(launcher) => {
                let ghost before = rows.deep_view();
                let host = match host_of_url(launcher.url.as_str()) {
                    Some(h) => h,
                    None => String::new(),
                };
                let row = LauncherRow { name: launcher.name.clone(), host };
                let ghost row_view = row@;
                rows.push(row);
                assert(rows.deep_view() =~= before.push(row_view));
            },
            Err(_) => {
                failed += 1;
            },
        }
        i += 1;
    }
    assert(all.take(items.len() as int) =~= all);
    (rows, failed)
}

/// Whether the desktop's answer to the question of its colour scheme asks for
/// the dark one: whether it holds the word `dark`.
pub fn prefers_dark(color_scheme: &str) -> (r: bool)
    ensures
        r == includes(color_scheme@, "dark"@),
{
    contains(color_scheme, "dark")
}

} // verus!

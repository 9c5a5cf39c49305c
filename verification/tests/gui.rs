use wam_rust::browser::{Browser, BrowserFamily};
use wam_rust::error::Error;
use wam_rust::gui::{
    is_svg, launcher_rows, prefers_dark, AppMessage, BrowserSwitch, Buttons, Command, Icon,
    IconReply, IconRequest, IconType, LauncherRow, Wam,
};
use wam_rust::launcher::{Category, LauncherForm, WebAppLauncher};

fn firefox() -> Browser {
    Browser {
        name: "Firefox".to_string(),
        family: BrowserFamily::Gecko,
        executable: "firefox".to_string(),
        supports_isolated_profile: true,
    }
}

fn chromium() -> Browser {
    Browser {
        name: "Chromium".to_string(),
        family: BrowserFamily::Chromium,
        executable: "chromium".to_string(),
        supports_isolated_profile: true,
    }
}

fn wam() -> Wam {
    Wam::new(vec![firefox(), chromium()], "/data/wam".to_string())
}

fn raster(path: &str) -> Icon {
    Icon::new(IconType::Raster(vec![0x89, 0x50, 0x4e, 0x47]), path.to_string())
}

fn launcher() -> WebAppLauncher {
    WebAppLauncher::new(
        "Mail".to_string(),
        "Mail1".to_string(),
        "https://mail.example.com",
        "/data/icons/Mail.svg".to_string(),
        Category::Office,
        chromium(),
        "--x".to_string(),
        false,
        true,
        true,
        &vec![firefox(), chromium()],
    )
}

fn request(path: &str, svg: bool, reply: IconReply) -> IconRequest {
    IconRequest { path: path.to_string(), svg, reply }
}

#[test]
fn the_form_opens_empty_with_the_first_browser() {
    let w = wam();
    assert_eq!(w.app_browser, firefox());
    assert_eq!(w.app_category, "Web");
    assert_eq!(w.app_browser_name, "Browser");
    assert_eq!(w.icons, Some(Vec::new()));
    assert!(w.app_isolated);
    assert!(!w.app_navbar);
    assert!(!w.app_incognito);
    assert!(!w.show_modal);
    assert!(!w.edit_mode);
    assert_eq!(w.launcher, None);
    assert_eq!(w.app_codename, None);
    assert_eq!(w.selected_icon, None);
    assert_eq!(w.app_base_dir, "/data/wam");
    assert!(w.app_title.is_empty() && w.app_url.is_empty() && w.app_icon.is_empty());
}

#[test]
fn the_form_opens_without_a_browser_and_saves_nothing_valid() {
    let w = Wam::new(Vec::new(), String::new());
    assert_eq!(w.app_browser.name, "");
    assert_eq!(w.app_browser.executable, "");
    assert_eq!(w.app_browser.family, BrowserFamily::Other);
    let form = w.form();
    assert_eq!(form.launcher("x".to_string(), &w.app_browsers).map(|l| l.is_valid), Some(false));
}

#[test]
fn text_inputs_change_their_field_only() {
    let mut w = wam();
    assert_eq!(w.update(AppMessage::Title("Mail".to_string())), Command::Idle);
    assert_eq!(w.update(AppMessage::Url("mail.example.com".to_string())), Command::Idle);
    assert_eq!(w.update(AppMessage::Arguments("--x".to_string())), Command::Idle);
    assert_eq!(w.update(AppMessage::Category("Office".to_string())), Command::Idle);
    assert_eq!(w.update(AppMessage::CustomIconsSearch("mail".to_string())), Command::Idle);
    assert_eq!(w.update(AppMessage::Browser(chromium())), Command::Idle);
    let mut expected = wam();
    expected.app_title = "Mail".to_string();
    expected.app_url = "mail.example.com".to_string();
    expected.app_parameters = "--x".to_string();
    expected.app_category = "Office".to_string();
    expected.icon_searching = "mail".to_string();
    expected.app_browser = chromium();
    assert_eq!(w, expected);
}

#[test]
fn switches_change_their_flag_only() {
    let mut w = wam();
    assert_eq!(w.update(AppMessage::Clicked(Buttons::Navbar(true))), Command::Idle);
    assert_eq!(w.update(AppMessage::Clicked(Buttons::Incognito(true))), Command::Idle);
    assert_eq!(w.update(AppMessage::Clicked(Buttons::IsolatedProfile(false))), Command::Idle);
    let mut expected = wam();
    expected.app_navbar = true;
    expected.app_incognito = true;
    expected.app_isolated = false;
    assert_eq!(w, expected);
}

#[test]
fn the_modal_opens_and_closes() {
    let mut w = wam();
    assert_eq!(w.update(AppMessage::OpenModal), Command::Idle);
    assert!(w.show_modal);
    assert_eq!(w.update(AppMessage::CloseModal), Command::Idle);
    assert!(!w.show_modal);
    w.update(AppMessage::OpenModal);
    assert_eq!(w.update(AppMessage::CancelButtonPressed), Command::Idle);
    assert!(!w.show_modal);
    assert_eq!(w.update(AppMessage::ErrorLoadingIcon), Command::Idle);
    assert_eq!(w, wam());
}

#[test]
fn searching_the_favicon_normalizes_the_address_first() {
    let mut w = wam();
    w.update(AppMessage::Url("www.example.com/app".to_string()));
    w.update(AppMessage::PushIcon(raster("/old.png")));
    let command = w.update(AppMessage::Clicked(Buttons::SearchFavicon));
    assert_eq!(
        command,
        Command::FindIcons {
            token: "example".to_string(),
            url: "https://www.example.com/app".to_string(),
        }
    );
    assert_eq!(w.app_url, "https://www.example.com/app");
    assert_eq!(w.icons, Some(Vec::new()));
}

#[test]
fn searching_the_favicon_without_an_address_only_clears_the_icons() {
    let mut w = wam();
    w.update(AppMessage::PushIcon(raster("/old.png")));
    assert_eq!(w.update(AppMessage::Clicked(Buttons::SearchFavicon)), Command::Idle);
    assert_eq!(w.icons, Some(Vec::new()));
    assert_eq!(w.app_url, "");
}

#[test]
fn a_custom_search_uses_the_typed_word() {
    let mut w = wam();
    w.update(AppMessage::Url("https://example.com".to_string()));
    assert_eq!(w.update(AppMessage::PerformIconSearch), Command::Idle);
    w.update(AppMessage::CustomIconsSearch("mail".to_string()));
    w.update(AppMessage::PushIcon(raster("/old.png")));
    assert_eq!(
        w.update(AppMessage::PerformIconSearch),
        Command::FindIcons { token: "mail".to_string(), url: "https://example.com".to_string() }
    );
    assert_eq!(w.icons, Some(Vec::new()));
}

#[test]
fn found_icons_are_loaded_one_by_one() {
    let mut w = wam();
    let before = wam();
    assert_eq!(w.update(AppMessage::FoundIcons(Vec::new())), Command::Idle);
    let command = w.update(AppMessage::FoundIcons(vec![
        "https://example.com/a.png".to_string(),
        "/usr/share/icons/b.svg".to_string(),
        "c.SVG".to_string(),
    ]));
    assert_eq!(
        command,
        Command::LoadIcons(vec![
            request("https://example.com/a.png", false, IconReply::Offer),
            request("/usr/share/icons/b.svg", true, IconReply::Offer),
            request("c.SVG", false, IconReply::Offer),
        ])
    );
    assert_eq!(w, before);
}

#[test]
fn the_first_icon_of_a_search_is_selected_and_moved_in() {
    let mut w = wam();
    w.update(AppMessage::Title("My Mail App".to_string()));
    let first = raster("https://example.com/a.png");
    let command = w.update(AppMessage::PushIcon(first.clone()));
    assert_eq!(
        command,
        Command::MoveIcon {
            source: "https://example.com/a.png".to_string(),
            owner: "MyMailApp".to_string(),
            select: false,
        }
    );
    assert_eq!(w.selected_icon, Some(first.clone()));
    assert_eq!(w.app_icon, "");
    let second = raster("/usr/share/icons/b.png");
    assert_eq!(w.update(AppMessage::PushIcon(second.clone())), Command::Idle);
    assert_eq!(w.selected_icon, Some(first.clone()));
    assert_eq!(w.icons, Some(vec![first, second]));
}

#[test]
fn a_local_first_icon_is_moved_in_as_well() {
    let mut w = wam();
    w.update(AppMessage::Title("Mail".to_string()));
    let command = w.update(AppMessage::PushIcon(raster("/usr/share/icons/mail.png")));
    assert_eq!(
        command,
        Command::MoveIcon {
            source: "/usr/share/icons/mail.png".to_string(),
            owner: "Mail".to_string(),
            select: false,
        }
    );
    assert_eq!(w.app_icon, "");
}

#[test]
fn icons_are_dropped_while_there_is_no_list() {
    let mut w = wam();
    w.icons = None;
    let before = Wam { icons: None, ..wam() };
    assert_eq!(w.update(AppMessage::PushIcon(raster("/a.png"))), Command::Idle);
    assert_eq!(w, before);
    assert_eq!(w.update(AppMessage::PerformIconSearch), Command::Idle);
    assert_eq!(w.icons, None);
}

#[test]
fn a_moved_icon_becomes_the_icon_of_the_form() {
    let mut w = wam();
    let quiet = w.update(AppMessage::IconMoved { path: "/data/icons/Mail.png".to_string(), select: false });
    assert_eq!(quiet, Command::Idle);
    assert_eq!(w.app_icon, "/data/icons/Mail.png");
    let shown = w.update(AppMessage::IconMoved { path: "/data/icons/Mail.svg".to_string(), select: true });
    assert_eq!(shown, Command::LoadIcon(request("/data/icons/Mail.svg", true, IconReply::Show)));
    assert_eq!(w.app_icon, "/data/icons/Mail.svg");
}

#[test]
fn picking_an_icon_loads_it_then_moves_it_then_shows_it() {
    let mut w = wam();
    w.update(AppMessage::Title("Mail".to_string()));
    w.update(AppMessage::OpenModal);
    let load = w.update(AppMessage::Clicked(Buttons::Favicon("https://example.com/a.png".to_string())));
    assert_eq!(load, Command::LoadIcon(request("https://example.com/a.png", false, IconReply::Pick)));
    assert!(w.show_modal);
    let picked = raster("https://example.com/a.png");
    let moved = w.update(AppMessage::SetIcon(picked.clone()));
    assert_eq!(
        moved,
        Command::MoveIcon {
            source: "https://example.com/a.png".to_string(),
            owner: "Mail".to_string(),
            select: true,
        }
    );
    assert!(!w.show_modal);
    assert_eq!(w.selected_icon, None);
    assert_eq!(w.update(AppMessage::SelectIcon(picked.clone())), Command::Idle);
    assert_eq!(w.selected_icon, Some(picked));
}

#[test]
fn editing_fills_the_form_from_the_launcher() {
    let mut w = wam();
    let command = w.update(AppMessage::Clicked(Buttons::Edit(Box::new(launcher()))));
    assert_eq!(command, Command::LoadIcon(request("/data/icons/Mail.svg", true, IconReply::Pick)));
    let mut expected = wam();
    expected.edit_mode = true;
    expected.launcher = Some(Box::new(launcher()));
    expected.app_title = "Mail".to_string();
    expected.app_url = "https://mail.example.com".to_string();
    expected.app_icon = "/data/icons/Mail.svg".to_string();
    expected.app_parameters = "--x".to_string();
    expected.app_category = "Office".to_string();
    expected.app_browser = chromium();
    expected.app_navbar = true;
    expected.app_incognito = true;
    expected.app_isolated = false;
    assert_eq!(w, expected);
}

#[test]
fn editing_a_launcher_of_an_unknown_browser_keeps_that_browser() {
    let mut w = Wam::new(vec![firefox()], String::new());
    w.update(AppMessage::Clicked(Buttons::Edit(Box::new(launcher()))));
    assert_eq!(w.app_browser, chromium());
}

#[test]
fn deleting_asks_for_the_deletion_and_leaves_the_form() {
    let mut w = wam();
    let command = w.update(AppMessage::Clicked(Buttons::Delete(Box::new(launcher()))));
    assert_eq!(command, Command::Delete(Box::new(launcher())));
    assert_eq!(w, wam());
}

#[test]
fn done_saves_the_form_as_a_new_launcher() {
    let mut w = wam();
    w.update(AppMessage::Title("Mail".to_string()));
    w.update(AppMessage::Url("mail.example.com".to_string()));
    w.update(AppMessage::Clicked(Buttons::Incognito(true)));
    let before = Wam { ..Wam::new(vec![firefox(), chromium()], "/data/wam".to_string()) };
    let command = w.update(AppMessage::Result);
    assert_eq!(
        command,
        Command::Save {
            previous: None,
            form: LauncherForm {
                name: "Mail".to_string(),
                url: "mail.example.com".to_string(),
                icon_path: String::new(),
                category: "Web".to_string(),
                browser: firefox(),
                custom_parameters: String::new(),
                is_isolated: true,
                show_navbar: false,
                is_incognito: true,
            },
        }
    );
    assert_eq!(w.app_title, "Mail");
    assert_ne!(w, before);
}

#[test]
fn done_while_editing_saves_in_the_place_of_the_launcher() {
    let mut w = wam();
    w.update(AppMessage::Clicked(Buttons::Edit(Box::new(launcher()))));
    w.update(AppMessage::Title("Work Mail".to_string()));
    match w.update(AppMessage::Result) {
        Command::Save { previous, form } => {
            assert_eq!(previous, Some(Box::new(launcher())));
            assert_eq!(form.name, "Work Mail");
            assert_eq!(form.url, "https://mail.example.com");
            assert_eq!(form.icon_path, "/data/icons/Mail.svg");
            assert_eq!(form.category, "Office");
            assert_eq!(form.browser, chromium());
            assert!(form.show_navbar && form.is_incognito && !form.is_isolated);
        }
        other => panic!("unexpected command {:?}", other),
    }
}

#[test]
fn the_same_state_and_message_give_the_same_outcome() {
    let messages = || {
        vec![
            AppMessage::Title("A".to_string()),
            AppMessage::Url("a.example.com".to_string()),
            AppMessage::Clicked(Buttons::SearchFavicon),
            AppMessage::FoundIcons(vec!["x.svg".to_string()]),
            AppMessage::PushIcon(raster("x.svg")),
            AppMessage::Result,
        ]
    };
    let mut first = wam();
    let mut second = wam();
    for (a, b) in messages().into_iter().zip(messages()) {
        assert_eq!(first.update(a), second.update(b));
        assert_eq!(first, second);
    }
}

#[test]
fn the_switch_goes_by_the_family_of_the_browser() {
    let mut w = wam();
    assert_eq!(w.browser_switch(), BrowserSwitch::Navbar);
    w.update(AppMessage::Browser(chromium()));
    assert_eq!(w.browser_switch(), BrowserSwitch::IsolatedProfile);
    w.update(AppMessage::Browser(Browser { family: BrowserFamily::Other, ..chromium() }));
    assert_eq!(w.browser_switch(), BrowserSwitch::IsolatedProfile);
}

#[test]
fn the_selected_icon_shows_once_there_is_something_to_show() {
    let mut w = wam();
    assert_eq!(w.shown_icon(), None);
    w.update(AppMessage::SelectIcon(raster("/a.png")));
    assert_eq!(w.shown_icon(), None);
    w.update(AppMessage::IconMoved { path: "/data/icons/A.png".to_string(), select: false });
    assert_eq!(w.shown_icon(), Some(raster("/a.png")));
    let mut offered = wam();
    offered.update(AppMessage::PushIcon(raster("/b.png")));
    assert_eq!(offered.shown_icon(), Some(raster("/b.png")));
}

#[test]
fn rows_show_name_and_host_and_count_the_unreadable() {
    let mut hostless = launcher();
    hostless.name = "Odd".to_string();
    hostless.url = "not an address".to_string();
    let items = vec![Ok(launcher()), Err(Error::Parse), Ok(hostless), Err(Error::Io)];
    let (rows, failed) = launcher_rows(&items);
    assert_eq!(
        rows,
        vec![
            LauncherRow { name: "Mail".to_string(), host: "mail.example.com".to_string() },
            LauncherRow { name: "Odd".to_string(), host: String::new() },
        ]
    );
    assert_eq!(failed, 2);
    assert_eq!(launcher_rows(&Vec::new()), (Vec::new(), 0));
}

#[test]
fn the_dark_scheme_is_known_by_its_word() {
    assert!(prefers_dark("'prefer-dark'\n"));
    assert!(prefers_dark("dark"));
    assert!(!prefers_dark("'default'\n"));
    assert!(!prefers_dark("'prefer-light'"));
    assert!(!prefers_dark(""));
    assert!(!prefers_dark("DARK"));
}

#[test]
fn vector_sources_are_known_by_their_ending() {
    assert!(is_svg("a.svg"));
    assert!(is_svg(".svg"));
    assert!(!is_svg("a.svg.png"));
    assert!(!is_svg("a.SVG"));
    assert!(!is_svg("svg"));
}

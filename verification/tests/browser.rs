use wam_rust::browser::{
    build_launch_arguments, detect_installed_browsers, known_browsers, select_installed, Browser,
    BrowserFamily, BrowserProbe,
};

fn browser(name: &str, family: BrowserFamily, executable: &str, isolated: bool) -> Browser {
    Browser {
        name: name.to_string(),
        family,
        executable: executable.to_string(),
        supports_isolated_profile: isolated,
    }
}

fn firefox() -> Browser {
    browser("Firefox", BrowserFamily::Gecko, "firefox", true)
}

fn chromium() -> Browser {
    browser("Chromium", BrowserFamily::Chromium, "chromium", true)
}

fn texts(items: &[&str]) -> Vec<String> {
    items.iter().map(|s| s.to_string()).collect()
}

#[test]
fn gecko_arguments_with_every_option() {
    let args = build_launch_arguments(
        &firefox(),
        "https://example.com",
        true,
        true,
        false,
        "--foo --bar",
        "/profiles/Example1",
    );
    assert_eq!(
        args,
        texts(&[
            "--no-remote",
            "--profile",
            "/profiles/Example1",
            "--kiosk",
            "--private-window",
            "https://example.com",
            "--foo --bar",
        ])
    );
}

#[test]
fn gecko_arguments_without_options() {
    let args = build_launch_arguments(&firefox(), "https://example.com", false, false, true, "", "/p");
    assert_eq!(args, texts(&["--new-window", "https://example.com"]));
}

#[test]
fn gecko_navbar_toggles_the_kiosk_flag() {
    let shown = build_launch_arguments(&firefox(), "https://a.b", false, false, true, "", "/p");
    let hidden = build_launch_arguments(&firefox(), "https://a.b", false, false, false, "", "/p");
    assert!(!shown.contains(&"--kiosk".to_string()));
    assert!(hidden.contains(&"--kiosk".to_string()));
}

#[test]
fn chromium_arguments_with_every_option() {
    let args = build_launch_arguments(
        &chromium(),
        "https://example.com",
        true,
        true,
        true,
        "--force-dark-mode",
        "/profiles/Example1",
    );
    assert_eq!(
        args,
        texts(&[
            "--app=https://example.com",
            "--user-data-dir=/profiles/Example1",
            "--incognito",
            "--force-dark-mode",
        ])
    );
}

#[test]
fn chromium_arguments_without_options() {
    let args = build_launch_arguments(&chromium(), "https://example.com", false, false, false, "", "/p");
    assert_eq!(args, texts(&["--app=https://example.com"]));
}

#[test]
fn chromium_ignores_the_navbar_on_purpose() {
    for isolated in [false, true] {
        for incognito in [false, true] {
            let with = build_launch_arguments(&chromium(), "https://a.b", isolated, incognito, true, "x", "/p");
            let without = build_launch_arguments(&chromium(), "https://a.b", isolated, incognito, false, "x", "/p");
            assert_eq!(with, without);
        }
    }
}

#[test]
fn other_family_takes_the_address_and_the_custom_parameters() {
    let epiphany = browser("Epiphany", BrowserFamily::Other, "epiphany", false);
    let args = build_launch_arguments(&epiphany, "https://example.com", true, true, true, "--x", "/p");
    assert_eq!(args, texts(&["https://example.com", "--x"]));
    let bare = build_launch_arguments(&epiphany, "https://example.com", true, true, true, "", "/p");
    assert_eq!(bare, texts(&["https://example.com"]));
}

#[test]
fn identical_inputs_give_identical_arguments() {
    for b in [firefox(), chromium()] {
        for isolated in [false, true] {
            for incognito in [false, true] {
                for navbar in [false, true] {
                    let first = build_launch_arguments(&b, "https://example.com/a?b=c", isolated, incognito, navbar, "--k v", "/p/x");
                    let second = build_launch_arguments(&b, "https://example.com/a?b=c", isolated, incognito, navbar, "--k v", "/p/x");
                    assert_eq!(first, second);
                }
            }
        }
    }
}

#[test]
fn custom_parameters_are_last_and_unchanged() {
    for b in [firefox(), chromium(), browser("Falkon", BrowserFamily::Other, "falkon", false)] {
        let args = build_launch_arguments(&b, "https://a.b", true, true, false, " --odd  spacing ", "/p");
        assert_eq!(args.last().unwrap(), " --odd  spacing ");
    }
}

#[test]
fn known_browsers_are_in_the_order_of_preference() {
    let known = known_browsers();
    let names: Vec<&str> = known.iter().map(|p| p.browser.name.as_str()).collect();
    assert_eq!(
        names,
        vec![
            "Firefox",
            "Firefox (Flatpak)",
            "LibreWolf",
            "Waterfox (Flatpak)",
            "Chromium",
            "Google Chrome",
            "Brave",
            "Vivaldi",
            "Microsoft Edge",
            "Epiphany",
            "Falkon",
        ]
    );
    assert_eq!(known[1].browser.executable, "flatpak run org.mozilla.firefox");
    assert_eq!(known[1].identity, "org.mozilla.firefox");
    assert!(known[1].sandboxed);
    assert_eq!(known[0].identity, "firefox");
    assert!(!known[0].sandboxed);
    assert_eq!(known[4].browser.family, BrowserFamily::Chromium);
    assert_eq!(known[9].browser.family, BrowserFamily::Other);
    assert!(!known[9].browser.supports_isolated_profile);
}

#[test]
fn detection_keeps_the_order_and_drops_the_absent() {
    let mut present = vec![false; 11];
    present[4] = true;
    present[0] = true;
    present[10] = true;
    let found = detect_installed_browsers(&present);
    let names: Vec<&str> = found.iter().map(|b| b.name.as_str()).collect();
    assert_eq!(names, vec!["Firefox", "Chromium", "Falkon"]);
}

#[test]
fn detection_without_any_browser_is_empty() {
    assert!(detect_installed_browsers(&vec![false; 11]).is_empty());
    assert!(detect_installed_browsers(&Vec::new()).is_empty());
}

#[test]
fn detection_counts_a_missing_answer_as_absent() {
    let found = detect_installed_browsers(&vec![true, true]);
    assert_eq!(found.len(), 2);
    assert_eq!(found[1].name, "Firefox (Flatpak)");
}

#[test]
fn selection_works_on_any_list_of_probes() {
    let probes = vec![
        BrowserProbe { browser: firefox(), identity: "firefox".to_string(), sandboxed: false },
        BrowserProbe { browser: chromium(), identity: "chromium".to_string(), sandboxed: false },
    ];
    assert_eq!(select_installed(&probes, &vec![false, true]), vec![chromium()]);
    assert_eq!(select_installed(&probes, &vec![true, true, true]), vec![firefox(), chromium()]);
}

#[test]
fn registry_resolves_by_executable() {
    let registry = vec![firefox(), chromium()];
    assert_eq!(Browser::web_browser(&registry, "chromium"), Some(chromium()));
    assert_eq!(Browser::web_browser(&registry, "firefox"), Some(firefox()));
    assert_eq!(Browser::web_browser(&registry, "opera"), None);
    assert_eq!(Browser::web_browser(&Vec::new(), "firefox"), None);
}

#[test]
fn registry_gives_the_first_of_two_with_one_executable() {
    let other = browser("Firefox ESR", BrowserFamily::Gecko, "firefox", false);
    let registry = vec![firefox(), other];
    assert_eq!(Browser::web_browser(&registry, "firefox"), Some(firefox()));
}

#[test]
fn browsers_compare_by_all_their_values() {
    assert!(firefox().same(&firefox()));
    assert!(!firefox().same(&chromium()));
    assert!(!firefox().same(&browser("Firefox", BrowserFamily::Gecko, "firefox", false)));
}

use wam_rust::browser::{Browser, BrowserFamily};
use wam_rust::error::Error;
use wam_rust::launcher::{render_entry, Category, LauncherForm, WebAppLauncher};
use wam_rust::storage::{IconStore, Storage};
use wam_rust::store::{decimal, plain_letters, EntryStore, StoredEntry};

fn firefox() -> Browser {
    Browser {
        name: "Firefox".to_string(),
        family: BrowserFamily::Gecko,
        executable: "firefox".to_string(),
        supports_isolated_profile: true,
    }
}

fn registry() -> Vec<Browser> {
    vec![firefox()]
}

fn launcher(name: &str, codename: &str, url: &str) -> WebAppLauncher {
    WebAppLauncher::new(
        name.to_string(),
        codename.to_string(),
        url,
        String::new(),
        Category::Web,
        firefox(),
        String::new(),
        true,
        false,
        false,
        &registry(),
    )
}

fn of_codename(items: &[Result<WebAppLauncher, Error>], codename: &str) -> Vec<WebAppLauncher> {
    items
        .iter()
        .filter_map(|item| item.as_ref().ok())
        .filter(|l| l.codename == codename)
        .cloned()
        .collect()
}

fn foreign() -> StoredEntry {
    StoredEntry {
        file_name: "editor.desktop".to_string(),
        content: "[Desktop Entry]\nName=Editor\nExec=editor %f\n".to_string(),
    }
}

fn storage() -> Storage {
    Storage {
        entries: EntryStore::new(),
        icons: IconStore::new("/data/icons".to_string()),
        profile_root: "/data/profiles".to_string(),
    }
}

fn form(name: &str, url: &str) -> LauncherForm {
    LauncherForm {
        name: name.to_string(),
        url: url.to_string(),
        icon_path: String::new(),
        category: "Web".to_string(),
        browser: firefox(),
        custom_parameters: String::new(),
        is_isolated: true,
        show_navbar: false,
        is_incognito: false,
    }
}

#[test]
fn a_created_launcher_is_listed_exactly_once() {
    let mut store = EntryStore::new();
    store.entries.push(foreign());
    let news = launcher("News", "News1000", "https://news.example.com");
    assert_eq!(store.create(&news, "/profiles"), Ok(()));
    let items = store.list(&registry());
    let found = of_codename(&items, "News1000");
    assert_eq!(found.len(), 1);
    assert_eq!(found[0].codename, "News1000");
    assert_eq!(found[0].name, "News");
    assert_eq!(found[0].url, "https://news.example.com");
    assert_eq!(found[0], news);
}

#[test]
fn creating_twice_under_one_codename_keeps_one_entry() {
    let mut store = EntryStore::new();
    let news = launcher("News", "News1000", "https://news.example.com");
    store.create(&news, "/profiles").unwrap();
    store.create(&news, "/profiles").unwrap();
    assert_eq!(store.entries.len(), 1);
    assert_eq!(store.list(&registry()), vec![Ok(news)]);
}

#[test]
fn creating_writes_the_entry_under_the_name_of_the_codename() {
    let mut store = EntryStore::new();
    let news = launcher("News", "News1000", "https://news.example.com");
    store.create(&news, "/profiles").unwrap();
    assert_eq!(store.entries[0].file_name, "News1000.desktop");
    assert_eq!(store.entries[0].content, render_entry(&news, "/profiles"));
}

#[test]
fn an_invalid_launcher_is_refused_and_nothing_is_written() {
    let mut store = EntryStore::new();
    store.entries.push(foreign());
    let nameless = launcher("", "x1", "https://example.com");
    assert_eq!(store.create(&nameless, "/profiles"), Err(Error::Validation));
    let addressless = launcher("Name", "x2", "https://");
    assert_eq!(store.create(&addressless, "/profiles"), Err(Error::Validation));
    assert_eq!(store.entries, vec![foreign()]);
}

#[test]
fn a_deleted_launcher_is_not_listed() {
    let mut store = EntryStore::new();
    let news = launcher("News", "News1000", "https://news.example.com");
    let mail = launcher("Mail", "Mail1000", "https://mail.example.com");
    store.create(&news, "/profiles").unwrap();
    store.create(&mail, "/profiles").unwrap();
    assert_eq!(store.delete(&news), Ok(()));
    let items = store.list(&registry());
    assert!(of_codename(&items, "News1000").is_empty());
    assert_eq!(items, vec![Ok(mail)]);
}

#[test]
fn deleting_twice_is_no_error() {
    let mut store = EntryStore::new();
    let news = launcher("News", "News1000", "https://news.example.com");
    store.create(&news, "/profiles").unwrap();
    assert_eq!(store.delete(&news), Ok(()));
    let after_first = store.entries.len();
    assert_eq!(store.delete(&news), Ok(()));
    assert_eq!(store.entries.len(), after_first);
    assert_eq!(EntryStore::new().delete(&news), Ok(()));
}

#[test]
fn one_malformed_and_one_well_formed_entry_give_two_items() {
    let mut store = EntryStore::new();
    let news = launcher("News", "News1000", "https://news.example.com");
    store.entries.push(StoredEntry {
        file_name: "Broken1.desktop".to_string(),
        content: "[Desktop Entry]\nName=Broken\nX-WebApp-Manager=wam\n".to_string(),
    });
    store.create(&news, "/profiles").unwrap();
    let items = store.list(&registry());
    assert_eq!(items.len(), 2);
    assert_eq!(items[0], Err(Error::Parse));
    assert_eq!(items[1], Ok(news));
}

#[test]
fn entries_of_others_are_not_listed() {
    let mut store = EntryStore::new();
    store.entries.push(foreign());
    assert!(store.list(&registry()).is_empty());
    assert!(EntryStore::new().list(&registry()).is_empty());
}

#[test]
fn the_listing_keeps_the_order_of_the_files() {
    let mut store = EntryStore::new();
    let a = launcher("A", "A1", "https://a.example.com");
    let b = launcher("B", "B1", "https://b.example.com");
    let c = launcher("C", "C1", "https://c.example.com");
    store.create(&b, "/p").unwrap();
    store.entries.push(foreign());
    store.create(&a, "/p").unwrap();
    store.create(&c, "/p").unwrap();
    assert_eq!(store.list(&registry()), vec![Ok(b), Ok(a), Ok(c)]);
}

#[test]
fn an_edited_launcher_shows_only_the_new_name() {
    let mut store = EntryStore::new();
    let old = launcher("News", "News1000", "https://news.example.com");
    store.create(&old, "/profiles").unwrap();
    let new = launcher("Daily News", "News1000", "https://news.example.com");
    store.delete(&old).unwrap();
    store.create(&new, "/profiles").unwrap();
    let items = store.list(&registry());
    let found = of_codename(&items, "News1000");
    assert_eq!(found.len(), 1);
    assert_eq!(found[0].name, "Daily News");
    assert_eq!(items.len(), 1);
}

#[test]
fn writing_replaces_in_place_and_appends_otherwise() {
    let mut store = EntryStore::new();
    store.write("a".to_string(), "1".to_string());
    store.write("b".to_string(), "2".to_string());
    store.write("a".to_string(), "3".to_string());
    let names: Vec<(&str, &str)> =
        store.entries.iter().map(|e| (e.file_name.as_str(), e.content.as_str())).collect();
    assert_eq!(names, vec![("a", "3"), ("b", "2")]);
    assert_eq!(store.find("b"), Some(1));
    assert_eq!(store.find("c"), None);
    assert!(store.remove("a"));
    assert!(!store.remove("a"));
    assert_eq!(store.find("b"), Some(0));
}

#[test]
fn a_fresh_codename_is_the_first_free_candidate() {
    let mut store = EntryStore::new();
    assert_eq!(store.fresh_codename("My App!", 1000), "MyApp1000");
    store.write("MyApp1000.desktop".to_string(), String::new());
    store.write("MyApp1001.desktop".to_string(), String::new());
    store.write("MyApp1003.desktop".to_string(), String::new());
    assert_eq!(store.fresh_codename("My App!", 1000), "MyApp1002");
    assert_eq!(store.fresh_codename("My App!", 1003), "MyApp1004");
    assert_eq!(store.fresh_codename("Other", 1000), "Other1000");
}

#[test]
fn a_fresh_codename_never_names_an_entry_of_the_store() {
    let mut store = EntryStore::new();
    for seed in [0u64, 7, 7, 7, 8, 0, 1, u64::MAX, u64::MAX] {
        let codename = store.fresh_codename("Site", seed);
        assert_eq!(store.find(&format!("{}.desktop", codename)), None);
        store.write(format!("{}.desktop", codename), String::new());
    }
    assert_eq!(store.entries.len(), 9);
}

#[test]
fn a_name_without_letters_still_gets_a_codename() {
    let store = EntryStore::new();
    assert_eq!(store.fresh_codename("日本語 ***", 42), "42");
    assert_eq!(store.fresh_codename("", 0), "0");
}

#[test]
fn numbers_are_written_in_decimal() {
    assert_eq!(decimal(0), "0");
    assert_eq!(decimal(9), "9");
    assert_eq!(decimal(10), "10");
    assert_eq!(decimal(1234567890), "1234567890");
    assert_eq!(decimal(u128::MAX), u128::MAX.to_string());
    assert_eq!(plain_letters("Web App 2.0 — ü"), "WebApp20");
}

#[test]
fn saving_a_new_form_creates_a_launcher_under_a_fresh_codename() {
    let mut storage = storage();
    let saved = storage.save(None, &form("News", "news.example.com"), 1000, &registry()).unwrap();
    assert_eq!(saved.codename, "News1000");
    assert_eq!(saved.url, "https://news.example.com");
    assert!(saved.is_valid);
    let second = storage.save(None, &form("News", "other.example.com"), 1000, &registry()).unwrap();
    assert_eq!(second.codename, "News1001");
    assert_eq!(storage.list(&registry()), vec![Ok(saved), Ok(second)]);
}

#[test]
fn saving_over_a_launcher_keeps_its_codename() {
    let mut storage = storage();
    let first = storage.save(None, &form("News", "news.example.com"), 5, &registry()).unwrap();
    let other = storage.save(None, &form("Mail", "mail.example.com"), 5, &registry()).unwrap();
    let edited =
        storage.save(Some(&first), &form("Daily News", "news.example.com"), 99, &registry()).unwrap();
    assert_eq!(edited.codename, first.codename);
    assert_eq!(edited.name, "Daily News");
    let items = storage.list(&registry());
    assert_eq!(items, vec![Ok(other), Ok(edited)]);
}

#[test]
fn saving_an_invalid_form_changes_nothing() {
    let mut storage = storage();
    let first = storage.save(None, &form("News", "news.example.com"), 5, &registry()).unwrap();
    let before = storage.entries.entries.len();
    assert_eq!(storage.save(Some(&first), &form("", "news.example.com"), 5, &registry()), Err(Error::Validation));
    assert_eq!(storage.save(None, &form("Name", ""), 5, &registry()), Err(Error::Validation));
    let mut uncategorized = form("Name", "example.com");
    uncategorized.category = "Nothing".to_string();
    assert_eq!(storage.save(None, &uncategorized, 5, &registry()), Err(Error::Validation));
    assert_eq!(storage.save(None, &form("Name", "example.com"), 5, &Vec::new()), Err(Error::Validation));
    assert_eq!(storage.entries.entries.len(), before);
    assert_eq!(storage.list(&registry()), vec![Ok(first)]);
}

#[test]
fn saving_refuses_an_icon_outside_the_icon_store() {
    let mut storage = storage();
    let mut outside = form("News", "news.example.com");
    outside.icon_path = "/usr/share/icons/news.png".to_string();
    assert_eq!(storage.save(None, &outside, 5, &registry()), Err(Error::Validation));
    let mut directory = form("News", "news.example.com");
    directory.icon_path = "/data/icons/".to_string();
    assert_eq!(storage.save(None, &directory, 5, &registry()), Err(Error::Validation));
    let mut inside = form("News", "news.example.com");
    inside.icon_path = storage.move_icon("https://news.example.com/icon.png", vec![1, 2, 3], "News");
    assert_eq!(inside.icon_path, "/data/icons/News.png");
    assert!(storage.save(None, &inside, 5, &registry()).is_ok());
}

#[test]
fn deleting_from_the_storage_removes_entry_and_icon() {
    let mut storage = storage();
    let mut news = form("News", "news.example.com");
    news.icon_path = storage.move_icon("/tmp/picked.svg", vec![60, 115, 118, 103], "News");
    let kept = storage.move_icon("/tmp/other.png", vec![1], "Mail");
    let saved = storage.save(None, &news, 1, &registry()).unwrap();
    assert_eq!(storage.icons.icons.len(), 2);
    assert_eq!(storage.delete(&saved), Ok(()));
    assert!(storage.list(&registry()).is_empty());
    assert_eq!(storage.icons.icons.len(), 1);
    assert_eq!(storage.icons.path_of(&storage.icons.icons[0].file_name), kept);
    assert_eq!(storage.delete(&saved), Ok(()));
    assert_eq!(storage.icons.icons.len(), 1);
}

#[test]
fn deleting_leaves_an_icon_outside_the_store_alone() {
    let mut storage = storage();
    storage.move_icon("/tmp/a.png", vec![1], "Mail");
    let mut stray = launcher("News", "News1", "https://news.example.com");
    stray.icon_path = "/home/user/pictures/Mail.png".to_string();
    storage.create(&stray).unwrap();
    assert_eq!(storage.delete(&stray), Ok(()));
    assert_eq!(storage.icons.icons.len(), 1);
}

#[test]
fn the_storage_creates_with_its_own_profile_root() {
    let mut storage = storage();
    let news = launcher("News", "News1", "https://news.example.com");
    assert_eq!(storage.create(&news), Ok(()));
    assert!(storage.entries.entries[0].content.contains("--profile /data/profiles/News1 "));
    let invalid = launcher("", "x", "https://news.example.com");
    assert_eq!(storage.create(&invalid), Err(Error::Validation));
}

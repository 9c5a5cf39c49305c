use wam_rust::error::Error;
use wam_rust::gui::{Icon, IconType};
use wam_rust::icons::{
    decode_icon, fetch_and_decode, find_icons, is_vector_source, looks_like_raster,
    looks_like_vector, merge_candidates, order_by_size, MAX_CANDIDATES,
};
use wam_rust::page::{declared_icons, leading_number, DeclaredIcon};
use wam_rust::storage::{icon_extension, icon_file_name, icon_stem, owner_of, IconStore};

const PAGE: &str = "<html><head>\n\
<title>Example</title>\n\
<link rel=\"stylesheet\" href=\"style.css\">\n\
<link rel=\"icon\" href=\"/favicon-16.png\" sizes=\"16x16\">\n\
<LINK REL=\"apple-touch-icon\" HREF=\"/Touch.png\" sizes=\"180x180\">\n\
<link rel=\"shortcut icon\" href='small.ico'>\n\
<link rel=icon href=/plain.png sizes=32x32>\n\
<linked rel=\"icon\" href=\"/not-a-link.png\">\n\
<link href=\"/no-relation.png\">\n\
<link rel=\"icon\">\n\
</head><body><a href=\"/x\" rel=\"icon\">x</a></body></html>";

const PNG: [u8; 12] = [0x89, 0x50, 0x4e, 0x47, 0x0d, 0x0a, 0x1a, 0x0a, 0, 0, 0, 13];

fn icon(href: &str, size: u32) -> DeclaredIcon {
    DeclaredIcon { href: href.to_string(), size }
}

fn texts(items: &[&str]) -> Vec<String> {
    items.iter().map(|s| s.to_string()).collect()
}

fn names(store: &IconStore) -> Vec<&str> {
    store.icons.iter().map(|i| i.file_name.as_str()).collect()
}

#[test]
fn a_page_declares_its_icons_in_the_order_of_its_tags() {
    assert_eq!(
        declared_icons(PAGE),
        vec![
            icon("/favicon-16.png", 16),
            icon("/Touch.png", 180),
            icon("small.ico", 0),
            icon("/plain.png", 32),
        ]
    );
}

#[test]
fn a_page_without_icon_links_declares_none() {
    assert!(declared_icons("").is_empty());
    assert!(declared_icons("<html><link rel=\"stylesheet\" href=\"a.css\"></html>").is_empty());
    assert!(declared_icons("<link").is_empty());
    assert!(declared_icons("<link rel=\"icon\" href=\"\">").is_empty());
}

#[test]
fn an_unfinished_tag_is_read_to_the_end_of_the_page() {
    assert_eq!(declared_icons("<link rel=icon href=/a.png"), vec![icon("/a.png", 0)]);
    assert_eq!(declared_icons("<link rel='icon' href=\"/a.png"), vec![icon("/a.png", 0)]);
}

#[test]
fn an_attribute_needs_a_blank_before_its_name() {
    assert!(declared_icons("<link rel=\"icon\" data-href=\"/a.png\">").is_empty());
    assert_eq!(
        declared_icons("<link rel=\"icon\" data-href=\"/a.png\"\thref=\"/b.png\">"),
        vec![icon("/b.png", 0)]
    );
}

#[test]
fn declared_sizes_are_held_to_the_limit() {
    let chars = |s: &str| s.chars().collect::<Vec<char>>();
    assert_eq!(leading_number(&chars("48x48")), 48);
    assert_eq!(leading_number(&chars("any")), 0);
    assert_eq!(leading_number(&chars("")), 0);
    assert_eq!(leading_number(&chars("007")), 7);
    assert_eq!(leading_number(&chars("1000000")), 1000000);
    assert_eq!(leading_number(&chars("1000001")), 1000000);
    assert_eq!(leading_number(&chars("99999999999999999999999999")), 1000000);
}

#[test]
fn icons_are_ordered_by_descending_size_and_ties_keep_their_order() {
    let sorted = order_by_size(&vec![
        icon("a", 16),
        icon("b", 180),
        icon("c", 0),
        icon("d", 32),
        icon("e", 180),
        icon("f", 16),
    ]);
    assert_eq!(
        sorted,
        vec![icon("b", 180), icon("e", 180), icon("d", 32), icon("a", 16), icon("f", 16), icon("c", 0)]
    );
    assert!(order_by_size(&Vec::new()).is_empty());
}

#[test]
fn the_candidates_of_a_page_are_resolved_and_ordered() {
    let found = find_icons(Some("https://example.com/app/index.html"), Some(PAGE), &Vec::new());
    assert_eq!(
        found,
        texts(&[
            "https://example.com/Touch.png",
            "https://example.com/plain.png",
            "https://example.com/favicon-16.png",
            "https://example.com/app/small.ico",
        ])
    );
}

#[test]
fn named_icons_follow_the_declared_ones() {
    let named = texts(&["/usr/share/icons/example.svg", "https://example.com/plain.png"]);
    let found = find_icons(Some("https://example.com/"), Some(PAGE), &named);
    assert_eq!(
        found,
        texts(&[
            "https://example.com/Touch.png",
            "https://example.com/plain.png",
            "https://example.com/favicon-16.png",
            "https://example.com/small.ico",
            "/usr/share/icons/example.svg",
        ])
    );
}

#[test]
fn an_unreachable_network_gives_no_candidates() {
    assert!(find_icons(Some("https://example.com"), None, &Vec::new()).is_empty());
    assert!(find_icons(None, None, &Vec::new()).is_empty());
}

#[test]
fn an_unreachable_page_leaves_the_named_icons() {
    let named = texts(&["/usr/share/icons/a.png", "/usr/share/icons/a.png", "/usr/share/icons/b.png"]);
    assert_eq!(
        find_icons(Some("https://example.com"), None, &named),
        texts(&["/usr/share/icons/a.png", "/usr/share/icons/b.png"])
    );
}

#[test]
fn a_page_without_an_address_declares_nothing_usable() {
    assert!(find_icons(None, Some(PAGE), &Vec::new()).is_empty());
    assert!(find_icons(Some("not an address"), Some(PAGE), &Vec::new()).is_empty());
}

#[test]
fn candidates_are_capped_and_never_repeated() {
    let many: Vec<String> = (0..100).map(|i| format!("/icons/{}.png", i % 40)).collect();
    let found = merge_candidates(&Vec::new(), &many);
    assert_eq!(found.len(), MAX_CANDIDATES);
    assert_eq!(found, many[..MAX_CANDIDATES].to_vec());
    let declared = texts(&["x", "y", "x"]);
    assert_eq!(merge_candidates(&declared, &texts(&["y", "z"])), texts(&["x", "y", "z"]));
}

#[test]
fn the_kind_of_a_source_goes_by_name_or_declared_type() {
    assert!(is_vector_source("/icons/a.svg", ""));
    assert!(is_vector_source("https://example.com/A.SVG", ""));
    assert!(is_vector_source("https://example.com/icon", "image/svg+xml"));
    assert!(is_vector_source("https://example.com/icon", "Image/SVG+xml; charset=utf-8"));
    assert!(!is_vector_source("/icons/a.png", "image/png"));
    assert!(!is_vector_source("/icons/svg", ""));
    assert!(!is_vector_source("", ""));
}

#[test]
fn raster_images_are_known_by_their_first_bytes() {
    assert!(looks_like_raster(&PNG.to_vec()));
    assert!(looks_like_raster(&vec![0xff, 0xd8, 0xff, 0xe0]));
    assert!(looks_like_raster(&b"GIF89a".to_vec()));
    assert!(looks_like_raster(&b"BM\x00\x00".to_vec()));
    assert!(looks_like_raster(&vec![0, 0, 1, 0, 1, 0]));
    assert!(looks_like_raster(&b"RIFF\x10\x00\x00\x00WEBPVP8 ".to_vec()));
    assert!(!looks_like_raster(&b"RIFF\x10\x00\x00\x00WAVEfmt ".to_vec()));
    assert!(!looks_like_raster(&b"<svg></svg>".to_vec()));
    assert!(!looks_like_raster(&Vec::new()));
    assert!(!looks_like_raster(&vec![0x89, 0x50]));
}

#[test]
fn vector_images_are_known_by_their_root() {
    assert!(looks_like_vector(&b"<svg xmlns=\"http://www.w3.org/2000/svg\"/>".to_vec()));
    assert!(looks_like_vector(&b"<?xml version=\"1.0\"?>\n<!-- c -->\n<svg>".to_vec()));
    assert!(looks_like_vector(&b"<svg".to_vec()));
    assert!(!looks_like_vector(&b"<html></html>".to_vec()));
    assert!(!looks_like_vector(&b"<sv".to_vec()));
    assert!(!looks_like_vector(&Vec::new()));
}

#[test]
fn decoding_goes_by_the_kind_of_the_source() {
    let raster = decode_icon("/i/a.png".to_string(), "", PNG.to_vec());
    assert_eq!(raster, Ok(Icon::new(IconType::Raster(PNG.to_vec()), "/i/a.png".to_string())));
    let vector = decode_icon("/i/a.svg".to_string(), "", b"<svg/>".to_vec());
    assert_eq!(vector, Ok(Icon::new(IconType::Svg(b"<svg/>".to_vec()), "/i/a.svg".to_string())));
}

#[test]
fn bytes_of_the_wrong_kind_fail_to_decode() {
    assert_eq!(decode_icon("/i/a.svg".to_string(), "", PNG.to_vec()), Err(Error::Decode));
    assert_eq!(decode_icon("/i/a.png".to_string(), "", b"<svg/>".to_vec()), Err(Error::Decode));
    assert_eq!(decode_icon("/i/a.png".to_string(), "", Vec::new()), Err(Error::Decode));
    assert_eq!(decode_icon("/i/a.png".to_string(), "", b"<html>404</html>".to_vec()), Err(Error::Decode));
}

#[test]
fn a_candidate_that_cannot_be_fetched_fails_by_its_kind() {
    assert_eq!(fetch_and_decode("https://example.com/a.png".to_string(), "", None), Err(Error::Network));
    assert_eq!(fetch_and_decode("http://example.com/a.png".to_string(), "", None), Err(Error::Network));
    assert_eq!(fetch_and_decode("/usr/share/icons/a.png".to_string(), "", None), Err(Error::Io));
    let fetched = fetch_and_decode("https://example.com/a".to_string(), "image/png", Some(PNG.to_vec()));
    assert!(matches!(fetched, Ok(Icon { icon: IconType::Raster(_), .. })));
}

#[test]
fn one_failing_candidate_does_not_stop_the_others() {
    let candidates = vec![
        ("https://example.com/a.png", Some(PNG.to_vec())),
        ("https://example.com/b.png", None),
        ("https://example.com/c.png", Some(b"oops".to_vec())),
        ("/icons/d.svg", Some(b"<svg/>".to_vec())),
    ];
    let outcomes: Vec<Result<Icon, Error>> = candidates
        .into_iter()
        .map(|(path, bytes)| fetch_and_decode(path.to_string(), "", bytes))
        .collect();
    assert!(outcomes[0].is_ok());
    assert_eq!(outcomes[1], Err(Error::Network));
    assert_eq!(outcomes[2], Err(Error::Decode));
    assert!(outcomes[3].is_ok());
}

#[test]
fn the_name_of_an_icon_comes_from_owner_and_source() {
    assert_eq!(icon_file_name("My App", "https://example.com/static/icon.PNG?v=3"), "MyApp.png");
    assert_eq!(icon_file_name("News", "/usr/share/icons/news.svg"), "News.svg");
    assert_eq!(icon_file_name("a/b\\c.d e", "x.ico#frag"), "abcde.ico");
    assert_eq!(icon_file_name("", "x.webp"), "webapp.webp");
    assert_eq!(icon_file_name(" . / ", "x.gif"), "webapp.gif");
    assert_eq!(icon_stem("Größe 日本"), "Größe日本");
}

#[test]
fn a_source_without_a_usable_extension_gets_the_spare_one() {
    assert_eq!(icon_extension("https://example.com/icon"), "png");
    assert_eq!(icon_extension("https://example.com/icon."), "png");
    assert_eq!(icon_extension("https://example.com/v1.2/icon"), "png");
    assert_eq!(icon_extension("icon.toolongext9"), "png");
    assert_eq!(icon_extension("icon.abcdefgh"), "abcdefgh");
    assert_eq!(icon_extension("icon.p-g"), "png");
    assert_eq!(icon_extension(""), "png");
    assert_eq!(icon_extension("a.png?b=c.svg"), "png");
    assert_eq!(icon_extension("a.svg#b.png"), "svg");
    assert_eq!(icon_extension("a.JPeG"), "jpeg");
}

#[test]
fn the_owner_of_a_file_is_what_stands_before_its_first_dot() {
    assert_eq!(owner_of("MyApp.png"), "MyApp");
    assert_eq!(owner_of("MyApp.tar.gz"), "MyApp");
    assert_eq!(owner_of("nodot"), "nodot");
    assert_eq!(owner_of(".hidden"), "");
    assert_eq!(owner_of(&icon_file_name("A. B", "s.svg")), icon_stem("A. B"));
}

#[test]
fn moving_twice_for_one_owner_leaves_one_file() {
    let mut store = IconStore::new("/data/icons".to_string());
    let first = store.move_icon("https://example.com/a.png", vec![1], "My App");
    assert_eq!(first, "/data/icons/MyApp.png");
    let second = store.move_icon("/usr/share/icons/b.svg", vec![2, 3], "My App");
    assert_eq!(second, "/data/icons/MyApp.svg");
    assert_eq!(names(&store), vec!["MyApp.svg"]);
    assert_eq!(store.icons[0].bytes, vec![2, 3]);
    assert_eq!(store.owned_by("My App"), texts(&["MyApp.svg"]));
    assert_eq!(store.owned_by("MyApp"), texts(&["MyApp.svg"]));
}

#[test]
fn moving_for_one_owner_leaves_the_files_of_the_others() {
    let mut store = IconStore::new("/data/icons".to_string());
    store.move_icon("a.png", vec![9], "Mail");
    store.move_icon("b.png", vec![9], "News");
    store.move_icon("c.png", vec![9], "MailBox");
    store.move_icon("d.svg", vec![9], "Mail");
    assert_eq!(names(&store), vec!["News.png", "MailBox.png", "Mail.svg"]);
    store.move_icon("e.png", vec![9], "Mail");
    assert_eq!(names(&store), vec!["News.png", "MailBox.png", "Mail.png"]);
    assert!(store.owned_by("Chat").is_empty());
}

#[test]
fn removing_an_icon_goes_by_its_path() {
    let mut store = IconStore::new("/data/icons".to_string());
    let path = store.move_icon("a.png", vec![1], "Mail");
    assert!(store.holds_path(&path));
    assert!(store.holds_path(""));
    assert!(!store.holds_path("/data/icons"));
    assert!(!store.holds_path("/data/iconsMail.png"));
    assert!(!store.remove_icon("/elsewhere/Mail.png"));
    assert!(!store.remove_icon("Mail.png"));
    assert_eq!(store.icons.len(), 1);
    assert!(store.remove_icon(&path));
    assert!(!store.remove_icon(&path));
    assert!(store.icons.is_empty());
}

#[test]
fn named_icons_are_looked_for_in_every_data_directory() {
    let dirs = texts(&["/home/u/.local/share", "/usr/share"]);
    assert_eq!(
        wam_rust::icons::named_icon_paths(&dirs, "mail"),
        texts(&[
            "/home/u/.local/share/icons/hicolor/scalable/apps/mail.svg",
            "/home/u/.local/share/icons/hicolor/256x256/apps/mail.png",
            "/home/u/.local/share/icons/hicolor/128x128/apps/mail.png",
            "/home/u/.local/share/icons/hicolor/48x48/apps/mail.png",
            "/home/u/.local/share/pixmaps/mail.png",
            "/home/u/.local/share/pixmaps/mail.svg",
            "/usr/share/icons/hicolor/scalable/apps/mail.svg",
            "/usr/share/icons/hicolor/256x256/apps/mail.png",
            "/usr/share/icons/hicolor/128x128/apps/mail.png",
            "/usr/share/icons/hicolor/48x48/apps/mail.png",
            "/usr/share/pixmaps/mail.png",
            "/usr/share/pixmaps/mail.svg",
        ])
    );
    assert!(wam_rust::icons::named_icon_paths(&Vec::new(), "mail").is_empty());
}

#[test]
fn a_token_that_is_no_file_name_names_no_icon() {
    let dirs = texts(&["/usr/share"]);
    for token in ["", ".", "..", "../etc/passwd", "a/b", "a\0b"] {
        assert!(wam_rust::icons::named_icon_paths(&dirs, token).is_empty(), "{:?}", token);
        assert!(!wam_rust::icons::is_safe_file_name(token));
    }
    for token in ["mail", "...", ".a", "a b", "ü"] {
        assert!(wam_rust::icons::is_safe_file_name(token));
    }
}

#[test]
fn the_file_at_a_path_is_found_by_its_whole_path() {
    let mut store = IconStore::new("/data/icons".to_string());
    store.move_icon("a.png", vec![1], "Mail");
    store.move_icon("b.svg", vec![1], "News");
    assert_eq!(store.file_at("/data/icons/News.svg"), Some("News.svg".to_string()));
    assert_eq!(store.file_at("/data/icons/Mail.png"), Some("Mail.png".to_string()));
    assert_eq!(store.file_at("/data/icons/Mail.svg"), None);
    assert_eq!(store.file_at("News.svg"), None);
    assert_eq!(store.file_at(""), None);
}

#[test]
fn the_files_of_an_owner_are_named_in_order() {
    let store = IconStore {
        directory: "/d".to_string(),
        icons: vec![
            wam_rust::storage::StoredIcon { file_name: "Mail.png".to_string(), bytes: vec![] },
            wam_rust::storage::StoredIcon { file_name: "News.png".to_string(), bytes: vec![] },
            wam_rust::storage::StoredIcon { file_name: "Mail.svg".to_string(), bytes: vec![] },
            wam_rust::storage::StoredIcon { file_name: "Mail".to_string(), bytes: vec![] },
            wam_rust::storage::StoredIcon { file_name: "Mailbox.png".to_string(), bytes: vec![] },
        ],
    };
    assert_eq!(store.owned_by("Mail"), texts(&["Mail.png", "Mail.svg", "Mail"]));
    assert_eq!(store.owned_by("M a i l"), texts(&["Mail.png", "Mail.svg", "Mail"]));
    assert_eq!(store.owned_by("News"), texts(&["News.png"]));
}

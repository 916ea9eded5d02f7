use cosmic_session::desktop::{desktop_file_for, first_named, Answer, DesktopSearch, Question};
use cosmic_session::filepath::{join_path, path_from, same_bytes, write_runs, FilePath};
use cosmic_session::launch::{
    active_profiles, application_dirs, browser_for, local_state_path, members_of, profiles_from,
    profiles_in, JsonField, JsonSection, JsonValue, Launch, Members,
};

fn path(s: &str) -> FilePath {
    FilePath::new(s.as_bytes().to_vec())
}

fn spelled(p: &FilePath) -> String {
    String::from_utf8(p.as_bytes().clone()).unwrap()
}

#[test]
fn browsers_that_are_known() {
    assert_eq!(browser_for("google-chrome"), Some(("google-chrome", ".config/google-chrome")));
    assert_eq!(browser_for("chromium"), Some(("chromium", ".config/chromium")));
    assert_eq!(
        browser_for("brave-browser"),
        Some(("brave-browser", ".config/BraveSoftware/Brave-Browser"))
    );
    assert_eq!(browser_for("firefox"), None);
    assert_eq!(browser_for("Chromium"), None);
    assert_eq!(browser_for(""), None);
}

#[test]
fn paths_are_joined() {
    assert_eq!(spelled(&join_path(&path("/a"), &b"b".to_vec())), "/a/b");
    assert_eq!(spelled(&join_path(&path("/a/"), &b"b".to_vec())), "/a/b");
    assert_eq!(spelled(&join_path(&path("/a"), &b"/b".to_vec())), "/b");
    assert_eq!(spelled(&join_path(&path(""), &b"b".to_vec())), "b");
    assert_eq!(spelled(&join_path(&path("/a"), &b"".to_vec())), "/a/");
    assert_eq!(spelled(&path_from("/é")), "/é");
    for (dir, name) in [("/a", "b"), ("/a/", "b"), ("/a", "/b"), ("", "b"), ("/a", "")] {
        let std_path = std::path::Path::new(dir).join(name);
        let ours = join_path(&path(dir), &name.as_bytes().to_vec());
        assert_eq!(std_path.to_str(), Some(spelled(&ours).as_str()));
    }
}

#[test]
fn where_browsers_keep_their_state() {
    let p = local_state_path("/home/u", ".config/chromium");
    assert_eq!(spelled(&p), "/home/u/.config/chromium/Local State");
    assert_eq!(spelled(&local_state_path("", ".config/x")), ".config/x/Local State");
}

#[test]
fn directories_of_applications() {
    let dirs: Vec<String> = application_dirs("/home/u").iter().map(spelled).collect();
    assert_eq!(
        dirs,
        vec![
            "/home/u/.local/share/applications",
            "/usr/share/applications",
            "/usr/local/share/applications",
            "/home/u/.local/share/flatpak/exports/share/applications",
            "/var/lib/flatpak/exports/share/applications",
        ]
    );
}

#[test]
fn profiles_that_were_active() {
    let listed = r#"{"profile": {"last_active_profiles": ["Default", 3, "Profile 1"], "last_used": "X"}}"#;
    assert_eq!(active_profiles(Some(listed)), vec!["Default", "Profile 1"]);
    let empty = r#"{"profile": {"last_active_profiles": [], "last_used": "Profile 2"}}"#;
    assert_eq!(active_profiles(Some(empty)), vec!["Profile 2"]);
    let no_texts = r#"{"profile": {"last_active_profiles": [1, null]}}"#;
    assert_eq!(active_profiles(Some(no_texts)), vec!["Default"]);
    let no_list = r#"{"profile": {"last_active_profiles": "a", "last_used": "b"}}"#;
    assert_eq!(active_profiles(Some(no_list)), vec!["b"]);
    assert_eq!(active_profiles(Some("{}")), vec!["Default"]);
    assert_eq!(active_profiles(Some("[1, 2]")), vec!["Default"]);
    assert!(active_profiles(Some("{")).is_empty());
    assert!(active_profiles(Some("")).is_empty());
    assert!(active_profiles(None).is_empty());
}

#[test]
fn sections_of_a_document() {
    let field = |key: &str, value| JsonField { key: key.to_string(), value };
    let names = vec![Some("a".to_string()), None];
    let document = Some(vec![
        JsonSection { key: "other".to_string(), fields: None },
        JsonSection {
            key: "profile".to_string(),
            fields: Some(vec![
                field("x", JsonValue::Other),
                field("last_used", JsonValue::Text("b".to_string())),
                field("last_active_profiles", JsonValue::List(names.clone())),
            ]),
        },
    ]);
    assert_eq!(profiles_in(&document), vec!["a"]);
    let read = members_of(&document, "profile", "last_active_profiles", "last_used");
    assert_eq!((read.list, read.text), (Some(names), Some("b".to_string())));
    let swapped = members_of(&document, "profile", "last_used", "last_active_profiles");
    assert_eq!((swapped.list, swapped.text), (None, None));
    let missing = members_of(&document, "other", "last_active_profiles", "last_used");
    assert_eq!((missing.list, missing.text), (None, None));
    assert_eq!(profiles_in(&None), vec!["Default"]);
    assert_eq!(active_profiles(Some("\"profile\"")), vec!["Default"]);
    assert_eq!(active_profiles(Some(r#"{"profile": ["last_used"]}"#)), vec!["Default"]);
    assert_eq!(active_profiles(Some(r#"{"profile": {"last_used": 1}, "a": {}}"#)), vec!["Default"]);
    assert!(same_bytes(b"ab", b"ab") && !same_bytes(b"ab", b"ac"));
}

#[test]
fn profiles_from_what_a_browser_says() {
    let listed = Members {
        list: Some(vec![None, Some("a".to_string()), Some("b".to_string())]),
        text: Some("c".to_string()),
    };
    assert_eq!(profiles_from(listed), vec!["a", "b"]);
    let last = Members { list: Some(vec![None]), text: Some("c".to_string()) };
    assert_eq!(profiles_from(last), vec!["c"]);
    assert_eq!(profiles_from(Members { list: None, text: None }), vec!["Default"]);
}

#[test]
fn launches_are_described() {
    assert_eq!(Launch::Desktop(path("/a/b.desktop")).describe(), "gio launch /a/b.desktop");
    let profile =
        Launch::BrowserProfile { binary: "chromium".to_string(), profile: "Profile 1".to_string() };
    assert_eq!(profile.describe(), "chromium --profile-directory=\"Profile 1\"");
    assert_eq!(Launch::RawCommand("xterm".to_string()).describe(), "xterm");
}

#[test]
fn paths_that_are_no_text_are_described() {
    let odd = Launch::Desktop(FilePath::new(vec![b'/', 0xff, b'a']));
    assert_eq!(odd.describe(), "gio launch /\u{fffd}a");
}

#[test]
fn launches_are_run() {
    let desktop = Launch::Desktop(FilePath::new(vec![b'/', 0xff])).command_line();
    assert_eq!(desktop.program, "gio");
    assert_eq!(desktop.arguments, vec![b"launch".to_vec(), vec![b'/', 0xff]]);
    let profile =
        Launch::BrowserProfile { binary: "chromium".to_string(), profile: "Profile 1".to_string() }
            .command_line();
    assert_eq!(profile.program, "chromium");
    assert_eq!(profile.arguments, vec![b"--profile-directory=Profile 1".to_vec()]);
    let raw = Launch::RawCommand("xterm -e".to_string()).command_line();
    assert_eq!(raw.program, "xterm -e");
    assert!(raw.arguments.is_empty());
}

#[test]
fn what_runs_is_shown() {
    for launch in [
        Launch::Desktop(path("/a")),
        Launch::BrowserProfile { binary: "b".to_string(), profile: "p".to_string() },
        Launch::RawCommand("c d".to_string()),
    ] {
        assert!(launch.describe().starts_with(&launch.command_line().program));
    }
}

#[test]
fn launches_are_compared() {
    let a = Launch::Desktop(path("/a"));
    assert_eq!(a, a.clone());
    assert_ne!(a, Launch::Desktop(path("/b")));
    assert!(a < Launch::RawCommand("a".to_string()));
}

#[test]
fn paths_are_compared_by_their_components() {
    let spellings = [
        "", "/", "//", ".", "./", "..", "../", "./.", "a", "a/", "./a", "/a", "//a", "/a/.", "/a/",
        "/a//b", "/a/b", "/a/./b", "/a/../b", "/a-b", "/a.b", "/a/b/c", "/a/-", "/a/..", "/b", ".a",
        "..a", "...", "a/..b", "a/../b", "a/-b", "/usr/share/x", "/usr-local/x", "/usr/share-x",
    ];
    for one in spellings {
        for other in spellings {
            let (p, q) = (path(one), path(other));
            let (s, t) = (std::path::Path::new(one), std::path::Path::new(other));
            assert_eq!(p == q, s == t, "{:?} {:?}", one, other);
            assert_eq!(p.cmp(&q), s.cmp(t), "{:?} {:?}", one, other);
            assert_eq!(p.partial_cmp(&q), s.partial_cmp(t));
            assert_eq!(p < q, s < t);
            let (l, m) = (Launch::Desktop(p), Launch::Desktop(q));
            assert_eq!(l == m, s == t);
            assert_eq!(l.cmp(&m), s.cmp(t));
        }
    }
}

#[test]
fn paths_are_shown_as_std_shows_them() {
    for spelling in ["", "/a b", "/é\"x'\\", "/\u{200b}\u{301}\n", "/a//b"] {
        let std_path = std::path::PathBuf::from(spelling);
        assert_eq!(format!("{:?}", path(spelling)), format!("{:?}", std_path));
        assert_eq!(path(spelling).inspect(), format!("{:?}", std_path));
        assert_eq!(
            format!("{:?}", Launch::Desktop(path(spelling))),
            format!("Desktop({:?})", std_path)
        );
    }
    let odd = FilePath::new(vec![b'/', 0xff, b'a', 0xe2, 0x82, 0x09]);
    assert_eq!(format!("{:?}", odd), "\"/\\xFFa\\xE2\\x82\\t\"");
    let runs = vec![("a\"".to_string(), vec![0x0f, 0xa0]), ("b".to_string(), vec![])];
    assert_eq!(write_runs(&runs), "a\\\"\\x0F\\xA0b");
}

#[test]
fn spelling_is_kept() {
    let p = path("/a//b/");
    assert_eq!(p, path("/a/b"));
    assert_eq!(spelled(&p), "/a//b/");
    assert_eq!(spelled(&p.clone()), "/a//b/");
    assert_eq!(Launch::Desktop(p).describe(), "gio launch /a//b/");
}

/// A file system of a few files.
struct Disk {
    files: Vec<(&'static str, &'static str)>,
}

impl Disk {
    fn answer(&self, question: Question) -> Result<Answer, Option<FilePath>> {
        match question {
            Question::Exists(p) => {
                let wanted = spelled(&p);
                Ok(Answer::Exists(self.files.iter().any(|(f, _)| *f == wanted)))
            }
            Question::Names(dir) => {
                let start = format!("{}/", spelled(&dir));
                let names: Vec<Vec<u8>> = self
                    .files
                    .iter()
                    .filter_map(|(f, _)| f.strip_prefix(start.as_str()))
                    .map(|n| n.as_bytes().to_vec())
                    .collect();
                Ok(Answer::Names(if names.is_empty() { None } else { Some(names) }))
            }
            Question::Text(p) => {
                let wanted = spelled(&p);
                let text = self.files.iter().find(|(f, _)| *f == wanted);
                Ok(Answer::Text(text.map(|(_, t)| t.to_string())))
            }
            Question::Nothing(found) => Err(found),
        }
    }

    fn search(&self, app_id: &str) -> Option<String> {
        let mut search: DesktopSearch = desktop_file_for(app_id, "/h");
        loop {
            match self.answer(search.question()) {
                Ok(answer) => search.answer(answer),
                Err(found) => return found.map(|p| spelled(&p)),
            }
        }
    }
}

const OWN: &str = "/h/.local/share/applications/b.desktop";

#[test]
fn the_exact_name_comes_first() {
    let disk = Disk {
        files: vec![
            ("/h/.local/share/applications/A.desktop", "Name=a"),
            ("/usr/share/applications/a.desktop", ""),
        ],
    };
    assert_eq!(disk.search("a"), Some("/usr/share/applications/a.desktop".to_string()));
}

#[test]
fn the_name_in_another_case_comes_next() {
    let disk = Disk {
        files: vec![
            (OWN, "StartupWMClass=org.app.ÉTÉ"),
            ("/usr/share/applications/Org.App.Été.Desktop", ""),
        ],
    };
    let found = Some("/usr/share/applications/Org.App.Été.Desktop".to_string());
    assert_eq!(disk.search("ORG.APP.ÉTÉ"), found);
}

#[test]
fn the_window_class_comes_before_the_name() {
    let disk = Disk {
        files: vec![
            (OWN, "Name=App"),
            ("/usr/share/applications/c.txt", "StartupWMClass=app"),
            ("/usr/share/applications/d.desktop", "StartupWMClass = App"),
        ],
    };
    assert_eq!(disk.search("app"), Some("/usr/share/applications/d.desktop".to_string()));
    let named = Disk { files: vec![(OWN, "Name=App")] };
    assert_eq!(named.search("app"), Some(OWN.to_string()));
}

#[test]
fn the_case_of_letters_does_not_decide() {
    let by_name = Disk { files: vec![("/usr/share/applications/Org.App.desktop", "")] };
    let by_class = Disk { files: vec![(OWN, "StartupWMClass=oRG.aPP")] };
    let none = Disk { files: vec![(OWN, "Name=org.app2")] };
    for app_id in ["org.app", "Org.App", "ORG.APP"] {
        assert!(by_name.search(app_id).is_some());
        assert!(by_class.search(app_id).is_some());
        assert!(none.search(app_id).is_none());
    }
}

#[test]
fn nothing_may_be_found() {
    assert_eq!(Disk { files: vec![] }.search("a"), None);
    let disk = Disk { files: vec![(OWN, "Name=c")] };
    assert_eq!(disk.search("a"), None);
    assert_eq!(disk.search("b"), Some(OWN.to_string()));
    assert_eq!(disk.search("C"), Some(OWN.to_string()));
}

#[test]
fn files_that_cannot_be_read_are_passed_over() {
    let mut search = desktop_file_for("a", "/h");
    for _ in 0..5 {
        assert!(matches!(search.question(), Question::Exists(_)));
        search.answer(Answer::Exists(false));
    }
    for _ in 0..5 {
        assert!(matches!(search.question(), Question::Names(_)));
        search.answer(Answer::Names(None));
    }
    search.answer(Answer::Names(Some(vec![
        b"x.desktop".to_vec(),
        b".desktop".to_vec(),
        b"y.desktop".to_vec(),
    ])));
    match search.question() {
        Question::Text(p) => assert_eq!(spelled(&p), "/h/.local/share/applications/x.desktop"),
        other => panic!("{:?}", other),
    }
    search.answer(Answer::Text(None));
    match search.question() {
        Question::Text(p) => assert_eq!(spelled(&p), "/h/.local/share/applications/y.desktop"),
        other => panic!("{:?}", other),
    }
    search.answer(Answer::Text(Some("StartupWMClass=A".to_string())));
    match search.question() {
        Question::Nothing(found) => {
            assert_eq!(spelled(&found.unwrap()), "/h/.local/share/applications/y.desktop");
        }
        other => panic!("{:?}", other),
    }
}

#[test]
fn the_first_of_the_names() {
    let names =
        vec!["b.desktop".to_string(), "a.desktop".to_string(), "a.desktop".to_string()];
    assert_eq!(first_named(&names, "a"), Some(1));
    assert_eq!(first_named(&names, "A"), None);
    assert_eq!(first_named(&vec![], "a"), None);
}

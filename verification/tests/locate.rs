use clashctl::clash_config::ClashConfig;
use clashctl::locate::plan::{
    add_candidate_dir, config_from_dir, find_profile_list_with_hint, profile_path_from_list,
    push_markers, Environment, Located, PathKind, Probe,
};
use clashctl::locate::scan::{
    accepts_content, is_config_filename, is_config_name, is_probable_clash_config,
    is_profile_filename, is_profile_name, is_skipped_name, looks_like_clash_path,
    select_most_recent, should_skip_dir, wants_file, Candidate, DirEntry, Scan, Search, Step,
    Target,
};

fn show(plan: &[Probe]) -> Vec<String> {
    plan.iter()
        .map(|p| match p {
            Probe::Found(path) => format!("found {}", path),
            Probe::File(path) => format!("file {}", path),
            Probe::Content(path) => format!("content {}", path),
            Probe::Scan(path, depth) => format!("scan {} {}", path, depth),
        })
        .collect()
}

fn located(path: &str, kind: PathKind) -> Option<Located> {
    Some(Located { path: path.to_string(), kind })
}

fn nothing() -> Environment {
    Environment { config_path: None, party_dir: None, home: None }
}

fn candidate(path: &str, modified: u64) -> Candidate {
    Candidate { path: path.to_string(), modified }
}

#[test]
fn path_parts() {
    assert_eq!(
        show(&config_from_dir("/home/u/")),
        vec!["file /home/u/config.yaml", "file /home/u/config.yml"]
    );
    assert_eq!(show(&config_from_dir("")), vec!["file config.yaml", "file config.yml"]);
    assert_eq!(profile_path_from_list("/a/b/", "x").as_deref(), Some("/a/profiles/x.yaml"));
    assert_eq!(profile_path_from_list("/a", "x").as_deref(), Some("/profiles/x.yaml"));
    assert_eq!(profile_path_from_list("a//b", "x").as_deref(), Some("a/profiles/x.yaml"));
    assert_eq!(profile_path_from_list("/a/b", "/x").as_deref(), Some("/x.yaml"));
    assert_eq!(profile_path_from_list("", "x"), None);
    assert!(is_config_filename("/a/b/config.yaml/"));
    assert!(!is_config_filename("/a/b/config.yaml/.."));
    assert!(!is_config_filename("/"));
    assert!(!is_config_filename(""));
    let names = vec!["list.yaml".to_string()];
    let mut plan = Vec::new();
    push_markers(&mut plan, "/mihomo-party/a/mihomo-party/b", &names);
    assert_eq!(
        show(&plan),
        vec!["file /mihomo-party/a/mihomo-party/list.yaml", "file /mihomo-party/list.yaml"]
    );
    let mut none = Vec::new();
    push_markers(&mut none, "/a/mihomo-party.d/b", &names);
    assert!(none.is_empty());
}

#[test]
fn nothing_known_leaves_the_system_wide_places() {
    let plan = ClashConfig::find_config(&nothing());
    assert_eq!(
        show(&plan),
        vec!["content /etc/clash/config.yaml", "content /etc/clash/config.yml"]
    );
    assert!(find_profile_list_with_hint(&nothing(), &None).is_empty());
}

#[test]
fn configuration_is_looked_for_in_order() {
    let env = Environment {
        config_path: located("/over/ride", PathKind::Directory),
        party_dir: located("/party/config.yaml", PathKind::File),
        home: Some("/home/u".to_string()),
    };
    let plan = ClashConfig::find_config_with_hint(&env, &located("/hint/missing", PathKind::Missing));
    assert_eq!(
        show(&plan),
        vec![
            "file /over/ride/config.yaml",
            "file /over/ride/config.yml",
            "scan /over/ride 3",
            "found /party/config.yaml",
            "content /home/u/Library/Application Support/mihomo-party/config.yaml",
            "content /home/u/Library/Application Support/mihomo-party/config.yml",
            "content /home/u/Library/Application Support/Clash Verge/mihomo-party/config.yaml",
            "content /home/u/Library/Application Support/Clash Verge/mihomo-party/config.yml",
            "content /home/u/.config/clash/config.yaml",
            "content /home/u/.config/clash/config.yml",
            "content /home/u/.config/mihomo/config.yaml",
            "content /home/u/.config/mihomo/config.yml",
            "content /home/u/.config/mihomo-party/config.yaml",
            "content /home/u/.config/mihomo-party/config.yml",
            "content /home/u/.config/clash-verge/mihomo-party/config.yaml",
            "content /home/u/.config/clash-verge/mihomo-party/config.yml",
            "content /home/u/AppData/Roaming/mihomo-party/config.yaml",
            "content /home/u/AppData/Roaming/mihomo-party/config.yml",
            "content /home/u/AppData/Roaming/Clash Verge/mihomo-party/config.yaml",
            "content /home/u/AppData/Roaming/Clash Verge/mihomo-party/config.yml",
            "content /etc/clash/config.yaml",
            "content /etc/clash/config.yml",
            "scan /home/u/Library/Application Support 3",
            "scan /home/u/.config 3",
            "scan /home/u/AppData/Roaming 3",
        ]
    );
}

#[test]
fn a_hint_for_the_configuration() {
    let file = ClashConfig::find_config_with_hint(&nothing(), &located("/x/my.yaml", PathKind::File));
    assert_eq!(show(&file)[0], "found /x/my.yaml");
    let dir = ClashConfig::find_config_with_hint(
        &nothing(),
        &located("/data/mihomo-party/work", PathKind::Directory),
    );
    assert_eq!(
        show(&dir)[..5],
        [
            "file /data/mihomo-party/work/config.yaml",
            "file /data/mihomo-party/work/config.yml",
            "file /data/mihomo-party/config.yaml",
            "file /data/mihomo-party/config.yml",
            "scan /data/mihomo-party/work 3",
        ]
    );
}

#[test]
fn profile_list_is_looked_for_in_order() {
    let env = Environment {
        config_path: located("/ignored", PathKind::File),
        party_dir: located("/party", PathKind::Directory),
        home: Some("/home/u".to_string()),
    };
    let hint = located("/data/mihomo-party/work/config.yaml", PathKind::File);
    let plan = find_profile_list_with_hint(&env, &hint);
    assert_eq!(
        show(&plan),
        vec![
            "file /party/profile.yaml",
            "scan /party 3",
            "file /data/mihomo-party/work/profile.yaml",
            "file /data/mihomo-party/profile.yaml",
            "content /home/u/Library/Application Support/mihomo-party/profile.yaml",
            "content /home/u/Library/Application Support/Clash Verge/mihomo-party/profile.yaml",
            "content /home/u/.config/mihomo-party/profile.yaml",
            "content /home/u/.config/clash-verge/mihomo-party/profile.yaml",
            "content /home/u/AppData/Roaming/mihomo-party/profile.yaml",
            "content /home/u/AppData/Roaming/Clash Verge/mihomo-party/profile.yaml",
            "scan /home/u/Library/Application Support 3",
            "scan /home/u/.config 3",
            "scan /home/u/AppData/Roaming 3",
        ]
    );
    let dir = find_profile_list_with_hint(&nothing(), &located("/p/mihomo-party", PathKind::Directory));
    assert_eq!(
        show(&dir),
        vec![
            "file /p/mihomo-party/profile.yaml",
            "file /p/mihomo-party/profile.yaml",
            "scan /p/mihomo-party 3",
        ]
    );
    let file_override = Environment {
        config_path: None,
        party_dir: located("/party/profile.yaml", PathKind::File),
        home: None,
    };
    assert_eq!(
        show(&find_profile_list_with_hint(&file_override, &None)),
        vec!["found /party/profile.yaml"]
    );
}

#[test]
fn candidate_directories() {
    let mut paths = Vec::new();
    add_candidate_dir(&mut paths, "/home/u/.config/clash");
    assert_eq!(
        show(&paths),
        vec![
            "content /home/u/.config/clash/config.yaml",
            "content /home/u/.config/clash/config.yml"
        ]
    );
    assert_eq!(
        show(&config_from_dir("/d")),
        vec!["file /d/config.yaml", "file /d/config.yml"]
    );
    assert_eq!(
        profile_path_from_list("/data/mihomo-party/profile.yaml", "abc123").as_deref(),
        Some("/data/mihomo-party/profiles/abc123.yaml")
    );
    assert_eq!(
        profile_path_from_list("profile.yaml", "x").as_deref(),
        Some("profiles/x.yaml")
    );
    assert_eq!(profile_path_from_list("/", "x"), None);
}

#[test]
fn names_and_paths_that_count() {
    for dir in ["/a/.git", "/a/node_modules", "/a/Cache", "/a/CACHES", "/a/tmp", "/a/Temp/"] {
        assert!(should_skip_dir(dir));
    }
    for dir in ["/a/git", "/a/cache2", "/a/.config", "/", "", "/tmp/x"] {
        assert!(!should_skip_dir(dir));
    }
    assert!(is_config_filename("/x/config.yaml"));
    assert!(is_config_filename("config.yml"));
    assert!(!is_config_filename("/x/Config.yaml"));
    assert!(!is_config_filename("/x/config.yaml.bak"));
    assert!(!is_config_filename("/x/myconfig.yaml"));
    assert!(is_profile_filename("/x/profile.yaml"));
    assert!(!is_profile_filename("/x/profile.yml"));
    assert!(looks_like_clash_path("/home/u/.config/Clash/config.yaml"));
    assert!(looks_like_clash_path("/opt/MIHOMO/x"));
    assert!(looks_like_clash_path("/a/clash-verge-rev/config.yaml"));
    assert!(looks_like_clash_path("/a/Party/config.yaml"));
    assert!(!looks_like_clash_path("/home/u/.config/other/config.yaml"));
    assert!(wants_file(Target::Config, "/home/u/.config/clash/config.yaml"));
    assert!(!wants_file(Target::Config, "/home/u/.config/other/config.yaml"));
    assert!(!wants_file(Target::Config, "/home/u/.config/clash/profile.yaml"));
    assert!(wants_file(Target::ProfileList, "/home/u/.config/other/profile.yaml"));
    assert!(!wants_file(Target::ProfileList, "/home/u/.config/clash/config.yaml"));
}

#[test]
fn contents_that_are_accepted() {
    assert!(is_probable_clash_config(b"mixed-port: 7890\n"));
    assert!(is_probable_clash_config(b"socks-port: 7891\n"));
    assert!(is_probable_clash_config(b"external-controller: 127.0.0.1:9090\n"));
    assert!(is_probable_clash_config(b"proxies: []\n"));
    assert!(is_probable_clash_config(b"proxy-providers: {}\n"));
    assert!(!is_probable_clash_config(b"rules: []\n"));
    assert!(!is_probable_clash_config(b"name: something else\n"));
    assert!(!is_probable_clash_config(b"- mixed-port\n"));
    assert!(!is_probable_clash_config(b"mixed-port: [7890"));
    assert!(accepts_content(Target::ProfileList, b"items: []\n"));
    assert!(accepts_content(Target::ProfileList, b"anything: goes\n"));
    assert!(!accepts_content(Target::ProfileList, b"items: [unclosed"));
    assert!(accepts_content(Target::Config, b"proxies: []\n"));
    assert!(!accepts_content(Target::Config, b"items: []\n"));
}

#[test]
fn the_later_of_two_candidates_is_chosen() {
    let older = candidate("/a/clash/config.yaml", 1_700_000_000_000_000_000);
    let newer = candidate("/b/clash/config.yaml", 1_700_000_000_000_000_001);
    assert_eq!(
        select_most_recent(&vec![older.clone(), newer.clone()]).as_deref(),
        Some("/b/clash/config.yaml")
    );
    assert_eq!(
        select_most_recent(&vec![newer, older]).as_deref(),
        Some("/b/clash/config.yaml")
    );
}

#[test]
fn the_first_of_equally_recent_candidates_is_chosen() {
    let list = vec![
        candidate("one", 5),
        candidate("two", 9),
        candidate("three", 9),
        candidate("four", 0),
    ];
    assert_eq!(select_most_recent(&list).as_deref(), Some("two"));
    assert_eq!(select_most_recent(&vec![candidate("only", 0)]).as_deref(), Some("only"));
    assert_eq!(select_most_recent(&Vec::new()), None);
}

#[test]
fn a_scan_visits_the_last_directory_first_and_stops_at_its_depth() {
    let mut scan = Scan::new(Target::Config, "/root", 1);
    assert_eq!(scan.next_directory(), Some(("/root".to_string(), 0)));
    let entries = vec![
        DirEntry { path: "/root/clash".to_string(), is_dir: true },
        DirEntry { path: "/root/node_modules".to_string(), is_dir: true },
        DirEntry { path: "/root/config.yaml".to_string(), is_dir: false },
        DirEntry { path: "/root/mihomo".to_string(), is_dir: true },
        DirEntry { path: "/root/config.yml".to_string(), is_dir: true },
    ];
    assert!(scan.enter(0, &entries).is_empty());
    assert_eq!(scan.next_directory(), Some(("/root/config.yml".to_string(), 1)));
    assert_eq!(scan.next_directory(), Some(("/root/mihomo".to_string(), 1)));
    let inner = vec![
        DirEntry { path: "/root/mihomo/deeper".to_string(), is_dir: true },
        DirEntry { path: "/root/mihomo/config.yaml".to_string(), is_dir: false },
        DirEntry { path: "/root/mihomo/config.yml".to_string(), is_dir: false },
        DirEntry { path: "/root/mihomo/notes.txt".to_string(), is_dir: false },
    ];
    assert_eq!(
        scan.enter(1, &inner),
        vec!["/root/mihomo/config.yaml", "/root/mihomo/config.yml"]
    );
    scan.offer("/root/mihomo/config.yaml", b"mixed-port: 1\n", 10);
    scan.offer("/root/mihomo/config.yml", b"unrelated: 1\n", 99);
    assert_eq!(scan.next_directory(), Some(("/root/clash".to_string(), 1)));
    assert_eq!(
        scan.enter(1, &vec![DirEntry { path: "/root/clash/config.yaml".to_string(), is_dir: false }]),
        vec!["/root/clash/config.yaml"]
    );
    scan.offer("/root/clash/config.yaml", b"proxies: []\n", 20);
    assert_eq!(scan.next_directory(), None);
    assert_eq!(scan.candidates.len(), 2);
    assert_eq!(scan.selected().as_deref(), Some("/root/clash/config.yaml"));
}

#[test]
fn a_scan_for_the_profile_list() {
    let mut scan = Scan::new(Target::ProfileList, "/data", 3);
    assert_eq!(scan.selected(), None);
    let (dir, depth) = scan.next_directory().unwrap();
    assert_eq!((dir.as_str(), depth), ("/data", 0));
    let files = scan.enter(
        depth,
        &vec![
            DirEntry { path: "/data/profile.yaml".to_string(), is_dir: false },
            DirEntry { path: "/data/config.yaml".to_string(), is_dir: false },
        ],
    );
    assert_eq!(files, vec!["/data/profile.yaml"]);
    scan.offer("/data/profile.yaml", b"items: [", 1);
    assert_eq!(scan.selected(), None);
    scan.offer("/data/profile.yaml", b"items: []", 1);
    assert_eq!(scan.selected().as_deref(), Some("/data/profile.yaml"));
}

#[test]
fn a_search_ends_with_the_first_success() {
    let plan = vec![
        Probe::File("/one".to_string()),
        Probe::Content("/two".to_string()),
        Probe::Found("/three".to_string()),
        Probe::File("/four".to_string()),
    ];
    let mut search = Search::new(plan.clone());
    assert!(matches!(search.next(), Step::Try(Probe::File(p)) if p == "/one"));
    search.report(None);
    assert!(matches!(search.next(), Step::Try(Probe::Content(p)) if p == "/two"));
    search.report(None);
    assert!(matches!(search.next(), Step::Done(Some(p)) if p == "/three"));
    search.report(Some("/ignored".to_string()));
    assert!(matches!(search.next(), Step::Done(Some(p)) if p == "/three"));

    let mut found = Search::new(plan);
    found.report(Some("/one".to_string()));
    assert!(matches!(found.next(), Step::Done(Some(p)) if p == "/one"));

    let mut none = Search::new(vec![Probe::Scan("/s".to_string(), 3)]);
    assert!(matches!(none.next(), Step::Try(Probe::Scan(p, 3)) if p == "/s"));
    none.report(None);
    assert!(matches!(none.next(), Step::Done(None)));
    none.report(None);
    assert!(matches!(none.next(), Step::Done(None)));
    assert!(matches!(Search::new(Vec::new()).next(), Step::Done(None)));
}

fn entry(path: &str, is_dir: bool) -> DirEntry {
    DirEntry { path: path.to_string(), is_dir }
}

fn walk(
    root: &str,
    max_depth: usize,
    listings: &[(&str, Vec<DirEntry>)],
    files: &[(&str, &[u8], u64)],
) -> Option<String> {
    let mut scan = Scan::new(Target::Config, root, max_depth);
    while let Some((dir, depth)) = scan.next_directory() {
        let entries = listings
            .iter()
            .find(|(d, _)| *d == dir)
            .map(|(_, e)| e.clone())
            .unwrap_or_default();
        for file in scan.enter(depth, &entries) {
            if let Some((_, content, modified)) = files.iter().find(|(p, _, _)| *p == file) {
                scan.offer(&file, content, *modified);
            }
        }
    }
    scan.selected()
}

#[test]
fn a_whole_scan_selects_the_latest_file_in_whatever_order_entries_are_listed() {
    let good: &[u8] = b"mixed-port: 7890\n";
    let files: Vec<(&str, &[u8], u64)> = vec![
        ("/r/clash/config.yaml", good, 5),
        ("/r/clash/config.yml", b"unrelated: 1\n", 300),
        ("/r/mihomo/config.yml", good, 9),
        ("/r/tmp/clash/config.yaml", good, 200),
        ("/r/deep/a/clash/config.yaml", good, 7),
        ("/r/deep/a/b/clash/config.yaml", good, 100),
        ("/r/other/config.yaml", good, 400),
    ];
    let listings = vec![
        (
            "/r",
            vec![
                entry("/r/clash", true),
                entry("/r/tmp", true),
                entry("/r/mihomo", true),
                entry("/r/deep", true),
                entry("/r/other", true),
            ],
        ),
        (
            "/r/clash",
            vec![entry("/r/clash/config.yaml", false), entry("/r/clash/config.yml", false)],
        ),
        ("/r/mihomo", vec![entry("/r/mihomo/config.yml", false)]),
        ("/r/tmp", vec![entry("/r/tmp/clash", true)]),
        ("/r/tmp/clash", vec![entry("/r/tmp/clash/config.yaml", false)]),
        ("/r/other", vec![entry("/r/other/config.yaml", false)]),
        ("/r/deep", vec![entry("/r/deep/a", true)]),
        ("/r/deep/a", vec![entry("/r/deep/a/clash", true), entry("/r/deep/a/b", true)]),
        ("/r/deep/a/clash", vec![entry("/r/deep/a/clash/config.yaml", false)]),
        ("/r/deep/a/b", vec![entry("/r/deep/a/b/clash", true)]),
        ("/r/deep/a/b/clash", vec![entry("/r/deep/a/b/clash/config.yaml", false)]),
    ];
    let turned: Vec<(&str, Vec<DirEntry>)> = listings
        .iter()
        .map(|(dir, entries)| (*dir, entries.iter().rev().cloned().collect()))
        .collect();
    assert_eq!(walk("/r", 3, &listings, &files).as_deref(), Some("/r/mihomo/config.yml"));
    assert_eq!(walk("/r", 3, &turned, &files).as_deref(), Some("/r/mihomo/config.yml"));
    assert_eq!(walk("/r", 4, &listings, &files).as_deref(), Some("/r/deep/a/b/clash/config.yaml"));
    assert_eq!(walk("/r", 4, &turned, &files).as_deref(), Some("/r/deep/a/b/clash/config.yaml"));
    assert_eq!(walk("/r", 0, &listings, &files), None);
    assert_eq!(walk("/r/tmp", 3, &listings, &files).as_deref(), Some("/r/tmp/clash/config.yaml"));
}

#[test]
fn names_that_count() {
    for name in [".git", ".GIT", "node_modules", "Node_Modules", "cache", "Caches", "TMP", "temp"] {
        assert!(is_skipped_name(name));
    }
    for name in ["git", ".gitignore", "cache2", "temporary", "", "tmp/"] {
        assert!(!is_skipped_name(name));
    }
    assert!(is_config_name("config.yaml"));
    assert!(is_config_name("config.yml"));
    assert!(!is_config_name("Config.yaml"));
    assert!(!is_config_name("config.yaml "));
    assert!(!is_config_name(""));
    assert!(is_profile_name("profile.yaml"));
    assert!(!is_profile_name("profile.yml"));
    assert!(!is_profile_name("Profile.yaml"));
}

//! The order in which places are tried: from a snapshot of the environment
//! to a list of probes, the first of which to succeed gives the path.

use crate::locate::paths::{
    ancestors, ancestors_of, file_name, file_name_of, join, joined, parent, parent_of,
};
use crate::text::{opt_text, same_text, texts};
use vstd::prelude::*;
use vstd::string::StringExecFns;

verus! {

/// How deep below its root a scan descends.
pub const SCAN_DEPTH: usize = 3;

/// What a path names on disk.
#[derive(Debug, Clone, Copy, PartialEq, Eq, Structural)]
pub enum PathKind {
    File,
    Directory,
    Missing,
}

/// A path together with what it names.
#[derive(Debug, Clone)]
pub struct Located {
    pub path: String,
    pub kind: PathKind,
}

pub struct LocatedView {
    pub path: Seq<char>,
    pub kind: PathKind,
}

impl View for Located {
    type V = LocatedView;

    open spec fn view(&self) -> LocatedView {
        LocatedView { path: self.path@, kind: self.kind }
    }
}

/// The view of an optional located path.
pub open spec fn opt_located(l: Option<Located>) -> Option<LocatedView> {
    match l {
        Some(x) => Some(x@),
        None => None,
    }
}

/// What discovery reads of the process environment: the two overrides, each
/// with what it names, and the home directory.
#[derive(Debug, Clone)]
pub struct Environment {
    /// The override that names the configuration file or its directory.
    pub config_path: Option<Located>,
    /// The override that names the directory of the profile manager.
    pub party_dir: Option<Located>,
    /// The user's home directory.
    pub home: Option<String>,
}

pub struct EnvironmentView {
    pub config_path: Option<LocatedView>,
    pub party_dir: Option<LocatedView>,
    pub home: Option<Seq<char>>,
}

impl View for Environment {
    type V = EnvironmentView;

    open spec fn view(&self) -> EnvironmentView {
        EnvironmentView {
            config_path: opt_located(self.config_path),
            party_dir: opt_located(self.party_dir),
            home: opt_text(self.home),
        }
    }
}

/// One attempt to find the file.
#[derive(Debug, Clone)]
pub enum Probe {
    /// The path is the answer.
    Found(String),
    /// The path is the answer if it names a regular file.
    File(String),
    /// The path is the answer if it names a regular file whose content is
    /// accepted.
    Content(String),
    /// The answer is what a scan below the directory selects, to the given
    /// depth.
    Scan(String, usize),
}

pub enum ProbeView {
    Found(Seq<char>),
    File(Seq<char>),
    Content(Seq<char>),
    Scan(Seq<char>, usize),
}

impl View for Probe {
    type V = ProbeView;

    open spec fn view(&self) -> ProbeView {
        match self {
            Probe::Found(p) => ProbeView::Found(p@),
            Probe::File(p) => ProbeView::File(p@),
            Probe::Content(p) => ProbeView::Content(p@),
            Probe::Scan(p, depth) => ProbeView::Scan(p@, *depth),
        }
    }
}

/// The views of a list of probes.
pub open spec fn probe_views(probes: Seq<Probe>) -> Seq<ProbeView> {
    probes.map_values(|p: Probe| p@)
}

/// The file names of a configuration.
pub open spec fn config_file_names() -> Seq<Seq<char>> {
    seq!["config.yaml"@, "config.yml"@]
}

/// The file name of a profile list.
pub open spec fn profile_file_names() -> Seq<Seq<char>> {
    seq!["profile.yaml"@]
}

/// The directories, below the home directory, in which a configuration is
/// looked for.
pub open spec fn config_homes() -> Seq<Seq<char>> {
    seq![
        "Library/Application Support/mihomo-party"@,
        "Library/Application Support/Clash Verge/mihomo-party"@,
        ".config/clash"@,
        ".config/mihomo"@,
        ".config/mihomo-party"@,
        ".config/clash-verge/mihomo-party"@,
        "AppData/Roaming/mihomo-party"@,
        "AppData/Roaming/Clash Verge/mihomo-party"@,
    ]
}

/// The system-wide directories in which a configuration is looked for.
pub open spec fn config_system_dirs() -> Seq<Seq<char>> {
    seq!["/etc/clash"@]
}

/// The directories, below the home directory, in which a profile list is
/// looked for.
pub open spec fn profile_homes() -> Seq<Seq<char>> {
    seq![
        "Library/Application Support/mihomo-party"@,
        "Library/Application Support/Clash Verge/mihomo-party"@,
        ".config/mihomo-party"@,
        ".config/clash-verge/mihomo-party"@,
        "AppData/Roaming/mihomo-party"@,
        "AppData/Roaming/Clash Verge/mihomo-party"@,
    ]
}

/// The directories, below the home directory, that are scanned.
pub open spec fn scan_homes() -> Seq<Seq<char>> {
    seq!["Library/Application Support"@, ".config"@, "AppData/Roaming"@]
}

/// The name of the directory that marks an installation of the profile
/// manager.
pub open spec fn marker_name() -> Seq<char> {
    "mihomo-party"@
}

/// One probe for a regular file per name, in `dir`.
pub open spec fn files_in(dir: Seq<char>, names: Seq<Seq<char>>) -> Seq<ProbeView> {
    names.map_values(|n: Seq<char>| ProbeView::File(joined(dir, n)))
}

/// One probe for an accepted file per name, in `dir`.
pub open spec fn contents_in(dir: Seq<char>, names: Seq<Seq<char>>) -> Seq<ProbeView> {
    names.map_values(|n: Seq<char>| ProbeView::Content(joined(dir, n)))
}

/// The probes of an override: a file is the answer itself; in a directory
/// the expected names are tried, and then the directory is scanned.
pub open spec fn override_probes(place: Option<LocatedView>, names: Seq<Seq<char>>) -> Seq<
    ProbeView,
> {
    match place {
        Some(l) => match l.kind {
            PathKind::File => seq![ProbeView::Found(l.path)],
            PathKind::Directory => files_in(l.path, names) + seq![
                ProbeView::Scan(l.path, SCAN_DEPTH),
            ],
            PathKind::Missing => seq![],
        },
        None => seq![],
    }
}

/// The expected names in `path` where it is called like the marker
/// directory.
pub open spec fn marker_files(path: Seq<char>, names: Seq<Seq<char>>) -> Seq<ProbeView> {
    if file_name_of(path) == Some(marker_name()) {
        files_in(path, names)
    } else {
        seq![]
    }
}

/// The expected names in every ancestor of `path` that is called like the
/// marker directory, nearest first.
pub open spec fn marker_probes(path: Seq<char>, names: Seq<Seq<char>>) -> Seq<ProbeView> {
    ancestors_of(path).flat_map(|a: Seq<char>| marker_files(a, names))
}

/// The probes of a hint for the configuration: a file is the answer itself;
/// in a directory the expected names are tried, then the marker directories
/// above it, and then the directory is scanned.
pub open spec fn config_hint_probes(hint: Option<LocatedView>) -> Seq<ProbeView> {
    match hint {
        Some(l) => match l.kind {
            PathKind::File => seq![ProbeView::Found(l.path)],
            PathKind::Directory => files_in(l.path, config_file_names()) + marker_probes(
                l.path,
                config_file_names(),
            ) + seq![ProbeView::Scan(l.path, SCAN_DEPTH)],
            PathKind::Missing => seq![],
        },
        None => seq![],
    }
}

/// The probes of a hint for the profile list. Beside a file the list is
/// looked for in the file's directory and in the marker directories above
/// it; a directory is treated as for the configuration.
pub open spec fn profile_hint_probes(hint: Option<LocatedView>) -> Seq<ProbeView> {
    match hint {
        Some(l) => match l.kind {
            PathKind::File => (match parent_of(l.path) {
                Some(dir) => files_in(dir, profile_file_names()),
                None => seq![],
            }) + marker_probes(l.path, profile_file_names()),
            PathKind::Directory => files_in(l.path, profile_file_names()) + marker_probes(
                l.path,
                profile_file_names(),
            ) + seq![ProbeView::Scan(l.path, SCAN_DEPTH)],
            PathKind::Missing => seq![],
        },
        None => seq![],
    }
}

/// A directory below `base`, or the directory itself where there is no
/// base.
pub open spec fn placed(base: Option<Seq<char>>, dir: Seq<char>) -> Seq<char> {
    match base {
        Some(b) => joined(b, dir),
        None => dir,
    }
}

/// The expected names in each of the directories, each below `base`.
pub open spec fn places(base: Option<Seq<char>>, dirs: Seq<Seq<char>>, names: Seq<Seq<char>>) -> Seq<
    ProbeView,
> {
    dirs.flat_map(|d: Seq<char>| contents_in(placed(base, d), names))
}

/// The probes for the well-known places: the expected names in each of the
/// directories `homes` below `home`, and then in each of `system`.
pub open spec fn known_probes(
    home: Option<Seq<char>>,
    homes: Seq<Seq<char>>,
    system: Seq<Seq<char>>,
    names: Seq<Seq<char>>,
) -> Seq<ProbeView> {
    (if home is Some {
        places(home, homes, names)
    } else {
        seq![]
    }) + places(None, system, names)
}

/// The scans below the home directory.
pub open spec fn scan_probes(home: Option<Seq<char>>) -> Seq<ProbeView> {
    match home {
        Some(h) => scan_homes().map_values(|d: Seq<char>| ProbeView::Scan(joined(h, d), SCAN_DEPTH)),
        None => seq![],
    }
}

/// The probes for the configuration file, in the order they are tried: the
/// two overrides, the hint, the well-known places, the scans.
pub open spec fn config_plan(env: EnvironmentView, hint: Option<LocatedView>) -> Seq<ProbeView> {
    override_probes(env.config_path, config_file_names()) + override_probes(
        env.party_dir,
        config_file_names(),
    ) + config_hint_probes(hint) + known_probes(
        env.home,
        config_homes(),
        config_system_dirs(),
        config_file_names(),
    ) + scan_probes(env.home)
}

/// The probes for the profile list, in the order they are tried: the
/// override, the hint, the well-known places, the scans.
pub open spec fn profile_plan(env: EnvironmentView, hint: Option<LocatedView>) -> Seq<ProbeView> {
    override_probes(env.party_dir, profile_file_names()) + profile_hint_probes(hint)
        + known_probes(env.home, profile_homes(), Seq::empty(), profile_file_names())
        + scan_probes(env.home)
}

/// A list of texts.
pub fn words(first: &str, rest: &[&str]) -> (list: Vec<String>)
    ensures
        texts(list@) == seq![first@] + rest@.map_values(|w: &str| w@),
{
    let mut list: Vec<String> = Vec::new();
    list.push(first.to_owned());
    let mut i: usize = 0;
    while i < rest.len()
        invariant
            i <= rest.len(),
            texts(list@) == seq![first@] + rest@.take(i as int).map_values(|w: &str| w@),
        decreases rest.len() - i,
    {
        let ghost before = texts(list@);
        list.push(rest[i].to_owned());
        assert(texts(list@) =~= before.push(rest@[i as int]@));
        assert(rest@.take(i + 1).map_values(|w: &str| w@) =~= rest@.take(i as int).map_values(
            |w: &str| w@,
        ).push(rest@[i as int]@));
        i += 1;
    }
    assert(rest@.take(rest.len() as int) =~= rest@);
    list
}

/// The file names of a configuration.
pub fn config_names() -> (names: Vec<String>)
    ensures
        texts(names@) == config_file_names(),
{
    let names = words("config.yaml", &["config.yml"]);
    assert(texts(names@) =~= config_file_names());
    names
}

/// The file name of a profile list.
pub fn profile_names() -> (names: Vec<String>)
    ensures
        texts(names@) == profile_file_names(),
{
    let names = words("profile.yaml", &[]);
    assert(texts(names@) =~= profile_file_names());
    names
}

/// Appends one probe for a regular file per name, in `dir`.
pub fn push_files(plan: &mut Vec<Probe>, dir: &str, names: &Vec<String>)
    ensures
        probe_views(final(plan)@) == probe_views(old(plan)@) + files_in(dir@, texts(names@)),
{
    let mut i: usize = 0;
    assert(probe_views(plan@) =~= probe_views(old(plan)@) + files_in(
        dir@,
        texts(names@).take(0),
    ));
    while i < names.len()
        invariant
            i <= names.len(),
            probe_views(plan@) == probe_views(old(plan)@) + files_in(
                dir@,
                texts(names@).take(i as int),
            ),
        decreases names.len() - i,
    {
        let ghost before = probe_views(plan@);
        let path = join(dir, names[i].as_str());
        plan.push(Probe::File(path));
        assert(probe_views(plan@) =~= before.push(ProbeView::File(joined(dir@, names@[i as int]@))));
        assert(files_in(dir@, texts(names@).take(i + 1)) =~= files_in(
            dir@,
            texts(names@).take(i as int),
        ).push(ProbeView::File(joined(dir@, names@[i as int]@))));
        i += 1;
    }
    assert(texts(names@).take(names.len() as int) =~= texts(names@));
}

/// Appends one probe for an accepted file per name, in `dir`.
pub fn push_contents(plan: &mut Vec<Probe>, dir: &str, names: &Vec<String>)
    ensures
        probe_views(final(plan)@) == probe_views(old(plan)@) + contents_in(dir@, texts(names@)),
{
    let mut i: usize = 0;
    assert(probe_views(plan@) =~= probe_views(old(plan)@) + contents_in(
        dir@,
        texts(names@).take(0),
    ));
    while i < names.len()
        invariant
            i <= names.len(),
            probe_views(plan@) == probe_views(old(plan)@) + contents_in(
                dir@,
                texts(names@).take(i as int),
            ),
        decreases names.len() - i,
    {
        let ghost before = probe_views(plan@);
        let path = join(dir, names[i].as_str());
        plan.push(Probe::Content(path));
        assert(probe_views(plan@) =~= before.push(
            ProbeView::Content(joined(dir@, names@[i as int]@)),
        ));
        assert(contents_in(dir@, texts(names@).take(i + 1)) =~= contents_in(
            dir@,
            texts(names@).take(i as int),
        ).push(ProbeView::Content(joined(dir@, names@[i as int]@))));
        i += 1;
    }
    assert(texts(names@).take(names.len() as int) =~= texts(names@));
}

/// Appends the probes of an override.
pub fn push_override(plan: &mut Vec<Probe>, place: &Option<Located>, names: &Vec<String>)
    ensures
        probe_views(final(plan)@) == probe_views(old(plan)@) + override_probes(
            opt_located(*place),
            texts(names@),
        ),
{
    let ghost before = probe_views(plan@);
    match place {
        Some(l) => match l.kind {
            PathKind::File => {
                plan.push(Probe::Found(l.path.clone()));
                assert(probe_views(plan@) =~= before + seq![ProbeView::Found(l.path@)]);
            },
            PathKind::Directory => {
                push_files(plan, l.path.as_str(), names);
                let ghost listed = probe_views(plan@);
                plan.push(Probe::Scan(l.path.clone(), SCAN_DEPTH));
                assert(probe_views(plan@) =~= listed + seq![ProbeView::Scan(l.path@, SCAN_DEPTH)]);
                assert(probe_views(plan@) =~= before + (files_in(l.path@, texts(names@)) + seq![
                    ProbeView::Scan(l.path@, SCAN_DEPTH),
                ]));
            },
            PathKind::Missing => {
                assert(probe_views(plan@) =~= before + Seq::<ProbeView>::empty());
            },
        },
        None => {
            assert(probe_views(plan@) =~= before + Seq::<ProbeView>::empty());
        },
    }
}

/// Appends the probes of an override for the configuration.
pub fn config_path_from_env(plan: &mut Vec<Probe>, place: &Option<Located>)
    ensures
        probe_views(final(plan)@) == probe_views(old(plan)@) + override_probes(
            opt_located(*place),
            config_file_names(),
        ),
{
    let names = config_names();
    push_override(plan, place, &names);
}

/// Appends the probes of an override for the profile list.
pub fn profile_path_from_env(plan: &mut Vec<Probe>, place: &Option<Located>)
    ensures
        probe_views(final(plan)@) == probe_views(old(plan)@) + override_probes(
            opt_located(*place),
            profile_file_names(),
        ),
{
    let names = profile_names();
    push_override(plan, place, &names);
}

/// Appends the expected names in every ancestor of `path` that is called
/// like the marker directory.
pub fn push_markers(plan: &mut Vec<Probe>, path: &str, names: &Vec<String>)
    ensures
        probe_views(final(plan)@) == probe_views(old(plan)@) + marker_probes(
            path@,
            texts(names@),
        ),
{
    let above = ancestors(path);
    let ghost pick = |a: Seq<char>| marker_files(a, texts(names@));
    let mut i: usize = 0;
    assert(texts(above@).take(0).flat_map(pick) =~= Seq::<ProbeView>::empty()) by {
        assert(texts(above@).take(0).map_values(pick) =~= Seq::<Seq<ProbeView>>::empty());
    }
    assert(probe_views(plan@) =~= probe_views(old(plan)@) + Seq::<ProbeView>::empty());
    while i < above.len()
        invariant
            i <= above.len(),
            texts(above@) == ancestors_of(path@),
            pick == (|a: Seq<char>| marker_files(a, texts(names@))),
            probe_views(plan@) == probe_views(old(plan)@) + texts(above@).take(i as int).flat_map(
                pick,
            ),
        decreases above.len() - i,
    {
        proof {
            texts(above@).lemma_flat_map_take_append(pick, i as int);
        }
        let ghost before = probe_views(plan@);
        let is_marker = match file_name(above[i].as_str()) {
            Some(name) => same_text(name.as_str(), "mihomo-party"),
            None => false,
        };
        if is_marker {
            push_files(plan, above[i].as_str(), names);
        } else {
            assert(probe_views(plan@) =~= before + Seq::<ProbeView>::empty());
        }
        assert(probe_views(plan@) =~= probe_views(old(plan)@) + (texts(above@).take(
            i as int,
        ).flat_map(pick) + pick(texts(above@)[i as int])));
        i += 1;
    }
    assert(texts(above@).take(above.len() as int) =~= texts(above@));
}

/// Appends the probes of a hint for the configuration.
pub fn push_config_hint(plan: &mut Vec<Probe>, hint: &Option<Located>)
    ensures
        probe_views(final(plan)@) == probe_views(old(plan)@) + config_hint_probes(
            opt_located(*hint),
        ),
{
    let ghost before = probe_views(plan@);
    match hint {
        Some(l) => match l.kind {
            PathKind::File => {
                plan.push(Probe::Found(l.path.clone()));
                assert(probe_views(plan@) =~= before + seq![ProbeView::Found(l.path@)]);
            },
            PathKind::Directory => {
                let names = config_names();
                push_files(plan, l.path.as_str(), &names);
                push_markers(plan, l.path.as_str(), &names);
                let ghost listed = probe_views(plan@);
                plan.push(Probe::Scan(l.path.clone(), SCAN_DEPTH));
                assert(probe_views(plan@) =~= listed + seq![ProbeView::Scan(l.path@, SCAN_DEPTH)]);
                assert(probe_views(plan@) =~= before + config_hint_probes(opt_located(*hint)));
            },
            PathKind::Missing => {
                assert(probe_views(plan@) =~= before + Seq::<ProbeView>::empty());
            },
        },
        None => {
            assert(probe_views(plan@) =~= before + Seq::<ProbeView>::empty());
        },
    }
}

/// Appends the probes of a hint for the profile list.
pub fn resolve_profile_list_from_hint(plan: &mut Vec<Probe>, hint: &Option<Located>)
    ensures
        probe_views(final(plan)@) == probe_views(old(plan)@) + profile_hint_probes(
            opt_located(*hint),
        ),
{
    let ghost before = probe_views(plan@);
    let names = profile_names();
    match hint {
        Some(l) => match l.kind {
            PathKind::File => {
                match parent(l.path.as_str()) {
                    Some(dir) => {
                        push_files(plan, dir.as_str(), &names);
                    },
                    None => {
                        assert(probe_views(plan@) =~= before + Seq::<ProbeView>::empty());
                    },
                }
                push_markers(plan, l.path.as_str(), &names);
                assert(probe_views(plan@) =~= before + profile_hint_probes(opt_located(*hint)));
            },
            PathKind::Directory => {
                push_files(plan, l.path.as_str(), &names);
                push_markers(plan, l.path.as_str(), &names);
                let ghost listed = probe_views(plan@);
                plan.push(Probe::Scan(l.path.clone(), SCAN_DEPTH));
                assert(probe_views(plan@) =~= listed + seq![ProbeView::Scan(l.path@, SCAN_DEPTH)]);
                assert(probe_views(plan@) =~= before + profile_hint_probes(opt_located(*hint)));
            },
            PathKind::Missing => {
                assert(probe_views(plan@) =~= before + Seq::<ProbeView>::empty());
            },
        },
        None => {
            assert(probe_views(plan@) =~= before + Seq::<ProbeView>::empty());
        },
    }
}

/// Appends the expected names in `dir` as places whose content is checked.
pub fn add_candidate_dir(possible_paths: &mut Vec<Probe>, dir: &str)
    ensures
        probe_views(final(possible_paths)@) == probe_views(old(possible_paths)@) + contents_in(
            dir@,
            config_file_names(),
        ),
{
    let names = config_names();
    push_contents(possible_paths, dir, &names);
}

/// The expected names of a configuration in `dir`, as probes for a regular
/// file.
pub fn config_from_dir(dir: &str) -> (probes: Vec<Probe>)
    ensures
        probe_views(probes@) == files_in(dir@, config_file_names()),
{
    let mut probes: Vec<Probe> = Vec::new();
    assert(probe_views(probes@) =~= Seq::<ProbeView>::empty());
    let names = config_names();
    push_files(&mut probes, dir, &names);
    assert(probe_views(probes@) =~= files_in(dir@, config_file_names()));
    probes
}

/// Appends the probes for the expected names in each directory, each below
/// `base` where there is one.
fn push_known(plan: &mut Vec<Probe>, base: &Option<String>, dirs: &Vec<String>, names: &Vec<String>)
    ensures
        probe_views(final(plan)@) == probe_views(old(plan)@) + places(
            opt_text(*base),
            texts(dirs@),
            texts(names@),
        ),
{
    let ghost place = |d: Seq<char>| contents_in(placed(opt_text(*base), d), texts(names@));
    let mut i: usize = 0;
    assert(texts(dirs@).take(0).flat_map(place) =~= Seq::<ProbeView>::empty()) by {
        assert(texts(dirs@).take(0).map_values(place) =~= Seq::<Seq<ProbeView>>::empty());
    }
    assert(probe_views(plan@) =~= probe_views(old(plan)@) + Seq::<ProbeView>::empty());
    while i < dirs.len()
        invariant
            i <= dirs.len(),
            place == (|d: Seq<char>| contents_in(placed(opt_text(*base), d), texts(names@))),
            probe_views(plan@) == probe_views(old(plan)@) + texts(dirs@).take(i as int).flat_map(
                place,
            ),
        decreases dirs.len() - i,
    {
        proof {
            texts(dirs@).lemma_flat_map_take_append(place, i as int);
        }
        match base {
            Some(b) => {
                let dir = join(b.as_str(), dirs[i].as_str());
                push_contents(plan, dir.as_str(), names);
            },
            None => {
                push_contents(plan, dirs[i].as_str(), names);
            },
        }
        assert(probe_views(plan@) =~= probe_views(old(plan)@) + (texts(dirs@).take(
            i as int,
        ).flat_map(place) + place(texts(dirs@)[i as int])));
        i += 1;
    }
    assert(texts(dirs@).take(dirs.len() as int) =~= texts(dirs@));
}

/// Appends the probes for the well-known places.
pub fn push_known_places(
    plan: &mut Vec<Probe>,
    home: &Option<String>,
    homes: &Vec<String>,
    system: &Vec<String>,
    names: &Vec<String>,
)
    ensures
        probe_views(final(plan)@) == probe_views(old(plan)@) + known_probes(
            opt_text(*home),
            texts(homes@),
            texts(system@),
            texts(names@),
        ),
{
    let ghost before = probe_views(plan@);
    if home.is_some() {
        push_known(plan, home, homes, names);
    } else {
        assert(probe_views(plan@) =~= before + Seq::<ProbeView>::empty());
    }
    let ghost middle = probe_views(plan@);
    let nowhere: Option<String> = None;
    push_known(plan, &nowhere, system, names);
    assert(probe_views(plan@) =~= before + known_probes(
        opt_text(*home),
        texts(homes@),
        texts(system@),
        texts(names@),
    ));
}

/// Appends the scans below the home directory.
pub fn push_scans(plan: &mut Vec<Probe>, home: &Option<String>)
    ensures
        probe_views(final(plan)@) == probe_views(old(plan)@) + scan_probes(opt_text(*home)),
{
    let ghost before = probe_views(plan@);
    match home {
        Some(h) => {
            let roots = words("Library/Application Support", &[".config", "AppData/Roaming"]);
            assert(texts(roots@) =~= scan_homes());
            let mut i: usize = 0;
            while i < roots.len()
                invariant
                    i <= roots.len(),
                    texts(roots@) == scan_homes(),
                    probe_views(plan@) == before + scan_homes().take(i as int).map_values(
                        |d: Seq<char>| ProbeView::Scan(joined(h@, d), SCAN_DEPTH),
                    ),
                decreases roots.len() - i,
            {
                let ghost earlier = probe_views(plan@);
                let root = join(h.as_str(), roots[i].as_str());
                plan.push(Probe::Scan(root, SCAN_DEPTH));
                assert(probe_views(plan@) =~= earlier.push(
                    ProbeView::Scan(joined(h@, texts(roots@)[i as int]), SCAN_DEPTH),
                ));
                assert(probe_views(plan@) =~= before + scan_homes().take(i + 1).map_values(
                    |d: Seq<char>| ProbeView::Scan(joined(h@, d), SCAN_DEPTH),
                ));
                i += 1;
            }
            assert(scan_homes().take(roots.len() as int) =~= scan_homes());
        },
        None => {
            assert(probe_views(plan@) =~= before + Seq::<ProbeView>::empty());
        },
    }
}

/// The probes for the profile list, in the order they are tried.
pub fn find_profile_list_with_hint(env: &Environment, hint: &Option<Located>) -> (plan: Vec<
    Probe,
>)
    ensures
        probe_views(plan@) == profile_plan(env@, opt_located(*hint)),
{
    let mut plan: Vec<Probe> = Vec::new();
    assert(probe_views(plan@) =~= Seq::<ProbeView>::empty());
    let names = profile_names();
    profile_path_from_env(&mut plan, &env.party_dir);
    resolve_profile_list_from_hint(&mut plan, hint);
    let homes = words(
        "Library/Application Support/mihomo-party",
        &[
            "Library/Application Support/Clash Verge/mihomo-party",
            ".config/mihomo-party",
            ".config/clash-verge/mihomo-party",
            "AppData/Roaming/mihomo-party",
            "AppData/Roaming/Clash Verge/mihomo-party",
        ],
    );
    assert(texts(homes@) =~= profile_homes());
    let system: Vec<String> = Vec::new();
    assert(texts(system@) =~= Seq::<Seq<char>>::empty());
    push_known_places(&mut plan, &env.home, &homes, &system, &names);
    push_scans(&mut plan, &env.home);
    assert(probe_views(plan@) =~= profile_plan(env@, opt_located(*hint)));
    plan
}

/// The path of the profile `id` beside a profile list: `profiles/<id>.yaml`
/// in the directory of the list. `None` where the list has no parent.
pub open spec fn profile_path(list_path: Seq<char>, id: Seq<char>) -> Option<Seq<char>> {
    match parent_of(list_path) {
        Some(root) => Some(joined(joined(root, "profiles"@), id + ".yaml"@)),
        None => None,
    }
}

/// The path of the profile `id` beside a profile list.
pub fn profile_path_from_list(list_path: &str, id: &str) -> (path: Option<String>)
    ensures
        opt_text(path) == profile_path(list_path@, id@),
{
    match parent(list_path) {
        Some(root) => {
            let dir = join(root.as_str(), "profiles");
            let file = id.to_owned().concat(".yaml");
            Some(join(dir.as_str(), file.as_str()))
        },
        None => None,
    }
}

} // verus!

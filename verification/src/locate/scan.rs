//! Running the probes: which files of a directory are looked at, which
//! directories are entered, which contents are accepted, and which of
//! several candidates is chosen.

use crate::locate::paths::{file_name, file_name_of, mentions, mentions_word};
use crate::locate::plan::{probe_views, Probe, ProbeView};
use crate::subscription::{has_key, mapping_has_key};
use crate::text::{ascii_lowered, chars_of, opt_text, same_text, spells, texts, to_ascii_lower};
use crate::yaml::{lemma_mapping_value, plain, read_document, yaml_document, Yaml, YamlView};
use vstd::prelude::*;

verus! {

/// What is looked for.
#[derive(Debug, Clone, Copy, PartialEq, Eq, Structural)]
pub enum Target {
    /// The daemon's configuration file.
    Config,
    /// The list of profiles of the profile manager.
    ProfileList,
}

/// True for the name of a directory that is not entered: `.git`,
/// `node_modules`, `cache`, `caches`, `tmp` and `temp`, whatever the case
/// of their ASCII letters.
pub open spec fn skipped_name(name: Seq<char>) -> bool {
    let n = ascii_lowered(name);
    n == ".git"@ || n == "node_modules"@ || n == "cache"@ || n == "caches"@ || n == "tmp"@ || n
        == "temp"@
}

/// Whether a directory of this name is not entered.
pub fn is_skipped_name(name: &str) -> (skip: bool)
    ensures
        skip == skipped_name(name@),
{
    let chars = chars_of(name);
    let lowered = to_ascii_lower(chars.as_slice());
    let n = lowered.as_slice();
    spells(n, ".git") || spells(n, "node_modules") || spells(n, "cache") || spells(n, "caches")
        || spells(n, "tmp") || spells(n, "temp")
}

/// True for a directory that is not entered: version-control metadata,
/// dependency caches and temporary directories, by the last component of
/// their paths.
pub open spec fn skipped_dir(path: Seq<char>) -> bool {
    match file_name_of(path) {
        Some(name) => skipped_name(name),
        None => false,
    }
}

/// Whether a directory is not entered.
pub fn should_skip_dir(path: &str) -> (skip: bool)
    ensures
        skip == skipped_dir(path@),
{
    match file_name(path) {
        Some(name) => is_skipped_name(name.as_str()),
        None => false,
    }
}

/// True for the file names of a configuration: `config.yaml` and
/// `config.yml`.
pub open spec fn config_name(name: Seq<char>) -> bool {
    name == "config.yaml"@ || name == "config.yml"@
}

/// Whether a file name is that of a configuration.
pub fn is_config_name(name: &str) -> (yes: bool)
    ensures
        yes == config_name(name@),
{
    same_text(name, "config.yaml") || same_text(name, "config.yml")
}

/// True for a path whose file name is that of a configuration.
pub open spec fn config_filename(path: Seq<char>) -> bool {
    match file_name_of(path) {
        Some(name) => config_name(name),
        None => false,
    }
}

/// Whether the file name of a path is that of a configuration.
pub fn is_config_filename(path: &str) -> (yes: bool)
    ensures
        yes == config_filename(path@),
{
    match file_name(path) {
        Some(name) => is_config_name(name.as_str()),
        None => false,
    }
}

/// True for the file name of a profile list: `profile.yaml`.
pub open spec fn profile_name(name: Seq<char>) -> bool {
    name == "profile.yaml"@
}

/// Whether a file name is that of a profile list.
pub fn is_profile_name(name: &str) -> (yes: bool)
    ensures
        yes == profile_name(name@),
{
    same_text(name, "profile.yaml")
}

/// True for a path whose file name is that of a profile list.
pub open spec fn profile_filename(path: Seq<char>) -> bool {
    match file_name_of(path) {
        Some(name) => profile_name(name),
        None => false,
    }
}

/// Whether the file name of a path is that of a profile list.
pub fn is_profile_filename(path: &str) -> (yes: bool)
    ensures
        yes == profile_filename(path@),
{
    match file_name(path) {
        Some(name) => is_profile_name(name.as_str()),
        None => false,
    }
}

/// True for a path that names one of the tools, whatever the case of its
/// ASCII letters: `clash`, `mihomo`, `verge` or `party`.
pub open spec fn clash_path(path: Seq<char>) -> bool {
    mentions(path, "clash"@) || mentions(path, "mihomo"@) || mentions(path, "verge"@) || mentions(
        path,
        "party"@,
    )
}

/// Whether a path names one of the tools.
pub fn looks_like_clash_path(path: &str) -> (yes: bool)
    ensures
        yes == clash_path(path@),
{
    mentions_word(path, "clash") || mentions_word(path, "mihomo") || mentions_word(path, "verge")
        || mentions_word(path, "party")
}

/// True for a document that bears the mark of a daemon configuration: a
/// mapping with one of the keys `proxies`, `proxy-providers`,
/// `external-controller`, `mixed-port` and `socks-port`.
pub open spec fn config_marked(doc: YamlView) -> bool {
    match plain(doc) {
        YamlView::Mapping(entries) => has_key(entries, "proxies"@) || has_key(
            entries,
            "proxy-providers"@,
        ) || has_key(entries, "external-controller"@) || has_key(entries, "mixed-port"@)
            || has_key(entries, "socks-port"@),
        _ => false,
    }
}

/// Whether a document bears the mark of a daemon configuration.
pub fn has_config_marker(doc: &Yaml) -> (yes: bool)
    ensures
        yes == config_marked(doc@),
{
    match doc.untagged() {
        Yaml::Mapping(entries) => {
            proof {
                lemma_mapping_value(*entries);
            }
            mapping_has_key(entries, "proxies") || mapping_has_key(entries, "proxy-providers")
                || mapping_has_key(entries, "external-controller") || mapping_has_key(
                entries,
                "mixed-port",
            ) || mapping_has_key(entries, "socks-port")
        },
        _ => false,
    }
}

/// True for a content that is accepted: it reads as YAML and, for a
/// configuration, bears the mark of one.
pub open spec fn accepted(target: Target, content: Seq<u8>) -> bool {
    match yaml_document(content) {
        Some(doc) => target == Target::ProfileList || config_marked(doc),
        None => false,
    }
}

/// Whether the content of a file is that of a daemon configuration.
pub fn is_probable_clash_config(content: &[u8]) -> (yes: bool)
    ensures
        yes == accepted(Target::Config, content@),
{
    match read_document(content) {
        Some(doc) => has_config_marker(&doc),
        None => false,
    }
}

/// Whether the content of a file is accepted for the target.
pub fn accepts_content(target: Target, content: &[u8]) -> (yes: bool)
    ensures
        yes == accepted(target, content@),
{
    match read_document(content) {
        Some(doc) => match target {
            Target::ProfileList => true,
            Target::Config => has_config_marker(&doc),
        },
        None => false,
    }
}

/// True for a file whose content a scan asks for: one with the expected
/// name and, for a configuration, with a path that names one of the tools.
pub open spec fn wanted_file(target: Target, path: Seq<char>) -> bool {
    match target {
        Target::Config => config_filename(path) && clash_path(path),
        Target::ProfileList => profile_filename(path),
    }
}

/// Whether a scan asks for the content of a file.
pub fn wants_file(target: Target, path: &str) -> (yes: bool)
    ensures
        yes == wanted_file(target, path@),
{
    match target {
        Target::Config => is_config_filename(path) && looks_like_clash_path(path),
        Target::ProfileList => is_profile_filename(path),
    }
}

/// A file that passed every check, with the time it was last modified, in
/// nanoseconds since the Unix epoch.
#[derive(Debug, Clone)]
pub struct Candidate {
    pub path: String,
    pub modified: u64,
}

pub struct CandidateView {
    pub path: Seq<char>,
    pub modified: u64,
}

impl View for Candidate {
    type V = CandidateView;

    open spec fn view(&self) -> CandidateView {
        CandidateView { path: self.path@, modified: self.modified }
    }
}

/// The views of a list of candidates.
pub open spec fn candidate_views(list: Seq<Candidate>) -> Seq<CandidateView> {
    list.map_values(|c: Candidate| c@)
}

/// The index of the candidate that is chosen: the first of those that were
/// modified last.
pub open spec fn newest(list: Seq<CandidateView>) -> int
    decreases list.len(),
{
    if list.len() <= 1 {
        0
    } else {
        let earlier = newest(list.drop_last());
        if list.last().modified > list[earlier].modified {
            list.len() - 1
        } else {
            earlier
        }
    }
}

/// The path of the candidate that is chosen; `None` where there is none.
pub open spec fn most_recent(list: Seq<CandidateView>) -> Option<Seq<char>> {
    if list.len() == 0 {
        None
    } else {
        Some(list[newest(list)].path)
    }
}

/// The chosen candidate was modified no earlier than any other, and later
/// than every candidate before it.
pub proof fn lemma_newest(list: Seq<CandidateView>)
    requires
        list.len() > 0,
    ensures
        0 <= newest(list) < list.len(),
        forall|j: int|
            0 <= j < list.len() ==> (#[trigger] list[j]).modified <= list[newest(list)].modified,
        forall|j: int|
            0 <= j < newest(list) ==> (#[trigger] list[j]).modified < list[newest(list)].modified,
    decreases list.len(),
{
    if list.len() > 1 {
        let front = list.drop_last();
        lemma_newest(front);
        assert forall|j: int| 0 <= j < list.len() implies (#[trigger] list[j]).modified
            <= list[newest(list)].modified by {
            if j < front.len() {
                assert(front[j] == list[j]);
            }
        }
        assert forall|j: int| 0 <= j < newest(list) implies (#[trigger] list[j]).modified
            < list[newest(list)].modified by {
            if j < front.len() {
                assert(front[j] == list[j]);
            }
        }
    }
}

/// Of two candidates the one that was modified later is chosen, whichever
/// was found first.
pub proof fn lemma_later_of_two_wins(a: CandidateView, b: CandidateView)
    requires
        a.modified != b.modified,
    ensures
        most_recent(seq![a, b]) == Some(
            if a.modified > b.modified {
                a.path
            } else {
                b.path
            },
        ),
        most_recent(seq![b, a]) == most_recent(seq![a, b]),
{
    reveal_with_fuel(newest, 3);
    assert(seq![a, b].drop_last() =~= seq![a]);
    assert(seq![b, a].drop_last() =~= seq![b]);
}

/// Chooses among the candidates the one that was modified last, the first
/// of several that were modified at the same time.
pub fn select_most_recent(candidates: &Vec<Candidate>) -> (path: Option<String>)
    ensures
        opt_text(path) == most_recent(candidate_views(candidates@)),
{
    if candidates.len() == 0 {
        return None;
    }
    let mut best: usize = 0;
    let mut i: usize = 1;
    assert(candidate_views(candidates@).take(1).len() == 1);
    while i < candidates.len()
        invariant
            1 <= i <= candidates.len(),
            best < i,
            best == newest(candidate_views(candidates@).take(i as int)),
        decreases candidates.len() - i,
    {
        let ghost upto = candidate_views(candidates@).take(i + 1);
        assert(upto.drop_last() =~= candidate_views(candidates@).take(i as int));
        assert(upto.last() == candidates@[i as int]@);
        assert(upto[best as int] == candidates@[best as int]@);
        if candidates[i].modified > candidates[best].modified {
            best = i;
        }
        i += 1;
    }
    assert(candidate_views(candidates@).take(candidates.len() as int) =~= candidate_views(
        candidates@,
    ));
    Some(candidates[best].path.clone())
}

/// An entry of a directory.
#[derive(Debug, Clone)]
pub struct DirEntry {
    pub path: String,
    pub is_dir: bool,
}

pub struct DirEntryView {
    pub path: Seq<char>,
    pub is_dir: bool,
}

impl View for DirEntry {
    type V = DirEntryView;

    open spec fn view(&self) -> DirEntryView {
        DirEntryView { path: self.path@, is_dir: self.is_dir }
    }
}

/// The views of the entries of a directory.
pub open spec fn entry_views(entries: Seq<DirEntry>) -> Seq<DirEntryView> {
    entries.map_values(|e: DirEntry| e@)
}

/// The views of the directories that wait to be read.
pub open spec fn pending_views(pending: Seq<(String, usize)>) -> Seq<(Seq<char>, usize)> {
    pending.map_values(|p: (String, usize)| (p.0@, p.1))
}

/// The directory of an entry that a scan at `depth` enters later.
pub open spec fn entered(entry: DirEntryView, depth: usize, max_depth: usize) -> Option<
    (Seq<char>, usize),
> {
    if entry.is_dir && depth < max_depth && !skipped_dir(entry.path) {
        Some((entry.path, (depth + 1) as usize))
    } else {
        None
    }
}

/// The path of an entry whose content a scan asks for.
pub open spec fn asked(entry: DirEntryView, target: Target) -> Option<Seq<char>> {
    if !entry.is_dir && wanted_file(target, entry.path) {
        Some(entry.path)
    } else {
        None
    }
}

/// A scan below a directory: the directories that wait to be read, deepest
/// last, and the candidates found so far.
#[derive(Debug, Clone)]
pub struct Scan {
    pub target: Target,
    pub max_depth: usize,
    pub pending: Vec<(String, usize)>,
    pub candidates: Vec<Candidate>,
}

pub struct ScanView {
    pub target: Target,
    pub max_depth: usize,
    pub pending: Seq<(Seq<char>, usize)>,
    pub candidates: Seq<CandidateView>,
}

impl View for Scan {
    type V = ScanView;

    open spec fn view(&self) -> ScanView {
        ScanView {
            target: self.target,
            max_depth: self.max_depth,
            pending: pending_views(self.pending@),
            candidates: candidate_views(self.candidates@),
        }
    }
}

impl ScanView {
    /// True when no directory that waits to be read lies deeper below the
    /// root than the scan descends.
    pub open spec fn bounded(self) -> bool {
        forall|i: int| 0 <= i < self.pending.len() ==> (#[trigger] self.pending[i]).1 <= self.max_depth
    }
}

impl Scan {
    /// A scan that has its root still to read.
    pub fn new(target: Target, root: &str, max_depth: usize) -> (scan: Scan)
        ensures
            scan@ == (ScanView {
                target,
                max_depth,
                pending: seq![(root@, 0usize)],
                candidates: Seq::empty(),
            }),
            scan@.bounded(),
    {
        let mut pending: Vec<(String, usize)> = Vec::new();
        pending.push((root.to_owned(), 0));
        let scan = Scan { target, max_depth, pending, candidates: Vec::new() };
        assert(scan@.pending =~= seq![(root@, 0usize)]);
        assert(scan@.candidates =~= Seq::<CandidateView>::empty());
        scan
    }

    /// The directory to read next, with its depth: the one that was found
    /// last. `None` when the scan is over.
    pub fn next_directory(&mut self) -> (next: Option<(String, usize)>)
        ensures
            final(self)@.target == old(self)@.target,
            final(self)@.max_depth == old(self)@.max_depth,
            final(self)@.candidates == old(self)@.candidates,
            old(self)@.bounded() ==> final(self)@.bounded(),
            old(self)@.bounded() && next is Some ==> (next->0).1 <= old(self)@.max_depth,
            match next {
                Some((dir, depth)) => old(self)@.pending.len() > 0 && (dir@, depth) == old(
                    self,
                )@.pending.last() && final(self)@.pending == old(self)@.pending.drop_last(),
                None => old(self)@.pending.len() == 0 && final(self)@.pending == old(
                    self,
                )@.pending,
            },
    {
        let next = self.pending.pop();
        proof {
            if next is Some {
                assert(self@.pending =~= old(self)@.pending.drop_last());
                if old(self)@.bounded() {
                    assert(old(self)@.pending[old(self)@.pending.len() - 1].1 <= self.max_depth);
                    assert forall|i: int| 0 <= i < self@.pending.len() implies (
                    #[trigger] self@.pending[i]).1 <= self@.max_depth by {
                        assert(self@.pending[i] == old(self)@.pending[i]);
                    }
                }
            }
        }
        next
    }

    /// Takes note of the entries of a directory read at `depth`: the
    /// directories to enter are put in line, and the files whose content is
    /// to be offered are handed back, in order.
    pub fn enter(&mut self, depth: usize, entries: &Vec<DirEntry>) -> (files: Vec<String>)
        ensures
            final(self)@.target == old(self)@.target,
            final(self)@.max_depth == old(self)@.max_depth,
            final(self)@.candidates == old(self)@.candidates,
            final(self)@.pending == old(self)@.pending + entry_views(entries@).filter_map(
                |e: DirEntryView| entered(e, depth, old(self)@.max_depth),
            ),
            texts(files@) == entry_views(entries@).filter_map(
                |e: DirEntryView| asked(e, old(self)@.target),
            ),
            old(self)@.bounded() ==> final(self)@.bounded(),
    {
        let ghost enter = |e: DirEntryView| entered(e, depth, old(self)@.max_depth);
        let ghost ask = |e: DirEntryView| asked(e, old(self)@.target);
        let mut files: Vec<String> = Vec::new();
        let mut i: usize = 0;
        assert(entry_views(entries@).take(0) =~= Seq::<DirEntryView>::empty());
        assert(self@.pending =~= old(self)@.pending + Seq::<(Seq<char>, usize)>::empty());
        assert(texts(files@) =~= Seq::<Seq<char>>::empty());
        while i < entries.len()
            invariant
                i <= entries.len(),
                self.target == old(self).target,
                self.max_depth == old(self).max_depth,
                self.candidates == old(self).candidates,
                enter == (|e: DirEntryView| entered(e, depth, old(self)@.max_depth)),
                ask == (|e: DirEntryView| asked(e, old(self)@.target)),
                self@.pending == old(self)@.pending + entry_views(entries@).take(
                    i as int,
                ).filter_map(enter),
                texts(files@) == entry_views(entries@).take(i as int).filter_map(ask),
                old(self)@.bounded() ==> self@.bounded(),
            decreases entries.len() - i,
        {
            proof {
                entry_views(entries@).lemma_filter_map_take_succ(enter, i as int);
                entry_views(entries@).lemma_filter_map_take_succ(ask, i as int);
            }
            let ghost pending_before = self@.pending;
            let ghost files_before = texts(files@);
            let entry = &entries[i];
            if entry.is_dir {
                if depth < self.max_depth && !should_skip_dir(entry.path.as_str()) {
                    self.pending.push((entry.path.clone(), depth + 1));
                    assert(self@.pending =~= pending_before.push(
                        (entry.path@, (depth + 1) as usize),
                    ));
                }
            } else if wants_file(self.target, entry.path.as_str()) {
                files.push(entry.path.clone());
                assert(texts(files@) =~= files_before.push(entry.path@));
            }
            assert(self@.pending =~= old(self)@.pending + (entry_views(entries@).take(
                i as int,
            ).filter_map(enter) + match enter(entry@) {
                Some(p) => seq![p],
                None => Seq::empty(),
            }));
            assert(texts(files@) =~= files_before + match ask(entry@) {
                Some(p) => seq![p],
                None => Seq::empty(),
            });
            i += 1;
        }
        assert(entry_views(entries@).take(entries.len() as int) =~= entry_views(entries@));
        files
    }

    /// Offers the content of a file that the scan asked for, with the time
    /// the file was last modified: the file becomes a candidate if its
    /// content is accepted.
    pub fn offer(&mut self, path: &str, content: &[u8], modified: u64)
        ensures
            final(self)@.target == old(self)@.target,
            final(self)@.max_depth == old(self)@.max_depth,
            final(self)@.pending == old(self)@.pending,
            final(self)@.candidates == if accepted(old(self)@.target, content@) {
                old(self)@.candidates.push(CandidateView { path: path@, modified })
            } else {
                old(self)@.candidates
            },
    {
        if accepts_content(self.target, content) {
            self.candidates.push(Candidate { path: path.to_owned(), modified });
            assert(self@.candidates =~= old(self)@.candidates.push(
                CandidateView { path: path@, modified },
            ));
        }
    }

    /// The file that the scan selects among the candidates found so far.
    pub fn selected(&self) -> (path: Option<String>)
        ensures
            opt_text(path) == most_recent(self@.candidates),
    {
        select_most_recent(&self.candidates)
    }
}

/// A scan for the configuration below `root`.
pub fn scan_for_config(root: &str, max_depth: usize) -> (scan: Scan)
    ensures
        scan@ == (ScanView {
            target: Target::Config,
            max_depth,
            pending: seq![(root@, 0usize)],
            candidates: Seq::empty(),
        }),
{
    Scan::new(Target::Config, root, max_depth)
}

/// A scan for the profile list below `root`.
pub fn scan_for_profile_list(root: &str, max_depth: usize) -> (scan: Scan)
    ensures
        scan@ == (ScanView {
            target: Target::ProfileList,
            max_depth,
            pending: seq![(root@, 0usize)],
            candidates: Seq::empty(),
        }),
{
    Scan::new(Target::ProfileList, root, max_depth)
}

/// What a search does next.
#[derive(Debug, Clone)]
pub enum Step {
    /// Run this probe and report what it gave.
    Try(Probe),
    /// The search is over, with this result.
    Done(Option<String>),
}

pub enum StepView {
    Try(ProbeView),
    Done(Option<Seq<char>>),
}

impl View for Step {
    type V = StepView;

    open spec fn view(&self) -> StepView {
        match self {
            Step::Try(p) => StepView::Try(p@),
            Step::Done(r) => StepView::Done(opt_text(*r)),
        }
    }
}

/// A search: the probes in the order they are tried, how many of them
/// failed, and the path where one succeeded.
#[derive(Debug, Clone)]
pub struct Search {
    pub plan: Vec<Probe>,
    pub tried: usize,
    pub found: Option<String>,
}

impl Search {
    /// What the search does next, as far as the plan and the reports so far
    /// decide it: the result where a probe succeeded or none is left, else
    /// the first probe that has not failed. A probe that names its answer
    /// is the result without a look at the disk.
    pub open spec fn step(&self) -> StepView {
        if self.found is Some {
            StepView::Done(opt_text(self.found))
        } else if self.tried < self.plan@.len() {
            match self.plan@[self.tried as int] {
                Probe::Found(path) => StepView::Done(Some(path@)),
                probe => StepView::Try(probe@),
            }
        } else {
            StepView::Done(None)
        }
    }

    /// A search that has tried nothing yet.
    pub fn new(plan: Vec<Probe>) -> (search: Search)
        ensures
            search.plan == plan,
            search.tried == 0,
            search.found is None,
    {
        Search { plan, tried: 0, found: None }
    }

    /// What to do next: the first probe that has not failed, or the result.
    pub fn next(&self) -> (step: Step)
        ensures
            step@ == self.step(),
    {
        match &self.found {
            Some(path) => Step::Done(Some(path.clone())),
            None => {
                if self.tried < self.plan.len() {
                    match &self.plan[self.tried] {
                        Probe::Found(path) => Step::Done(Some(path.clone())),
                        probe => Step::Try(probe.clone_probe()),
                    }
                } else {
                    Step::Done(None)
                }
            },
        }
    }

    /// Reports what the probe handed out by [`Search::next`] gave: a path
    /// ends the search, and a failure makes the next probe the current one.
    /// A report that no probe asked for is passed over.
    pub fn report(&mut self, outcome: Option<String>)
        ensures
            final(self).plan == old(self).plan,
            old(self).step() is Try ==> final(self).found == outcome && final(self).tried == if outcome is Some {
                old(self).tried
            } else {
                (old(self).tried + 1) as usize
            },
            !(old(self).step() is Try) ==> final(self).found == old(self).found && final(self).tried == old(self).tried,
    {
        let waiting = match self.next() {
            Step::Try(_) => true,
            Step::Done(_) => false,
        };
        if waiting {
            if outcome.is_none() && self.tried < self.plan.len() {
                self.tried = self.tried + 1;
            }
            self.found = outcome;
        }
    }
}

/// What is on disk, as far as a search looks at it: the paths that name
/// regular files, those of them whose content is accepted, and what a scan
/// below a directory selects.
pub struct Disk {
    pub files: Set<Seq<char>>,
    pub accepted: Set<Seq<char>>,
    pub scans: Map<(Seq<char>, usize), Seq<char>>,
}

/// What a probe gives on a disk.
pub open spec fn probe_outcome(probe: ProbeView, disk: Disk) -> Option<Seq<char>> {
    match probe {
        ProbeView::Found(path) => Some(path),
        ProbeView::File(path) => if disk.files.contains(path) {
            Some(path)
        } else {
            None
        },
        ProbeView::Content(path) => if disk.files.contains(path) && disk.accepted.contains(path) {
            Some(path)
        } else {
            None
        },
        ProbeView::Scan(root, depth) => if disk.scans.dom().contains((root, depth)) {
            Some(disk.scans[(root, depth)])
        } else {
            None
        },
    }
}

/// What the first probe of a plan that succeeds gives.
pub open spec fn first_success(plan: Seq<ProbeView>, disk: Disk) -> Option<Seq<char>>
    decreases plan.len(),
{
    if plan.len() == 0 {
        None
    } else if probe_outcome(plan[0], disk) is Some {
        probe_outcome(plan[0], disk)
    } else {
        first_success(plan.drop_first(), disk)
    }
}

impl Search {
    /// The search after a report, as [`Search::report`] leaves it.
    pub open spec fn reported(self, outcome: Option<String>) -> Search {
        if self.step() is Try {
            Search {
                plan: self.plan,
                tried: if outcome is Some {
                    self.tried
                } else {
                    (self.tried + 1) as usize
                },
                found: outcome,
            }
        } else {
            self
        }
    }

    /// The result that a search comes to when each probe that it hands out
    /// is answered with what the probe gives on the disk.
    pub open spec fn result_on(self, disk: Disk) -> Option<Seq<char>>
        decreases self.plan@.len() - self.tried,
    {
        match self.step() {
            StepView::Done(found) => found,
            StepView::Try(probe) => match probe_outcome(probe, disk) {
                Some(path) => Some(path),
                None => if self.tried < self.plan@.len() && self.tried < usize::MAX {
                    (Search {
                        plan: self.plan,
                        tried: (self.tried + 1) as usize,
                        found: None,
                    }).result_on(disk)
                } else {
                    None
                },
            },
        }
    }
}

/// A report of a path ends the search with that path, and a report of a
/// failure leaves the search with one more probe that has failed.
pub proof fn lemma_report(search: Search, outcome: Option<String>)
    requires
        search.step() is Try,
    ensures
        outcome is Some ==> search.reported(outcome).step() == StepView::Done(opt_text(outcome)),
        outcome is None ==> search.reported(outcome) == (Search {
            plan: search.plan,
            tried: (search.tried + 1) as usize,
            found: None,
        }),
{
}

/// The first match wins: a search that is answered truthfully comes to what
/// the first of its remaining probes that succeeds gives, and to nothing
/// where none succeeds.
pub proof fn lemma_first_match_wins(search: Search, disk: Disk)
    requires
        search.found is None,
        search.tried <= search.plan@.len() <= usize::MAX,
    ensures
        search.result_on(disk) == first_success(
            probe_views(search.plan@).skip(search.tried as int),
            disk,
        ),
    decreases search.plan@.len() - search.tried,
{
    let rest = probe_views(search.plan@).skip(search.tried as int);
    if search.tried < search.plan@.len() {
        let next = Search {
            plan: search.plan,
            tried: (search.tried + 1) as usize,
            found: None,
        };
        lemma_first_match_wins(next, disk);
        assert(rest[0] == search.plan@[search.tried as int]@);
        assert(rest.drop_first() =~= probe_views(search.plan@).skip(search.tried + 1));
    }
}

impl Probe {
    /// A copy of the probe.
    pub fn clone_probe(&self) -> (copy: Probe)
        ensures
            copy@ == self@,
    {
        match self {
            Probe::Found(p) => Probe::Found(p.clone()),
            Probe::File(p) => Probe::File(p.clone()),
            Probe::Content(p) => Probe::Content(p.clone()),
            Probe::Scan(p, depth) => Probe::Scan(p.clone(), *depth),
        }
    }
}

} // verus!

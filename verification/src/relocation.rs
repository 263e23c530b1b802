//! Moving a content file between a cluster's active folder and its disabled
//! folder.
//!
//! A file may sit under its plain name, under the name it was asked for, or
//! under its name with the disabled suffix. Moving it tries each of these
//! places in a fixed order: copy it to the destination, and when the copy
//! took (or the destination already holds the file) remove the source. The
//! decisions live here as a run that is told what each file system step saw
//! and answers with the next step; the caller performs the steps, for each
//! candidate game directory in turn.

use vstd::prelude::*;
use crate::text::{lemma_trim_end_matches_stable, opt_view, trim_end_matches, trim_end_matches_spec};

verus! {

/// Name of a content file with every trailing `.disabled` removed.
pub open spec fn clean_name_spec(file_name: Seq<char>) -> Seq<char> {
    trim_end_matches_spec(file_name, ".disabled"@)
}

/// Name of the disabled copy of a content file.
pub open spec fn disabled_name_spec(file_name: Seq<char>) -> Seq<char> {
    clean_name_spec(file_name) + ".disabled"@
}

/// Names settle at once: the plain name of a plain name, and the plain name
/// of a disabled name, are the plain name itself; the disabled name of a
/// disabled name is that disabled name.
pub proof fn lemma_names_settle(file_name: Seq<char>)
    ensures
        clean_name_spec(clean_name_spec(file_name)) == clean_name_spec(file_name),
        clean_name_spec(disabled_name_spec(file_name)) == clean_name_spec(file_name),
        disabled_name_spec(disabled_name_spec(file_name)) == disabled_name_spec(file_name),
{
    reveal_strlit(".disabled");
    lemma_trim_end_matches_stable(file_name, ".disabled"@);
}

/// `file_name` without its trailing `.disabled` suffixes.
pub fn clean_file_name(file_name: &str) -> (r: &str)
    ensures
        r@ == clean_name_spec(file_name@),
{
    proof {
        reveal_strlit(".disabled");
    }
    trim_end_matches(file_name, ".disabled")
}

/// `file_name` with exactly one `.disabled` suffix.
pub fn disabled_file_name(file_name: &str) -> (r: String)
    ensures
        r@ == disabled_name_spec(file_name@),
{
    let clean = clean_file_name(file_name);
    let mut r = String::from_str(clean);
    r.append(".disabled");
    r
}

/// Candidate game directories that survive removing consecutive duplicates,
/// by position: the first one, and each one that differs from the one before.
pub open spec fn dedup_keeps(keys: Seq<Option<Seq<char>>>, i: int) -> bool {
    i == 0 || keys[i] != keys[i - 1]
}

/// The views of the candidate directories.
pub open spec fn keys_view(keys: Seq<Option<String>>) -> Seq<Option<Seq<char>>> {
    keys.map_values(|k: Option<String>| opt_view(k))
}

fn same_key(a: &Option<String>, b: &Option<String>) -> (r: bool)
    ensures
        r == (opt_view(*a) == opt_view(*b)),
{
    match (a, b) {
        (Some(x), Some(y)) => x.eq(y),
        (None, None) => true,
        _ => false,
    }
}

/// Positions of the candidate directories that are kept when consecutive
/// duplicates are removed, in increasing order. Each directory is given by
/// its path components joined with `/`, or `None` where it could not be
/// found.
pub fn dedup_candidates(keys: &Vec<Option<String>>) -> (kept: Vec<usize>)
    ensures
        forall|k: int| 0 <= k < kept@.len() ==> #[trigger] kept@[k] < keys@.len(),
        forall|k: int, l: int| 0 <= k < l < kept@.len() ==> kept@[k] < kept@[l],
        forall|i: int|
            0 <= i < keys@.len() ==> (kept@.contains(i as usize) <==> #[trigger] dedup_keeps(keys_view(keys@), i)),
{
    let ghost views = keys_view(keys@);
    let mut kept: Vec<usize> = Vec::new();
    let n = keys.len();
    let mut i: usize = 0;
    while i < n
        invariant
            n == keys@.len(),
            views == keys_view(keys@),
            i <= n,
            forall|k: int| 0 <= k < kept@.len() ==> #[trigger] kept@[k] < i,
            forall|k: int, l: int| 0 <= k < l < kept@.len() ==> kept@[k] < kept@[l],
            forall|j: int|
                0 <= j < i ==> (kept@.contains(j as usize) <==> #[trigger] dedup_keeps(views, j)),
        decreases n - i,
    {
        let keep = i == 0 || !same_key(&keys[i], &keys[i - 1]);
        let ghost before = kept@;
        if keep {
            kept.push(i);
        }
        proof {
            assert forall|j: int| 0 <= j < i + 1 implies (kept@.contains(j as usize)
                <==> #[trigger] dedup_keeps(views, j)) by {
                if j < i {
                    if kept@.contains(j as usize) {
                        let k = choose|k: int| 0 <= k < kept@.len() && kept@[k] == j as usize;
                        if keep && k == before.len() {
                        } else {
                            assert(before[k] == j as usize);
                        }
                    }
                    if before.contains(j as usize) {
                        let k = choose|k: int| 0 <= k < before.len() && before[k] == j as usize;
                        assert(kept@[k] == j as usize);
                    }
                } else {
                    if keep {
                        assert(kept@[kept@.len() - 1] == i);
                    } else {
                        assert(!before.contains(i));
                    }
                }
            }
        }
        i = i + 1;
    }
    kept
}

/// Which manifest entries stay when the entry at `relative` is pruned: each
/// entry stays exactly when its path differs from `relative`.
pub fn manifest_entries_to_keep(paths: &Vec<String>, relative: &str) -> (keep: Vec<bool>)
    ensures
        keep@.len() == paths@.len(),
        forall|i: int| 0 <= i < paths@.len() ==> #[trigger] keep@[i] == (paths@[i]@ != relative@),
{
    let target = String::from_str(relative);
    let mut keep: Vec<bool> = Vec::new();
    let n = paths.len();
    let mut i: usize = 0;
    while i < n
        invariant
            n == paths@.len(),
            target@ == relative@,
            i <= n,
            keep@.len() == i,
            forall|j: int| 0 <= j < i ==> #[trigger] keep@[j] == (paths@[j]@ != relative@),
        decreases n - i,
    {
        keep.push(!paths[i].eq(&target));
        i = i + 1;
    }
    keep
}

/// One of the two content folders of a cluster.
#[derive(Clone, Copy, Debug, PartialEq, Eq, Structural)]
pub enum Folder {
    /// The folder the game loads content from.
    Active,
    /// The folder that holds content switched off.
    Disabled,
}

/// A file by its folder and its name in that folder.
#[derive(Debug)]
pub struct FileRef {
    pub folder: Folder,
    pub name: String,
}

impl View for FileRef {
    type V = (Folder, Seq<char>);

    open spec fn view(&self) -> (Folder, Seq<char>) {
        (self.folder, self.name@)
    }
}

/// The places to look for a file, where to put it, and whether a place that
/// turns out to be the destination itself is passed over.
#[derive(Debug)]
pub struct Relocation {
    pub sources: Vec<FileRef>,
    pub dest: FileRef,
    pub skip_dest_source: bool,
}

/// The views of the places to look.
pub open spec fn sources_view(r: &Relocation) -> Seq<(Folder, Seq<char>)> {
    r.sources@.map_values(|f: FileRef| f@)
}

/// Where switching `file_name` off looks: the active folder, under the name
/// given, the plain name and the disabled name.
pub open spec fn disable_sources_spec(file_name: Seq<char>) -> Seq<(Folder, Seq<char>)> {
    seq![
        (Folder::Active, file_name),
        (Folder::Active, clean_name_spec(file_name)),
        (Folder::Active, disabled_name_spec(file_name)),
    ]
}

/// Where switching `file_name` off puts it: the disabled folder, under its
/// plain name.
pub open spec fn disable_dest_spec(file_name: Seq<char>) -> (Folder, Seq<char>) {
    (Folder::Disabled, clean_name_spec(file_name))
}

/// Where switching `file_name` on looks: the disabled folder, under the name
/// given, the plain name and the disabled name, then the active folder under
/// the disabled name.
pub open spec fn enable_sources_spec(file_name: Seq<char>) -> Seq<(Folder, Seq<char>)> {
    seq![
        (Folder::Disabled, file_name),
        (Folder::Disabled, clean_name_spec(file_name)),
        (Folder::Disabled, disabled_name_spec(file_name)),
        (Folder::Active, disabled_name_spec(file_name)),
    ]
}

/// Where switching `file_name` on puts it: the active folder, under its plain
/// name.
pub open spec fn enable_dest_spec(file_name: Seq<char>) -> (Folder, Seq<char>) {
    (Folder::Active, clean_name_spec(file_name))
}

/// Switching on undoes switching off, as far as the plans go: whichever name
/// of the file switching on is asked for (the one switching off was given, or
/// its plain or disabled name), it looks where switching off put the file,
/// and puts it back at the plain name in the active folder, where switching
/// off looked for it; and the reverse holds too.
pub proof fn lemma_plans_undo_each_other(file_name: Seq<char>, asked: Seq<char>)
    requires
        asked == file_name || asked == clean_name_spec(file_name) || asked == disabled_name_spec(
            file_name,
        ),
    ensures
        enable_sources_spec(asked).contains(disable_dest_spec(file_name)),
        enable_dest_spec(asked) == disable_sources_spec(file_name)[1],
        disable_sources_spec(asked).contains(enable_dest_spec(file_name)),
        disable_dest_spec(asked) == enable_sources_spec(file_name)[1],
{
    lemma_names_settle(file_name);
    assert(clean_name_spec(asked) == clean_name_spec(file_name));
    assert(enable_sources_spec(asked)[1] == disable_dest_spec(file_name));
    assert(disable_sources_spec(asked)[1] == enable_dest_spec(file_name));
}

fn file_ref(folder: Folder, name: &str) -> (f: FileRef)
    ensures
        f@ == (folder, name@),
{
    FileRef { folder, name: String::from_str(name) }
}

/// Switching a file off: look in the active folder under the name given, the
/// plain name and the disabled name, and move it to the disabled folder under
/// its plain name.
pub fn plan_disable(file_name: &str) -> (plan: Relocation)
    ensures
        sources_view(&plan) == disable_sources_spec(file_name@),
        plan.dest@ == disable_dest_spec(file_name@),
        !plan.skip_dest_source,
{
    let clean = clean_file_name(file_name);
    let disabled = disabled_file_name(file_name);
    let mut sources: Vec<FileRef> = Vec::new();
    sources.push(file_ref(Folder::Active, file_name));
    sources.push(file_ref(Folder::Active, clean));
    sources.push(file_ref(Folder::Active, disabled.as_str()));
    let plan = Relocation { sources, dest: file_ref(Folder::Disabled, clean), skip_dest_source: false };
    assert(sources_view(&plan) =~= seq![
        (Folder::Active, file_name@),
        (Folder::Active, clean_name_spec(file_name@)),
        (Folder::Active, disabled_name_spec(file_name@)),
    ]);
    plan
}

/// Switching a file on: look in the disabled folder under the name given, the
/// plain name and the disabled name, then in the active folder under the
/// disabled name, and move it to the active folder under its plain name,
/// passing over a place that is the destination itself.
pub fn plan_enable(file_name: &str) -> (plan: Relocation)
    ensures
        sources_view(&plan) == enable_sources_spec(file_name@),
        plan.dest@ == enable_dest_spec(file_name@),
        plan.skip_dest_source,
{
    let clean = clean_file_name(file_name);
    let disabled = disabled_file_name(file_name);
    let mut sources: Vec<FileRef> = Vec::new();
    sources.push(file_ref(Folder::Disabled, file_name));
    sources.push(file_ref(Folder::Disabled, clean));
    sources.push(file_ref(Folder::Disabled, disabled.as_str()));
    sources.push(file_ref(Folder::Active, disabled.as_str()));
    let plan = Relocation { sources, dest: file_ref(Folder::Active, clean), skip_dest_source: true };
    assert(sources_view(&plan) =~= seq![
        (Folder::Disabled, file_name@),
        (Folder::Disabled, clean_name_spec(file_name@)),
        (Folder::Disabled, disabled_name_spec(file_name@)),
        (Folder::Active, disabled_name_spec(file_name@)),
    ]);
    plan
}

/// The file system step that a run asks for next, for the source at the
/// given position of its plan.
#[derive(Clone, Copy, Debug, PartialEq, Eq, Structural)]
pub enum Step {
    /// Find out whether the source exists, and whether it is the destination.
    Probe { source: usize },
    /// Copy the source to the destination.
    Copy { source: usize },
    /// The copy failed: find out whether the destination exists anyway.
    CheckDest { source: usize },
    /// Remove the source entry, then find out whether it is still there.
    Remove { source: usize },
    /// Remove the source file directly.
    ForceRemove { source: usize },
    /// Every source of this directory has been dealt with.
    DirDone,
}

/// What the step that a run asked for saw.
#[derive(Clone, Copy, Debug, PartialEq, Eq, Structural)]
pub enum Observation {
    Probed { exists: bool, is_dest: bool },
    Copied { ok: bool },
    DestChecked { exists: bool },
    Removed { still_there: bool },
    ForceRemoved,
}

/// The step after the source at `i` is done with.
pub open spec fn after_source(count: nat, i: usize) -> Step {
    if i + 1 < count {
        Step::Probe { source: (i + 1) as usize }
    } else {
        Step::DirDone
    }
}

/// The step and the moved flag that follow `obs` in `step`. An observation
/// that does not answer the step asked for changes nothing.
pub open spec fn advance(count: nat, skip_dest: bool, step: Step, moved: bool, obs: Observation) -> (
    Step,
    bool,
) {
    match (step, obs) {
        (Step::Probe { source }, Observation::Probed { exists, is_dest }) => {
            if exists && !(skip_dest && is_dest) {
                (Step::Copy { source }, moved)
            } else {
                (after_source(count, source), moved)
            }
        },
        (Step::Copy { source }, Observation::Copied { ok }) => {
            if ok {
                (Step::Remove { source }, moved)
            } else {
                (Step::CheckDest { source }, moved)
            }
        },
        (Step::CheckDest { source }, Observation::DestChecked { exists }) => {
            if exists {
                (Step::Remove { source }, moved)
            } else {
                (after_source(count, source), moved)
            }
        },
        (Step::Remove { source }, Observation::Removed { still_there }) => {
            if still_there {
                (Step::ForceRemove { source }, true)
            } else {
                (after_source(count, source), true)
            }
        },
        (Step::ForceRemove { source }, Observation::ForceRemoved) => (
            after_source(count, source),
            moved,
        ),
        _ => (step, moved),
    }
}

/// The source a step is about, if any.
pub open spec fn step_source(step: Step) -> Option<usize> {
    match step {
        Step::Probe { source } => Some(source),
        Step::Copy { source } => Some(source),
        Step::CheckDest { source } => Some(source),
        Step::Remove { source } => Some(source),
        Step::ForceRemove { source } => Some(source),
        Step::DirDone => None,
    }
}

/// The step is about a source among the first `count`, or is the end.
pub open spec fn step_fits(count: nat, step: Step) -> bool {
    match step_source(step) {
        Some(i) => i < count,
        None => true,
    }
}

/// The step that starts a directory.
pub open spec fn first_step(count: nat) -> Step {
    if count > 0 {
        Step::Probe { source: 0 }
    } else {
        Step::DirDone
    }
}

/// Steps at most left before the directory is done: five for each source
/// after the current one, plus those left for the current one.
pub open spec fn work_left(count: nat, step: Step) -> nat {
    match step {
        Step::Probe { source } => ((count - source - 1) * 5 + 5) as nat,
        Step::Copy { source } => ((count - source - 1) * 5 + 4) as nat,
        Step::CheckDest { source } => ((count - source - 1) * 5 + 3) as nat,
        Step::Remove { source } => ((count - source - 1) * 5 + 2) as nat,
        Step::ForceRemove { source } => ((count - source - 1) * 5 + 1) as nat,
        Step::DirDone => 0,
    }
}

/// A move in progress, over the candidate game directories one after the
/// other.
#[derive(Debug)]
pub struct RelocationRun {
    count: usize,
    skip_dest: bool,
    step: Step,
    moved: bool,
}

impl RelocationRun {
    /// Number of places the plan looks at.
    pub closed spec fn count_view(&self) -> nat {
        self.count as nat
    }

    /// Whether a place that is the destination is passed over.
    pub closed spec fn skip_dest_view(&self) -> bool {
        self.skip_dest
    }

    /// The step the run asks for.
    pub closed spec fn step_view(&self) -> Step {
        self.step
    }

    /// Whether some source has been moved so far.
    pub closed spec fn moved_view(&self) -> bool {
        self.moved
    }

    /// The run's step is about a source of its plan.
    #[verifier::type_invariant]
    spec fn step_in_plan(self) -> bool {
        step_fits(self.count as nat, self.step)
    }

    /// A run over `plan`, at its first source in the first directory, with
    /// nothing moved yet.
    pub fn new(plan: &Relocation) -> (run: Self)
        ensures
            step_fits(run.count_view(), run.step_view()),
            run.count_view() == plan.sources@.len(),
            run.skip_dest_view() == plan.skip_dest_source,
            run.step_view() == first_step(plan.sources@.len()),
            !run.moved_view(),
    {
        let count = plan.sources.len();
        RelocationRun {
            count,
            skip_dest: plan.skip_dest_source,
            step: if count > 0 {
                Step::Probe { source: 0 }
            } else {
                Step::DirDone
            },
            moved: false,
        }
    }

    /// The step the run asks for.
    pub fn step(&self) -> (s: Step)
        ensures
            s == self.step_view(),
    {
        self.step
    }

    /// Whether some source has been moved in any directory so far.
    pub fn moved(&self) -> (m: bool)
        ensures
            m == self.moved_view(),
    {
        self.moved
    }

    /// Starts over at the first source, in the next directory; what has been
    /// moved stays moved.
    pub fn next_directory(&mut self)
        ensures
            step_fits(final(self).count_view(), final(self).step_view()),
            final(self).count_view() == old(self).count_view(),
            final(self).skip_dest_view() == old(self).skip_dest_view(),
            final(self).moved_view() == old(self).moved_view(),
            final(self).step_view() == first_step(old(self).count_view()),
    {
        self.step = if self.count > 0 {
            Step::Probe { source: 0 }
        } else {
            Step::DirDone
        };
    }

    fn after(&self, source: usize) -> (s: Step)
        requires
            source < self.count,
        ensures
            s == after_source(self.count as nat, source),
    {
        if source + 1 < self.count {
            Step::Probe { source: source + 1 }
        } else {
            Step::DirDone
        }
    }

    /// Takes in what the step asked for saw.
    pub fn observe(&mut self, obs: Observation)
        ensures
            step_fits(final(self).count_view(), final(self).step_view()),
            final(self).count_view() == old(self).count_view(),
            final(self).skip_dest_view() == old(self).skip_dest_view(),
            (final(self).step_view(), final(self).moved_view()) == advance(
                old(self).count_view(),
                old(self).skip_dest_view(),
                old(self).step_view(),
                old(self).moved_view(),
                obs,
            ),
    {
        proof {
            use_type_invariant(&*self);
        }
        match (self.step, obs) {
            (Step::Probe { source }, Observation::Probed { exists, is_dest }) => {
                if exists && !(self.skip_dest && is_dest) {
                    self.step = Step::Copy { source };
                } else {
                    self.step = self.after(source);
                }
            },
            (Step::Copy { source }, Observation::Copied { ok }) => {
                if ok {
                    self.step = Step::Remove { source };
                } else {
                    self.step = Step::CheckDest { source };
                }
            },
            (Step::CheckDest { source }, Observation::DestChecked { exists }) => {
                if exists {
                    self.step = Step::Remove { source };
                } else {
                    self.step = self.after(source);
                }
            },
            (Step::Remove { source }, Observation::Removed { still_there }) => {
                self.moved = true;
                if still_there {
                    self.step = Step::ForceRemove { source };
                } else {
                    self.step = self.after(source);
                }
            },
            (Step::ForceRemove { source }, Observation::ForceRemoved) => {
                self.step = self.after(source);
            },
            _ => {},
        }
    }
}

/// Whether `obs` answers `step`.
pub open spec fn answers(step: Step, obs: Observation) -> bool {
    match (step, obs) {
        (Step::Probe { .. }, Observation::Probed { .. }) => true,
        (Step::Copy { .. }, Observation::Copied { .. }) => true,
        (Step::CheckDest { .. }, Observation::DestChecked { .. }) => true,
        (Step::Remove { .. }, Observation::Removed { .. }) => true,
        (Step::ForceRemove { .. }, Observation::ForceRemoved) => true,
        _ => false,
    }
}

/// What every step of a move keeps: a file once moved stays counted as
/// moved; a file counts as moved only once its source was removed, and its
/// source is removed only after the copy took or the destination was found to
/// hold the file already; a source found to be the destination is never
/// copied when the plan passes over it; every answered step brings the
/// directory closer to done, and an observation that answers nothing changes
/// nothing.
pub proof fn lemma_relocation_step(
    count: nat,
    skip_dest: bool,
    step: Step,
    moved: bool,
    obs: Observation,
)
    requires
        count <= usize::MAX,
        step_fits(count, step),
    ensures
        ({
            let (next, now_moved) = advance(count, skip_dest, step, moved, obs);
            &&& moved ==> now_moved
            &&& now_moved && !moved ==> step is Remove && obs is Removed
            &&& next is Remove && !(step is Remove) ==> (step is Copy && obs
                == Observation::Copied { ok: true }) || (step is CheckDest && obs
                == Observation::DestChecked { exists: true })
            &&& (skip_dest && step is Probe && (obs matches Observation::Probed {
                is_dest: true,
                ..
            })) ==> !(next is Copy)
            &&& step_fits(count, next)
            &&& answers(step, obs) ==> work_left(count, next) < work_left(count, step)
            &&& !answers(step, obs) ==> next == step && now_moved == moved
        }),
{
}

/// The source reaching the destination is what gets it removed: once its
/// copy took, or the destination turned out to hold the file already, the
/// next step removes that very source, with nothing else changed; a removal
/// counts the file as moved and goes on to the next source (or ends the
/// directory after the last one); and a source that is missing, or is a
/// destination the plan passes over, is left for the next one untouched.
pub proof fn lemma_reaching_the_destination_removes_the_source(
    count: nat,
    skip_dest: bool,
    i: usize,
    moved: bool,
    is_dest: bool,
    still_there: bool,
)
    requires
        i < count,
    ensures
        advance(count, skip_dest, Step::Copy { source: i }, moved, Observation::Copied { ok: true })
            == (Step::Remove { source: i }, moved),
        advance(
            count,
            skip_dest,
            Step::CheckDest { source: i },
            moved,
            Observation::DestChecked { exists: true },
        ) == (Step::Remove { source: i }, moved),
        advance(count, skip_dest, Step::Copy { source: i }, moved, Observation::Copied { ok: false })
            == (Step::CheckDest { source: i }, moved),
        !(skip_dest && is_dest) ==> advance(
            count,
            skip_dest,
            Step::Probe { source: i },
            moved,
            Observation::Probed { exists: true, is_dest },
        ) == (Step::Copy { source: i }, moved),
        ({
            let next = if i + 1 < count {
                Step::Probe { source: (i + 1) as usize }
            } else {
                Step::DirDone
            };
            &&& advance(
                count,
                skip_dest,
                Step::Remove { source: i },
                moved,
                Observation::Removed { still_there: false },
            ) == (next, true)
            &&& advance(
                count,
                skip_dest,
                Step::Remove { source: i },
                moved,
                Observation::Removed { still_there: true },
            ) == (Step::ForceRemove { source: i }, true)
            &&& advance(
                count,
                skip_dest,
                Step::ForceRemove { source: i },
                moved,
                Observation::ForceRemoved,
            ) == (next, moved)
            &&& advance(
                count,
                skip_dest,
                Step::Probe { source: i },
                moved,
                Observation::Probed { exists: false, is_dest },
            ) == (next, moved)
            &&& (skip_dest && is_dest) ==> advance(
                count,
                skip_dest,
                Step::Probe { source: i },
                moved,
                Observation::Probed { exists: true, is_dest },
            ) == (next, moved)
            &&& advance(
                count,
                skip_dest,
                Step::CheckDest { source: i },
                moved,
                Observation::DestChecked { exists: false },
            ) == (next, moved)
        }),
{
}

/// A source found where the plan looks, whose copy takes and whose removal
/// succeeds, is moved: after those three steps the file counts as moved and
/// the run is at the next source, or done with the directory after the last.
pub proof fn lemma_a_found_source_is_moved(
    count: nat,
    skip_dest: bool,
    i: usize,
    moved: bool,
)
    requires
        i < count,
    ensures
        run_after(
            count,
            skip_dest,
            Step::Probe { source: i },
            moved,
            seq![
                Observation::Probed { exists: true, is_dest: false },
                Observation::Copied { ok: true },
                Observation::Removed { still_there: false },
            ],
        ) == (if i + 1 < count {
            Step::Probe { source: (i + 1) as usize }
        } else {
            Step::DirDone
        }, true),
{
    let o = seq![
        Observation::Probed { exists: true, is_dest: false },
        Observation::Copied { ok: true },
        Observation::Removed { still_there: false },
    ];
    let start = Step::Probe { source: i };
    let o2 = o.drop_last();
    let o1 = o2.drop_last();
    assert(o1.drop_last() =~= Seq::<Observation>::empty());
    assert(o1.last() == o[0] && o2.last() == o[1] && o1.len() == 1 && o2.len() == 2);
    assert(run_after(count, skip_dest, start, moved, o1.drop_last()) == (start, moved));
    assert(run_after(count, skip_dest, start, moved, o1) == (Step::Copy { source: i }, moved));
    assert(run_after(count, skip_dest, start, moved, o2) == (Step::Remove { source: i }, moved));
}

/// The step and the moved flag after the observations `obs`, one after the
/// other, starting from `step` and `moved`.
pub open spec fn run_after(
    count: nat,
    skip_dest: bool,
    step: Step,
    moved: bool,
    obs: Seq<Observation>,
) -> (Step, bool)
    decreases obs.len(),
{
    if obs.len() == 0 {
        (step, moved)
    } else {
        let (s, m) = run_after(count, skip_dest, step, moved, obs.drop_last());
        advance(count, skip_dest, s, m, obs.last())
    }
}

/// The step and the moved flag before the `k`-th observation.
pub open spec fn state_at(
    count: nat,
    skip_dest: bool,
    step: Step,
    moved: bool,
    obs: Seq<Observation>,
    k: int,
) -> (Step, bool) {
    run_after(count, skip_dest, step, moved, obs.take(k))
}

/// The `k`-th observation removed a source.
pub open spec fn removed_at(
    count: nat,
    skip_dest: bool,
    step: Step,
    moved: bool,
    obs: Seq<Observation>,
    k: int,
) -> bool {
    state_at(count, skip_dest, step, moved, obs, k).0 is Remove && obs[k] is Removed
}

/// The `k`-th observation found the source at `i` (and it is not a
/// destination that the plan passes over).
pub open spec fn found_at(
    count: nat,
    skip_dest: bool,
    step: Step,
    moved: bool,
    obs: Seq<Observation>,
    k: int,
    i: usize,
) -> bool {
    &&& state_at(count, skip_dest, step, moved, obs, k).0 == Step::Probe { source: i }
    &&& obs[k] matches Observation::Probed { exists: true, is_dest }
    &&& !(skip_dest && is_dest)
}

/// The `k`-th observation saw the source at `i` reach the destination: its
/// copy took, or the destination turned out to hold the file already.
pub open spec fn took_at(
    count: nat,
    skip_dest: bool,
    step: Step,
    moved: bool,
    obs: Seq<Observation>,
    k: int,
    i: usize,
) -> bool {
    ||| state_at(count, skip_dest, step, moved, obs, k).0 == Step::Copy { source: i } && obs[k]
        == Observation::Copied { ok: true }
    ||| state_at(count, skip_dest, step, moved, obs, k).0 == Step::CheckDest { source: i }
        && obs[k] == Observation::DestChecked { exists: true }
}

proof fn lemma_state_step(
    count: nat,
    skip_dest: bool,
    step: Step,
    moved: bool,
    obs: Seq<Observation>,
    k: int,
)
    requires
        0 <= k < obs.len(),
    ensures
        state_at(count, skip_dest, step, moved, obs, k + 1) == advance(
            count,
            skip_dest,
            state_at(count, skip_dest, step, moved, obs, k).0,
            state_at(count, skip_dest, step, moved, obs, k).1,
            obs[k],
        ),
{
    assert(obs.take(k + 1).drop_last() =~= obs.take(k));
}

/// What holds before the `k`-th observation of a directory begun at a probe
/// (or with nothing to look at).
pub open spec fn run_history(
    count: nat,
    skip_dest: bool,
    step: Step,
    moved: bool,
    obs: Seq<Observation>,
    k: int,
) -> bool {
    let (s, m) = state_at(count, skip_dest, step, moved, obs, k);
    &&& step_fits(count, s)
    &&& m == (moved || exists|j: int|
        0 <= j < k && #[trigger] removed_at(count, skip_dest, step, moved, obs, j))
    &&& match step_source(s) {
        Some(i) => !(s is Probe) ==> exists|j: int|
            0 <= j < k && #[trigger] found_at(count, skip_dest, step, moved, obs, j, i),
        None => true,
    }
    &&& match s {
        Step::Remove { source } => exists|j: int|
            0 <= j < k && #[trigger] took_at(count, skip_dest, step, moved, obs, j, source),
        _ => true,
    }
}

proof fn lemma_run_history(
    count: nat,
    skip_dest: bool,
    step: Step,
    moved: bool,
    obs: Seq<Observation>,
    k: int,
)
    requires
        count <= usize::MAX,
        step_fits(count, step),
        step is Probe || step is DirDone,
        0 <= k <= obs.len(),
    ensures
        run_history(count, skip_dest, step, moved, obs, k),
    decreases k,
{
    if k == 0 {
        assert(obs.take(0) =~= Seq::<Observation>::empty());
    } else {
        let p = k - 1;
        lemma_run_history(count, skip_dest, step, moved, obs, p);
        lemma_state_step(count, skip_dest, step, moved, obs, p);
        let (s, m) = state_at(count, skip_dest, step, moved, obs, p);
        let o = obs[p];
        lemma_relocation_step(count, skip_dest, s, m, o);
        let (s2, m2) = state_at(count, skip_dest, step, moved, obs, k);
        // the moved flag
        if removed_at(count, skip_dest, step, moved, obs, p) {
            assert(m2);
        } else {
            assert(m2 == m);
            if exists|j: int| 0 <= j < k && #[trigger] removed_at(count, skip_dest, step, moved, obs, j) {
                let j = choose|j: int| 0 <= j < k && #[trigger] removed_at(count, skip_dest, step, moved, obs, j);
                assert(j < p);
            }
        }
        // the source was found
        match step_source(s2) {
            Some(i) => {
                if !(s2 is Probe) {
                    if found_at(count, skip_dest, step, moved, obs, p, i) {
                    } else {
                        assert(step_source(s) == Some(i) && !(s is Probe));
                        let j = choose|j: int| 0 <= j < p && #[trigger] found_at(count, skip_dest, step, moved, obs, j, i);
                        assert(found_at(count, skip_dest, step, moved, obs, j, i));
                    }
                }
            },
            None => {},
        }
        // the source reached the destination before its removal
        match s2 {
            Step::Remove { source } => {
                if took_at(count, skip_dest, step, moved, obs, p, source) {
                } else {
                    assert(s == s2);
                    let j = choose|j: int| 0 <= j < p && #[trigger] took_at(count, skip_dest, step, moved, obs, j, source);
                    assert(took_at(count, skip_dest, step, moved, obs, j, source));
                }
            },
            _ => {},
        }
    }
}

/// A whole directory of a move, begun at its first probe: the run ends up
/// counting a file as moved exactly when it already did or some source was
/// removed; a source is removed only after its copy took or the destination
/// was found to hold the file, and it is copied or removed only after it was
/// found and was not a destination that the plan passes over. So when no
/// source is found, nothing is copied or removed and nothing counts as moved.
pub proof fn lemma_relocation_run(
    count: nat,
    skip_dest: bool,
    moved: bool,
    obs: Seq<Observation>,
)
    requires
        count <= usize::MAX,
    ensures
        ({
            let start = first_step(count);
            let (_, now_moved) = run_after(count, skip_dest, start, moved, obs);
            &&& now_moved == (moved || exists|k: int|
                0 <= k < obs.len() && #[trigger] removed_at(count, skip_dest, start, moved, obs, k))
            &&& forall|k: int|
                0 <= k < obs.len() && #[trigger] removed_at(count, skip_dest, start, moved, obs, k)
                    ==> {
                    let i = step_source(state_at(count, skip_dest, start, moved, obs, k).0)->0;
                    &&& exists|j: int|
                        0 <= j < k && #[trigger] took_at(count, skip_dest, start, moved, obs, j, i)
                    &&& exists|j: int|
                        0 <= j < k && #[trigger] found_at(count, skip_dest, start, moved, obs, j, i)
                }
            &&& forall|k: int|
                0 <= k < obs.len() && (#[trigger] state_at(count, skip_dest, start, moved, obs, k).0 is Copy)
                    ==> exists|j: int|
                    0 <= j < k && #[trigger] found_at(
                        count,
                        skip_dest,
                        start,
                        moved,
                        obs,
                        j,
                        step_source(state_at(count, skip_dest, start, moved, obs, k).0)->0,
                    )
        }),
{
    let start = first_step(count);
    lemma_run_history(count, skip_dest, start, moved, obs, obs.len() as int);
    assert(obs.take(obs.len() as int) =~= obs);
    assert forall|k: int|
        0 <= k < obs.len() && #[trigger] removed_at(count, skip_dest, start, moved, obs, k) implies {
        let i = step_source(state_at(count, skip_dest, start, moved, obs, k).0)->0;
        &&& exists|j: int| 0 <= j < k && #[trigger] took_at(count, skip_dest, start, moved, obs, j, i)
        &&& exists|j: int| 0 <= j < k && #[trigger] found_at(count, skip_dest, start, moved, obs, j, i)
    } by {
        lemma_run_history(count, skip_dest, start, moved, obs, k);
    }
    assert forall|k: int|
        0 <= k < obs.len() && (#[trigger] state_at(count, skip_dest, start, moved, obs, k).0 is Copy)
            implies exists|j: int|
        0 <= j < k && #[trigger] found_at(
            count,
            skip_dest,
            start,
            moved,
            obs,
            j,
            step_source(state_at(count, skip_dest, start, moved, obs, k).0)->0,
        ) by {
        lemma_run_history(count, skip_dest, start, moved, obs, k);
    }
}

} // verus!

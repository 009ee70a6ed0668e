//! One run of the monitor as a state machine: the run says what is to be done
//! next, the caller does it and reports what came of it.

use crate::candidate::{
    append_sites, candidates_of, fetchable_files, fetchable_of, is_fetchable, FileView, GitHubFile,
    GitHubProject, ProjectView,
};
use crate::merge::{keys_distinct, merge_onion_sites, reconciles, sorted_by_title};
use crate::probe::{outcome_of, record_probe, ProbeAttempt};
use crate::site::{CheckResult, OnionSite, ResultView, SiteView};
use crate::timestamp::Timestamp;
use vstd::prelude::*;

verus! {

/// Seconds that one probe may take before the checker gives it up.
pub const PROBE_TIMEOUT_SECS: u64 = 60;

/// Seconds to wait after each probe.
pub const PROBE_PAUSE_SECS: u64 = 2;

/// How far a run has come: what it is waiting for.
#[derive(Clone, Copy, Debug, PartialEq, Eq)]
pub enum Phase {
    /// For the listing of the directory.
    Listing,
    /// For the content of the next file of candidates.
    Fetching,
    /// For the registry on file.
    Loading,
    /// For the reconciled registry to be written.
    SavingMerged,
    /// For the probe of the next service.
    Probing,
    /// For the pause after a probe to pass.
    Pausing,
    /// For the probed registry to be written.
    SavingProbed,
    /// For the report to be written.
    Reporting,
    /// For nothing: the run is complete.
    Done,
    /// For nothing: the run was given up.
    Failed,
}

/// What the caller is to do next.
#[derive(Clone, Copy, Debug, PartialEq, Eq)]
pub enum Action {
    /// Fetch the listing of the directory.
    ListDirectory,
    /// Fetch and read the file with this index among the run's files.
    FetchFile(usize),
    /// Read the registry on file.
    LoadSnapshot,
    /// Write the run's snapshot over the registry on file.
    SaveSnapshot,
    /// Probe the service with this index among the run's sites.
    Probe(usize),
    /// Wait for this many seconds.
    Pause(u64),
    /// Write the report on the run's results.
    WriteReport,
    /// Nothing is left to do.
    Finish,
    /// Give the run up with an error.
    Abort,
}

/// What came of the action that the run asked for.
#[derive(Debug, PartialEq, Eq)]
pub enum Event {
    /// The entries of the directory's listing, or none if it could not be had.
    Listed(Option<Vec<GitHubFile>>),
    /// The entries of the file, or none if it could not be had or read.
    Fetched(Option<Vec<GitHubProject>>),
    /// The records on file, or none if the file is missing or malformed.
    Loaded(Option<Vec<OnionSite>>),
    /// Whether the snapshot was written.
    Saved(bool),
    /// How the probe ended, the milliseconds it took, and when it ended.
    Probed { attempt: ProbeAttempt, elapsed_ms: u64, now: Timestamp },
    /// The pause has passed.
    Paused,
    /// Whether the report was written.
    Written(bool),
}

/// An event as mathematical values. What could not be had counts as empty.
pub ghost enum EventView {
    Listed(Seq<FileView>),
    Fetched(Seq<ProjectView>),
    Loaded(Seq<SiteView>),
    Saved(bool),
    Probed { attempt: ProbeAttempt, elapsed_ms: u64, now: Timestamp },
    Paused,
    Written(bool),
}

impl View for Event {
    type V = EventView;

    open spec fn view(&self) -> EventView {
        match *self {
            Event::Listed(Some(files)) => EventView::Listed(files.deep_view()),
            Event::Listed(None) => EventView::Listed(Seq::empty()),
            Event::Fetched(Some(projects)) => EventView::Fetched(projects.deep_view()),
            Event::Fetched(None) => EventView::Fetched(Seq::empty()),
            Event::Loaded(Some(sites)) => EventView::Loaded(sites.deep_view()),
            Event::Loaded(None) => EventView::Loaded(Seq::empty()),
            Event::Saved(written) => EventView::Saved(written),
            Event::Probed { attempt, elapsed_ms, now } => EventView::Probed {
                attempt,
                elapsed_ms,
                now,
            },
            Event::Paused => EventView::Paused,
            Event::Written(written) => EventView::Written(written),
        }
    }
}

/// The state of a run, as mathematical values.
pub ghost struct RunView {
    pub phase: Phase,
    /// The files of candidates in the directory.
    pub files: Seq<FileView>,
    /// How many of the files were asked for so far.
    pub fetched: nat,
    /// The candidates that the files gave so far.
    pub candidates: Seq<SiteView>,
    /// The reconciled registry, as it was before any probe.
    pub sites: Seq<SiteView>,
    /// The results of the probes so far, in the order of `sites`.
    pub results: Seq<ResultView>,
}

/// Whether `after` is `before` after one probe: the same service, with the
/// status that it had as its previous status, and a time of last check.
pub open spec fn follows(before: SiteView, after: SiteView) -> bool {
    &&& after.title == before.title
    &&& after.name == before.name
    &&& after.onion_address == before.onion_address
    &&& after.prev_status == before.status
    &&& after.last_checked is Some
}

/// What holds of a run in every state.
pub open spec fn well_formed(run: RunView) -> bool {
    &&& run.fetched <= run.files.len()
    &&& run.phase is Listing ==> run.fetched == 0
    &&& run.phase is Fetching ==> run.fetched < run.files.len()
    &&& forall|i: int| 0 <= i < run.files.len() ==> is_fetchable(#[trigger] run.files[i])
    &&& run.results.len() <= run.sites.len()
    &&& run.phase is Probing ==> run.results.len() < run.sites.len()
    &&& (run.phase is SavingProbed || run.phase is Reporting || run.phase is Done)
        ==> run.results.len() == run.sites.len()
    &&& (run.phase is Listing || run.phase is Fetching || run.phase is Loading) ==> run.sites.len()
        == 0
    &&& run.phase is SavingMerged ==> run.results.len() == 0
    &&& forall|i: int|
        0 <= i < run.results.len() ==> follows(run.sites[i], (#[trigger] run.results[i]).site)
    &&& keys_distinct(run.sites)
    &&& sorted_by_title(run.sites)
}

/// The state in which a run starts.
pub open spec fn initial() -> RunView {
    RunView {
        phase: Phase::Listing,
        files: Seq::empty(),
        fetched: 0,
        candidates: Seq::empty(),
        sites: Seq::empty(),
        results: Seq::empty(),
    }
}

/// What a run in this state asks for.
pub open spec fn action_of(run: RunView) -> Action {
    match run.phase {
        Phase::Listing => Action::ListDirectory,
        Phase::Fetching => Action::FetchFile(run.fetched as usize),
        Phase::Loading => Action::LoadSnapshot,
        Phase::SavingMerged => Action::SaveSnapshot,
        Phase::Probing => Action::Probe(run.results.len() as usize),
        Phase::Pausing => Action::Pause(PROBE_PAUSE_SECS),
        Phase::SavingProbed => Action::SaveSnapshot,
        Phase::Reporting => Action::WriteReport,
        Phase::Done => Action::Finish,
        Phase::Failed => Action::Abort,
    }
}

/// The registry as the run has it: each service that was probed as the probe
/// left it, the others as reconciling left them.
pub open spec fn registry_of(run: RunView) -> Seq<SiteView> {
    Seq::new(
        run.sites.len(),
        |i: int|
            if i < run.results.len() {
                run.results[i].site
            } else {
                run.sites[i]
            },
    )
}

/// Whether `event` takes a run from `pre` to `post`.
///
/// A listing or a file that could not be had gives no candidates and the run
/// goes on; so does a registry that could not be read, which counts as empty.
/// A snapshot or a report that could not be written ends the run, and so does
/// an event that the run did not ask for. A complete run stays as it is.
pub open spec fn steps(pre: RunView, event: EventView, post: RunView) -> bool {
    match (pre.phase, event) {
        (Phase::Listing, EventView::Listed(listing)) => post == RunView {
            phase: if fetchable_of(listing).len() > 0 {
                Phase::Fetching
            } else {
                Phase::Loading
            },
            files: fetchable_of(listing),
            ..pre
        },
        (Phase::Fetching, EventView::Fetched(projects)) => post == RunView {
            phase: if pre.fetched + 1 < pre.files.len() {
                Phase::Fetching
            } else {
                Phase::Loading
            },
            fetched: pre.fetched + 1,
            candidates: pre.candidates + candidates_of(projects),
            ..pre
        },
        (Phase::Loading, EventView::Loaded(existing)) => {
            &&& post == RunView { phase: Phase::SavingMerged, sites: post.sites, ..pre }
            &&& reconciles(post.sites, pre.candidates, existing)
        },
        (Phase::SavingMerged, EventView::Saved(true)) => post == RunView {
            phase: if pre.sites.len() > 0 {
                Phase::Probing
            } else {
                Phase::SavingProbed
            },
            ..pre
        },
        (Phase::Probing, EventView::Probed { attempt, elapsed_ms, now }) => post == RunView {
            phase: Phase::Pausing,
            results: pre.results.push(
                outcome_of(pre.sites[pre.results.len() as int], attempt, elapsed_ms, now),
            ),
            ..pre
        },
        (Phase::Pausing, EventView::Paused) => post == RunView {
            phase: if pre.results.len() < pre.sites.len() {
                Phase::Probing
            } else {
                Phase::SavingProbed
            },
            ..pre
        },
        (Phase::SavingProbed, EventView::Saved(true)) => post == RunView {
            phase: Phase::Reporting,
            ..pre
        },
        (Phase::Reporting, EventView::Written(true)) => post == RunView { phase: Phase::Done, ..pre },
        (Phase::Done, _) => post == pre,
        _ => post == RunView { phase: Phase::Failed, ..pre },
    }
}

/// A step leaves a run well formed.
pub proof fn lemma_step_keeps_well_formed(pre: RunView, event: EventView, post: RunView)
    requires
        well_formed(pre),
        steps(pre, event, post),
    ensures
        well_formed(post),
{
    match (pre.phase, event) {
        (Phase::Listing, EventView::Listed(listing)) => {
            assert forall|i: int| 0 <= i < post.files.len() implies is_fetchable(
                #[trigger] post.files[i],
            ) by {
                listing.lemma_filter_pred(|file: FileView| is_fetchable(file), i);
            }
        },
        (Phase::Probing, EventView::Probed { attempt, elapsed_ms, now }) => {
            assert forall|i: int| 0 <= i < post.results.len() implies follows(
                post.sites[i],
                (#[trigger] post.results[i]).site,
            ) by {
                if i < pre.results.len() {
                    assert(post.results[i] == pre.results[i]);
                }
            }
        },
        _ => {},
    }
}

/// A run has one next state: an event takes it to one state only.
pub proof fn lemma_step_is_determined(pre: RunView, event: EventView, one: RunView, other: RunView)
    requires
        steps(pre, event, one),
        steps(pre, event, other),
    ensures
        one == other,
{
    match (pre.phase, event) {
        (Phase::Loading, EventView::Loaded(existing)) => {
            crate::merge_laws::lemma_reconciled_is_determined(
                pre.candidates,
                existing,
                one.sites,
                other.sites,
            );
        },
        _ => {},
    }
}

/// Probing changes neither which services the registry holds nor their
/// order: the registry of a run has the titles, keys and addresses of its
/// sites, so it is sorted by title and its keys are distinct.
pub proof fn lemma_registry_keeps_identity(run: RunView)
    requires
        well_formed(run),
    ensures
        registry_of(run).len() == run.sites.len(),
        forall|i: int|
            0 <= i < run.sites.len() ==> (#[trigger] registry_of(run)[i]).title == run.sites[i].title
                && registry_of(run)[i].name == run.sites[i].name && registry_of(run)[i].onion_address
                == run.sites[i].onion_address,
        sorted_by_title(registry_of(run)),
        keys_distinct(registry_of(run)),
{
    let registry = registry_of(run);
    assert forall|i: int| 0 <= i < run.sites.len() implies (#[trigger] registry[i]).title
        == run.sites[i].title && registry[i].name == run.sites[i].name && registry[i].onion_address
        == run.sites[i].onion_address by {
        if i < run.results.len() {
            assert(follows(run.sites[i], run.results[i].site));
        }
    }
    assert forall|i: int, j: int| 0 <= i <= j < registry.len() implies crate::text::lex_le(
        (#[trigger] registry[i]).title,
        (#[trigger] registry[j]).title,
    ) by {
        assert(crate::text::lex_le(run.sites[i].title, run.sites[j].title));
    }
    assert forall|i: int, j: int| 0 <= i < registry.len() && 0 <= j < registry.len() && i != j implies (
    #[trigger] registry[i]).name != (#[trigger] registry[j]).name by {
        assert(run.sites[i].name != run.sites[j].name);
    }
}

/// One run of the monitor.
pub struct Run {
    phase: Phase,
    files: Vec<GitHubFile>,
    fetched: usize,
    candidates: Vec<OnionSite>,
    sites: Vec<OnionSite>,
    results: Vec<CheckResult>,
}

impl View for Run {
    type V = RunView;

    closed spec fn view(&self) -> RunView {
        RunView {
            phase: self.phase,
            files: self.files.deep_view(),
            fetched: self.fetched as nat,
            candidates: self.candidates.deep_view(),
            sites: self.sites.deep_view(),
            results: self.results.deep_view(),
        }
    }
}

impl Run {
    #[verifier::type_invariant]
    spec fn sound(self) -> bool {
        well_formed(self@)
    }

    /// A run at its start.
    pub fn new() -> (run: Run)
        ensures
            run@ == initial(),
            well_formed(run@),
    {
        let run = Run {
            phase: Phase::Listing,
            files: Vec::new(),
            fetched: 0,
            candidates: Vec::new(),
            sites: Vec::new(),
            results: Vec::new(),
        };
        proof {
            assert(run@.files =~= Seq::<FileView>::empty());
            assert(run@.candidates =~= Seq::<SiteView>::empty());
            assert(run@.sites =~= Seq::<SiteView>::empty());
            assert(run@.results =~= Seq::<ResultView>::empty());
        }
        run
    }

    /// What the run is waiting for.
    pub fn phase(&self) -> (phase: Phase)
        ensures
            phase == self@.phase,
            well_formed(self@),
    {
        proof {
            use_type_invariant(self);
        }
        self.phase
    }

    /// What the caller is to do next. A file to fetch is one of the run's
    /// files and says where its content is; a service to probe is the first
    /// of the run's sites that has no result yet.
    pub fn action(&self) -> (action: Action)
        ensures
            action == action_of(self@),
            well_formed(self@),
            action matches Action::FetchFile(i) ==> i < self@.files.len()
                && self@.files[i as int].download_url is Some,
            action matches Action::Probe(i) ==> i == self@.results.len() && i < self@.sites.len(),
    {
        proof {
            use_type_invariant(self);
        }
        match self.phase {
            Phase::Listing => Action::ListDirectory,
            Phase::Fetching => Action::FetchFile(self.fetched),
            Phase::Loading => Action::LoadSnapshot,
            Phase::SavingMerged => Action::SaveSnapshot,
            Phase::Probing => Action::Probe(self.results.len()),
            Phase::Pausing => Action::Pause(PROBE_PAUSE_SECS),
            Phase::SavingProbed => Action::SaveSnapshot,
            Phase::Reporting => Action::WriteReport,
            Phase::Done => Action::Finish,
            Phase::Failed => Action::Abort,
        }
    }

    /// The files of candidates in the directory.
    pub fn files(&self) -> (files: &Vec<GitHubFile>)
        ensures
            files.deep_view() == self@.files,
    {
        &self.files
    }

    /// The reconciled registry, as it was before any probe.
    pub fn sites(&self) -> (sites: &Vec<OnionSite>)
        ensures
            sites.deep_view() == self@.sites,
    {
        &self.sites
    }

    /// The results of the probes so far.
    pub fn results(&self) -> (results: &Vec<CheckResult>)
        ensures
            results.deep_view() == self@.results,
    {
        &self.results
    }

    /// The registry to write: each service that was probed as the probe left
    /// it, the others as reconciling left them.
    pub fn snapshot(&self) -> (registry: Vec<OnionSite>)
        ensures
            registry.deep_view() == registry_of(self@),
    {
        proof {
            use_type_invariant(self);
        }
        let mut registry: Vec<OnionSite> = Vec::new();
        let mut i: usize = 0;
        while i < self.sites.len()
            invariant
                i <= self.sites.len(),
                self.results.len() <= self.sites.len(),
                registry.deep_view() == registry_of(self@).take(i as int),
            decreases self.sites.len() - i,
        {
            let ghost before = registry.deep_view();
            if i < self.results.len() {
                registry.push(self.results[i].site.clone());
            } else {
                registry.push(self.sites[i].clone());
            }
            proof {
                assert(registry.deep_view() =~= before.push(registry_of(self@)[i as int]));
                assert(registry_of(self@).take(i + 1) =~= registry_of(self@).take(i as int).push(
                    registry_of(self@)[i as int],
                ));
            }
            i += 1;
        }
        proof {
            assert(registry_of(self@).take(self.sites.len() as int) =~= registry_of(self@));
        }
        registry
    }

    /// Takes the run one step on: `event` is what came of the action that the
    /// run asked for.
    pub fn advance(self, event: Event) -> (next: Run)
        ensures
            steps(self@, event@, next@),
            well_formed(next@),
    {
        proof {
            use_type_invariant(&self);
        }
        let ghost pre = self@;
        let ghost happened = event@;
        let Run { phase, files, fetched, mut candidates, sites, mut results } = self;
        let next = match (phase, event) {
            (Phase::Listing, Event::Listed(listing)) => {
                let listing = match listing {
                    Some(listing) => listing,
                    None => {
                        let none = Vec::new();
                        proof {
                            assert(none.deep_view() =~= Seq::<FileView>::empty());
                        }
                        none
                    },
                };
                proof {
                    assert(happened == EventView::Listed(listing.deep_view()));
                }
                let files = fetchable_files(listing);
                let phase = if files.len() > 0 {
                    Phase::Fetching
                } else {
                    Phase::Loading
                };
                Run { phase, files, fetched, candidates, sites, results }
            },
            (Phase::Fetching, Event::Fetched(projects)) => {
                let projects = match projects {
                    Some(projects) => projects,
                    None => {
                        let none = Vec::new();
                        proof {
                            assert(none.deep_view() =~= Seq::<ProjectView>::empty());
                        }
                        none
                    },
                };
                proof {
                    assert(happened == EventView::Fetched(projects.deep_view()));
                    assert(pre.fetched < pre.files.len());
                    assert(files.len() == pre.files.len());
                }
                append_sites(&mut candidates, &projects);
                let fetched = fetched + 1;
                let phase = if fetched < files.len() {
                    Phase::Fetching
                } else {
                    Phase::Loading
                };
                Run { phase, files, fetched, candidates, sites, results }
            },
            (Phase::Loading, Event::Loaded(existing)) => {
                let existing = match existing {
                    Some(existing) => existing,
                    None => {
                        let none = Vec::new();
                        proof {
                            assert(none.deep_view() =~= Seq::<SiteView>::empty());
                        }
                        none
                    },
                };
                proof {
                    assert(happened == EventView::Loaded(existing.deep_view()));
                }
                let offered = copy_sites(&candidates);
                let sites = merge_onion_sites(offered, existing);
                let next = Run {
                    phase: Phase::SavingMerged,
                    files,
                    fetched,
                    candidates,
                    sites,
                    results,
                };
                proof {
                    assert(next@ == RunView {
                        phase: Phase::SavingMerged,
                        sites: next@.sites,
                        ..pre
                    });
                }
                next
            },
            (Phase::SavingMerged, Event::Saved(true)) => {
                proof {
                    assert(sites.len() == pre.sites.len());
                }
                let phase = if sites.len() > 0 {
                    Phase::Probing
                } else {
                    Phase::SavingProbed
                };
                Run { phase, files, fetched, candidates, sites, results }
            },
            (Phase::Probing, Event::Probed { attempt, elapsed_ms, now }) => {
                let ghost before = results.deep_view();
                proof {
                    assert(results.len() == pre.results.len());
                    assert(sites.len() == pre.sites.len());
                }
                let result = record_probe(&sites[results.len()], attempt, elapsed_ms, now);
                let ghost added = result@;
                results.push(result);
                proof {
                    assert(results.deep_view() =~= before.push(added));
                    assert(sites[before.len() as int]@ == pre.sites[pre.results.len() as int]);
                }
                Run { phase: Phase::Pausing, files, fetched, candidates, sites, results }
            },
            (Phase::Pausing, Event::Paused) => {
                proof {
                    assert(results.len() == pre.results.len());
                    assert(sites.len() == pre.sites.len());
                }
                let phase = if results.len() < sites.len() {
                    Phase::Probing
                } else {
                    Phase::SavingProbed
                };
                Run { phase, files, fetched, candidates, sites, results }
            },
            (Phase::SavingProbed, Event::Saved(true)) => Run {
                phase: Phase::Reporting,
                files,
                fetched,
                candidates,
                sites,
                results,
            },
            (Phase::Reporting, Event::Written(true)) => Run {
                phase: Phase::Done,
                files,
                fetched,
                candidates,
                sites,
                results,
            },
            (Phase::Done, _) => Run { phase: Phase::Done, files, fetched, candidates, sites, results },
            _ => Run { phase: Phase::Failed, files, fetched, candidates, sites, results },
        };
        proof {
            assert(steps(pre, happened, next@));
            lemma_step_keeps_well_formed(pre, happened, next@);
        }
        next
    }
}

/// A copy of each of `sites`, in their order.
pub fn copy_sites(sites: &Vec<OnionSite>) -> (copies: Vec<OnionSite>)
    ensures
        copies.deep_view() == sites.deep_view(),
{
    let mut copies: Vec<OnionSite> = Vec::new();
    let mut i: usize = 0;
    while i < sites.len()
        invariant
            i <= sites.len(),
            copies.deep_view() == sites.deep_view().take(i as int),
        decreases sites.len() - i,
    {
        let ghost before = copies.deep_view();
        copies.push(sites[i].clone());
        proof {
            assert(copies.deep_view() =~= before.push(sites[i as int]@));
            assert(sites.deep_view().take(i + 1) =~= sites.deep_view().take(i as int).push(
                sites[i as int]@,
            ));
        }
        i += 1;
    }
    proof {
        assert(sites.deep_view().take(sites.len() as int) =~= sites.deep_view());
    }
    copies
}

} // verus!

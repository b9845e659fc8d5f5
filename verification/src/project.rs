//! The workspace in which the trials of a plan are built, and the list of
//! binaries that its manifest declares.

use crate::expand::{expanded_views, ExpandedTest, ExpandedView};
use crate::order::texts;
use crate::plan::Mode;
use crate::span::Span;
use vstd::prelude::*;

verus! {

/// The surge recorded for an entry that has none.
pub const NO_SURGE: isize = -1;

/// The workspace of one run.
#[derive(Debug)]
pub struct Project {
    /// Where the workspace lies.
    pub dir: String,
    /// Where the crate under test lies.
    pub source_dir: String,
    /// Where build products go.
    pub target_dir: String,
    /// The workspace's package name: the crate's name and `-tests`.
    pub name: String,
    /// Whether the plan holds an entry of fixed duration.
    pub has_run_at_least: bool,
    /// Whether the plan holds a chaotic entry.
    pub has_chaotic: bool,
    /// For each trial its surge bound, `NO_SURGE` where it has none or the
    /// bound does not fit.
    pub surges: Vec<isize>,
    /// For each trial its fixed duration, where it has one.
    pub durations: Vec<Option<Span>>,
    /// The features to build with, where any were asked for.
    pub features: Option<Vec<String>>,
    /// The root of the enclosing workspace.
    pub workspace: String,
}

/// The package name of the workspace for `crate_name`.
pub open spec fn project_name(crate_name: Seq<char>) -> Seq<char> {
    crate_name + "-tests"@
}

/// The surge bound recorded for a trial.
pub open spec fn surge_of(mode: Mode) -> isize {
    match mode {
        Mode::Available { .. } => NO_SURGE,
        Mode::Chaotic { max_surge, .. } => if max_surge <= isize::MAX {
            max_surge as isize
        } else {
            NO_SURGE
        },
    }
}

/// The fixed duration recorded for a trial.
pub open spec fn duration_of(mode: Mode) -> Option<Span> {
    match mode {
        Mode::Available { duration } => Some(duration),
        Mode::Chaotic { .. } => None,
    }
}

/// Whether some trial of the plan has a fixed duration.
pub open spec fn any_available(plan: Seq<ExpandedView>) -> bool {
    exists|i: int| 0 <= i < plan.len() && (#[trigger] plan[i]).mode is Available
}

/// Whether some trial of the plan is chaotic.
pub open spec fn any_chaotic(plan: Seq<ExpandedView>) -> bool {
    exists|i: int| 0 <= i < plan.len() && (#[trigger] plan[i]).mode is Chaotic
}

/// The features among `asked` that the crate declares, in the order asked.
pub open spec fn declared_features(asked: Seq<Seq<char>>, declared: Seq<Seq<char>>) -> Seq<
    Seq<char>,
> {
    asked.filter(|f: Seq<char>| declared.contains(f))
}

fn is_declared(feature: &String, declared: &Vec<String>) -> (r: bool)
    ensures
        r == texts(declared@).contains(feature@),
{
    let mut i: usize = 0;
    while i < declared.len()
        invariant
            i <= declared.len(),
            forall|k: int| 0 <= k < i ==> #[trigger] texts(declared@)[k] != feature@,
        decreases declared.len() - i,
    {
        if declared[i] == *feature {
            assert(texts(declared@)[i as int] == feature@);
            return true;
        }
        assert(texts(declared@)[i as int] == declared@[i as int]@);
        i += 1;
    }
    false
}

/// The features among `asked` that the crate declares.
pub fn retain_declared(asked: &Vec<String>, declared: &Vec<String>) -> (kept: Vec<String>)
    ensures
        texts(kept@) == declared_features(texts(asked@), texts(declared@)),
{
    let ghost keep = |f: Seq<char>| texts(declared@).contains(f);
    let mut kept: Vec<String> = Vec::new();
    let mut i: usize = 0;
    proof {
        reveal(Seq::filter);
        assert(texts(asked@).take(0) =~= Seq::<Seq<char>>::empty());
        assert(texts(kept@) =~= texts(asked@).take(0).filter(keep));
    }
    while i < asked.len()
        invariant
            i <= asked.len(),
            keep == (|f: Seq<char>| texts(declared@).contains(f)),
            texts(kept@) == texts(asked@).take(i as int).filter(keep),
        decreases asked.len() - i,
    {
        let ghost before = texts(kept@);
        proof {
            let seen = texts(asked@).take(i as int);
            assert(texts(asked@).take(i + 1) =~= seen.push(asked@[i as int]@));
            seen.lemma_filter_push(asked@[i as int]@, keep);
        }
        if is_declared(&asked[i], declared) {
            kept.push(asked[i].clone());
            assert(texts(kept@) =~= before.push(asked@[i as int]@));
        }
        i += 1;
    }
    assert(texts(asked@).take(asked.len() as int) =~= texts(asked@));
    kept
}

impl Project {
    /// The workspace for the plan `trials` of the crate `crate_name`. The
    /// directories are taken as given; `features` are the features asked for
    /// and `declared` those that the crate declares.
    pub fn prepare(
        crate_name: &str,
        dir: String,
        source_dir: String,
        target_dir: String,
        workspace: String,
        features: Option<Vec<String>>,
        declared: &Vec<String>,
        trials: &Vec<ExpandedTest>,
    ) -> (project: Project)
        ensures
            project.dir == dir,
            project.source_dir == source_dir,
            project.target_dir == target_dir,
            project.workspace == workspace,
            project.name@ == project_name(crate_name@),
            project.has_run_at_least == any_available(expanded_views(trials@)),
            project.has_chaotic == any_chaotic(expanded_views(trials@)),
            project.surges@.len() == trials@.len(),
            project.durations@.len() == trials@.len(),
            forall|i: int|
                0 <= i < trials@.len() ==> #[trigger] project.surges@[i] == surge_of(
                    trials@[i].test.mode,
                ),
            forall|i: int|
                0 <= i < trials@.len() ==> #[trigger] project.durations@[i] == duration_of(
                    trials@[i].test.mode,
                ),
            project.features is Some <==> features is Some,
            features matches Some(asked) ==> texts(project.features.unwrap()@)
                == declared_features(texts(asked@), texts(declared@)),
    {
        let ghost plan = expanded_views(trials@);
        let mut has_run_at_least = false;
        let mut has_chaotic = false;
        let mut surges: Vec<isize> = Vec::new();
        let mut durations: Vec<Option<Span>> = Vec::new();
        let mut i: usize = 0;
        while i < trials.len()
            invariant
                i <= trials.len(),
                plan == expanded_views(trials@),
                surges@.len() == i,
                durations@.len() == i,
                has_run_at_least == any_available(plan.take(i as int)),
                has_chaotic == any_chaotic(plan.take(i as int)),
                forall|k: int|
                    0 <= k < i ==> #[trigger] surges@[k] == surge_of(trials@[k].test.mode),
                forall|k: int|
                    0 <= k < i ==> #[trigger] durations@[k] == duration_of(
                        trials@[k].test.mode,
                    ),
            decreases trials.len() - i,
        {
            let mode = trials[i].test.mode;
            proof {
                let seen = plan.take(i as int);
                let grown = plan.take(i + 1);
                assert(grown[i as int].mode == mode);
                assert forall|k: int| 0 <= k < i implies grown[k] == seen[k] by {}
                if any_available(seen) {
                    let w = choose|w: int| 0 <= w < seen.len() && (#[trigger] seen[w]).mode
                        is Available;
                    assert(grown[w].mode is Available);
                }
                if any_chaotic(seen) {
                    let w = choose|w: int| 0 <= w < seen.len() && (#[trigger] seen[w]).mode
                        is Chaotic;
                    assert(grown[w].mode is Chaotic);
                }
                if any_available(grown) && !(mode is Available) {
                    let w = choose|w: int| 0 <= w < grown.len() && (#[trigger] grown[w]).mode
                        is Available;
                    assert(seen[w].mode is Available);
                }
                if any_chaotic(grown) && !(mode is Chaotic) {
                    let w = choose|w: int| 0 <= w < grown.len() && (#[trigger] grown[w]).mode
                        is Chaotic;
                    assert(seen[w].mode is Chaotic);
                }
            }
            match mode {
                Mode::Available { duration } => {
                    has_run_at_least = true;
                    surges.push(NO_SURGE);
                    durations.push(Some(duration));
                },
                Mode::Chaotic { max_surge, .. } => {
                    has_chaotic = true;
                    if max_surge <= isize::MAX as usize {
                        surges.push(max_surge as isize);
                    } else {
                        surges.push(NO_SURGE);
                    }
                    durations.push(None);
                },
            }
            i += 1;
        }
        assert(plan.take(trials.len() as int) =~= plan);
        let mut name = crate_name.to_owned();
        name.append("-tests");
        let kept = match &features {
            Some(asked) => Some(retain_declared(asked, declared)),
            None => None,
        };
        Project {
            dir,
            source_dir,
            target_dir,
            name,
            has_run_at_least,
            has_chaotic,
            surges,
            durations,
            features: kept,
            workspace,
        }
    }
}

/// One binary of the workspace's manifest.
#[derive(Debug)]
pub struct Bin {
    pub name: String,
    /// The source file, relative to the crate under test, or `main.rs` for
    /// the workspace's own binary.
    pub path: String,
}

/// The mathematical value of a `Bin`.
pub struct BinView {
    pub name: Seq<char>,
    pub path: Seq<char>,
}

impl View for Bin {
    type V = BinView;

    open spec fn view(&self) -> BinView {
        BinView { name: self.name@, path: self.path@ }
    }
}

/// The binaries that the manifest of a workspace declares: its own, named
/// as the workspace, and one for each trial that was expanded without
/// error, named by the trial's id.
pub open spec fn manifest_bins(name: Seq<char>, plan: Seq<ExpandedView>) -> Seq<BinView> {
    seq![BinView { name, path: "main.rs"@ }] + plan.filter(
        |t: ExpandedView| t.error is None,
    ).map_values(|t: ExpandedView| BinView { name: t.name, path: t.path })
}

/// The feature table of the workspace's manifest: each feature that the
/// crate declares switches on that feature of the crate.
pub open spec fn manifest_features(crate_name: Seq<char>, declared: Seq<Seq<char>>) -> Seq<
    (Seq<char>, Seq<char>),
> {
    declared.map_values(|f: Seq<char>| (f, crate_name + "/"@ + f))
}

/// The parts of the workspace's manifest that the plan decides.
#[derive(Debug)]
pub struct Manifest {
    /// The package name.
    pub name: String,
    /// Each feature with what it switches on.
    pub features: Vec<(String, String)>,
    pub bins: Vec<Bin>,
}

/// The values of a list of binaries.
pub open spec fn bin_views(bins: Seq<Bin>) -> Seq<BinView> {
    bins.map_values(|b: Bin| b@)
}

/// The values of a feature table.
pub open spec fn feature_views(features: Seq<(String, String)>) -> Seq<(Seq<char>, Seq<char>)> {
    features.map_values(|f: (String, String)| (f.0@, f.1@))
}

/// The manifest of the workspace `project` for the plan `trials`, for a
/// crate `crate_name` that declares the features `declared`.
pub fn make_manifest(
    crate_name: &str,
    project: &Project,
    declared: &Vec<String>,
    trials: &Vec<ExpandedTest>,
) -> (manifest: Manifest)
    ensures
        manifest.name@ == project.name@,
        feature_views(manifest.features@) == manifest_features(crate_name@, texts(declared@)),
        bin_views(manifest.bins@) == manifest_bins(project.name@, expanded_views(trials@)),
{
    let mut features: Vec<(String, String)> = Vec::new();
    let mut i: usize = 0;
    while i < declared.len()
        invariant
            i <= declared.len(),
            feature_views(features@) == manifest_features(crate_name@, texts(declared@)).take(
                i as int,
            ),
        decreases declared.len() - i,
    {
        let ghost before = feature_views(features@);
        let mut enable = crate_name.to_owned();
        enable.append("/");
        enable.append(declared[i].as_str());
        features.push((declared[i].clone(), enable));
        assert(feature_views(features@) =~= before.push(
            (declared@[i as int]@, crate_name@ + "/"@ + declared@[i as int]@),
        ));
        assert(manifest_features(crate_name@, texts(declared@)).take(i + 1)
            =~= manifest_features(crate_name@, texts(declared@)).take(i as int).push(
            (declared@[i as int]@, crate_name@ + "/"@ + declared@[i as int]@),
        ));
        i += 1;
    }
    assert(manifest_features(crate_name@, texts(declared@)).take(declared.len() as int)
        =~= manifest_features(crate_name@, texts(declared@)));

    let ghost plan = expanded_views(trials@);
    let ghost sound = |t: ExpandedView| t.error is None;
    let ghost as_bin = |t: ExpandedView| BinView { name: t.name, path: t.path };
    let ghost own = BinView { name: project.name@, path: "main.rs"@ };
    let mut bins: Vec<Bin> = Vec::new();
    bins.push(Bin { name: project.name.clone(), path: "main.rs".to_owned() });
    let mut j: usize = 0;
    proof {
        reveal(Seq::filter);
        assert(plan.take(0) =~= Seq::<ExpandedView>::empty());
        assert(bin_views(bins@) =~= seq![own] + plan.take(0).filter(sound).map_values(as_bin));
    }
    while j < trials.len()
        invariant
            j <= trials.len(),
            plan == expanded_views(trials@),
            sound == (|t: ExpandedView| t.error is None),
            as_bin == (|t: ExpandedView| BinView { name: t.name, path: t.path }),
            own == (BinView { name: project.name@, path: "main.rs"@ }),
            bin_views(bins@) == seq![own] + plan.take(j as int).filter(sound).map_values(as_bin),
        decreases trials.len() - j,
    {
        let ghost before = bin_views(bins@);
        let trial = &trials[j];
        proof {
            let seen = plan.take(j as int);
            assert(plan.take(j + 1) =~= seen.push(trial@));
            seen.lemma_filter_push(trial@, sound);
        }
        if trial.error.is_none() {
            bins.push(Bin { name: trial.name.clone(), path: trial.test.path.clone() });
            assert(bin_views(bins@) =~= before.push(as_bin(trial@)));
            assert(before.push(as_bin(trial@)) =~= seq![own] + plan.take(j as int).filter(
                sound,
            ).push(trial@).map_values(as_bin));
        }
        j += 1;
    }
    assert(plan.take(trials.len() as int) =~= plan);
    Manifest { name: project.name.clone(), features, bins }
}

} // verus!

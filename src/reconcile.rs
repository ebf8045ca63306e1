use vstd::prelude::*;

use crate::ident::{same_text, InfoHashSource};
use crate::job::{
    build_job, complete_dir, complete_dir_of, describes, downloading_dir, downloading_dir_of,
    job_name, job_name_of, BlackholeSpec, JobDescription,
};

verus! {

/// A job as the cluster reports it: its name and how many of its pods succeeded.
pub struct JobRecord {
    pub name: Option<String>,
    pub succeeded: Option<i32>,
}

pub open spec fn record_name(j: JobRecord) -> Option<Seq<char>> {
    match j.name {
        Some(n) => Some(n@),
        None => None,
    }
}

/// A job whose download finished.
pub open spec fn has_succeeded(j: JobRecord) -> bool {
    j.succeeded == Some(1i32)
}

/// The first job record with the given name.
pub open spec fn find_job(jobs: Seq<JobRecord>, name: Seq<char>) -> Option<JobRecord>
    decreases jobs.len(),
{
    if jobs.len() == 0 {
        None
    } else if record_name(jobs[0]) == Some(name) {
        Some(jobs[0])
    } else {
        find_job(jobs.drop_first(), name)
    }
}

/// Whether some job record carries the given name.
pub open spec fn has_job(jobs: Seq<JobRecord>, name: Seq<char>) -> bool {
    exists|k: int| 0 <= k < jobs.len() && record_name(#[trigger] jobs[k]) == Some(name)
}

/// What one cycle decides for one intake item.
pub ghost enum Planned {
    /// Create the job that downloads this item.
    Create { info_hash: Seq<char>, file_name: Seq<char> },
    /// Move the finished download into place and remove the intake file.
    Complete { info_hash: Seq<char>, file_name: Seq<char>, path: Seq<char> },
}

/// Whether an item among `earlier` has the given job name.
pub open spec fn named_earlier(earlier: Seq<InfoHashSource>, name: Seq<char>) -> bool {
    exists|k: int| 0 <= k < earlier.len() && job_name_of(#[trigger] earlier[k].info_hash@) == name
}

/// The decision for `s`, given the jobs and the items handled before it in the cycle.
pub open spec fn plan_item(
    s: InfoHashSource,
    earlier: Seq<InfoHashSource>,
    jobs: Seq<JobRecord>,
) -> Seq<Planned> {
    let name = job_name_of(s.info_hash@);
    match find_job(jobs, name) {
        Some(j) => if has_succeeded(j) {
            seq![Planned::Complete { info_hash: s.info_hash@, file_name: s.file_name@, path: s.path@ }]
        } else {
            seq![]
        },
        None => if named_earlier(earlier, name) {
            seq![]
        } else {
            seq![Planned::Create { info_hash: s.info_hash@, file_name: s.file_name@ }]
        },
    }
}

/// The decisions of one cycle over the intake items, in their order.
pub open spec fn plan_of(sources: Seq<InfoHashSource>, jobs: Seq<JobRecord>) -> Seq<Planned>
    decreases sources.len(),
{
    if sources.len() == 0 {
        seq![]
    } else {
        plan_of(sources.drop_last(), jobs) + plan_item(sources.last(), sources.drop_last(), jobs)
    }
}

/// One action of a cycle, ready to carry out.
pub enum Action {
    /// Ask the cluster to create this job.
    Create(JobDescription),
    /// Rename `downloading_dir` to `complete_dir`, then remove `source_path`.
    Complete {
        job_name: String,
        downloading_dir: String,
        complete_dir: String,
        source_path: String,
    },
}

/// An action carries out a planned decision under the given resource hints.
pub open spec fn carries_out(a: Action, p: Planned, config: BlackholeSpec) -> bool {
    match p {
        Planned::Create { info_hash, file_name } => a matches Action::Create(d) && describes(
            d,
            info_hash,
            file_name,
            config@,
        ),
        Planned::Complete { info_hash, file_name, path } => match a {
            Action::Complete { job_name, downloading_dir, complete_dir, source_path } => {
                &&& job_name@ == job_name_of(info_hash)
                &&& downloading_dir@ == downloading_dir_of(file_name)
                &&& complete_dir@ == complete_dir_of(file_name)
                &&& source_path@ == path
            },
            _ => false,
        },
    }
}

pub open spec fn all_wf(sources: Seq<InfoHashSource>) -> bool {
    forall|k: int| 0 <= k < sources.len() ==> (#[trigger] sources[k]).wf()
}

proof fn lemma_find_job(jobs: Seq<JobRecord>, name: Seq<char>)
    ensures
        find_job(jobs, name) is None <==> !has_job(jobs, name),
        find_job(jobs, name) matches Some(j) ==> record_name(j) == Some(name),
    decreases jobs.len(),
{
    if jobs.len() > 0 {
        lemma_find_job(jobs.drop_first(), name);
        if record_name(jobs[0]) != Some(name) {
            if has_job(jobs, name) {
                let k = choose|k: int| 0 <= k < jobs.len() && record_name(#[trigger] jobs[k]) == Some(name);
                assert(jobs.drop_first()[k - 1] == jobs[k]);
            }
            if has_job(jobs.drop_first(), name) {
                let k = choose|k: int|
                    0 <= k < jobs.drop_first().len() && record_name(#[trigger] jobs.drop_first()[k])
                        == Some(name);
                assert(jobs[k + 1] == jobs.drop_first()[k]);
            }
        }
    }
}

/// Whether `name` equals the optional `n`.
fn name_is(n: &Option<String>, name: &String) -> (r: bool)
    ensures
        r == (match n {
            Some(s) => s@ == name@,
            None => false,
        }),
{
    match n {
        Some(s) => same_text(s.as_str(), name.as_str()),
        None => false,
    }
}

/// The first job record named `name`, by index.
fn find_job_index(jobs: &Vec<JobRecord>, name: &String) -> (r: Option<usize>)
    ensures
        match find_job(jobs@, name@) {
            None => r is None,
            Some(j) => r matches Some(i) && i < jobs@.len() && jobs@[i as int] == j,
        },
{
    let mut i: usize = 0;
    assert(jobs@.subrange(0, jobs@.len() as int) =~= jobs@);
    while i < jobs.len()
        invariant
            i <= jobs@.len(),
            find_job(jobs@, name@) == find_job(jobs@.subrange(i as int, jobs@.len() as int), name@),
        decreases jobs@.len() - i,
    {
        let ghost rest = jobs@.subrange(i as int, jobs@.len() as int);
        assert(rest.drop_first() =~= jobs@.subrange(i + 1, jobs@.len() as int));
        if name_is(&jobs[i].name, name) {
            return Some(i);
        }
        i = i + 1;
    }
    None
}

/// Whether an item among the first `n` of `sources` has the job name `name`.
fn planned_before(sources: &Vec<InfoHashSource>, n: usize, name: &String) -> (r: bool)
    requires
        n <= sources@.len(),
        all_wf(sources@),
    ensures
        r == named_earlier(sources@.subrange(0, n as int), name@),
{
    let ghost earlier = sources@.subrange(0, n as int);
    let mut i: usize = 0;
    while i < n
        invariant
            n <= sources@.len(),
            all_wf(sources@),
            earlier == sources@.subrange(0, n as int),
            i <= n,
            forall|k: int| 0 <= k < i ==> job_name_of(#[trigger] earlier[k].info_hash@) != name@,
        decreases n - i,
    {
        assert(sources@[i as int].wf());
        let other = job_name(sources[i].info_hash.as_str());
        if same_text(other.as_str(), name.as_str()) {
            assert(job_name_of(earlier[i as int].info_hash@) == name@);
            return true;
        }
        i = i + 1;
    }
    false
}

/// Plans one reconciliation cycle. With no configuration nothing is planned.
/// Otherwise each intake item, in order, gets: a completion where the job of
/// its name exists and succeeded; nothing where that job exists otherwise, or
/// where an earlier item of the cycle already asks for the job; else a
/// creation of its job, with the configuration's resource hints.
pub fn plan_cycle(
    config: &Option<BlackholeSpec>,
    sources: &Vec<InfoHashSource>,
    jobs: &Vec<JobRecord>,
) -> (r: Vec<Action>)
    requires
        all_wf(sources@),
    ensures
        config is None ==> r@.len() == 0,
        config matches Some(c) ==> {
            let p = plan_of(sources@, jobs@);
            &&& r@.len() == p.len()
            &&& forall|k: int| 0 <= k < p.len() ==> carries_out(#[trigger] r@[k], p[k], *c)
        },
{
    let mut r: Vec<Action> = Vec::new();
    let c = match config {
        Some(c) => c,
        None => return r,
    };
    let mut i: usize = 0;
    while i < sources.len()
        invariant
            i <= sources@.len(),
            all_wf(sources@),
            r@.len() == plan_of(sources@.subrange(0, i as int), jobs@).len(),
            forall|k: int|
                0 <= k < r@.len() ==> carries_out(
                    #[trigger] r@[k],
                    plan_of(sources@.subrange(0, i as int), jobs@)[k],
                    *c,
                ),
        decreases sources@.len() - i,
    {
        let ghost prefix = sources@.subrange(0, i as int);
        let ghost next = sources@.subrange(0, i + 1);
        assert(next.drop_last() =~= prefix);
        assert(next.last() == sources@[i as int]);
        let ghost old_r = r@;
        let ghost p = plan_of(next, jobs@);
        assert(p == plan_of(prefix, jobs@) + plan_item(sources@[i as int], prefix, jobs@));
        let src = &sources[i];
        assert(src.wf());
        let name = job_name(src.info_hash.as_str());
        match find_job_index(jobs, &name) {
            Some(j) => {
                if jobs[j].succeeded == Some(1i32) {
                    r.push(
                        Action::Complete {
                            job_name: name,
                            downloading_dir: downloading_dir(src.file_name.as_str()),
                            complete_dir: complete_dir(src.file_name.as_str()),
                            source_path: src.path.clone(),
                        },
                    );
                }
            },
            None => {
                if !planned_before(sources, i, &name) {
                    r.push(Action::Create(build_job(src.info_hash.as_str(), src.file_name.as_str(), c)));
                }
            },
        }
        assert forall|k: int| 0 <= k < r@.len() implies carries_out(#[trigger] r@[k], p[k], *c) by {
            if k < old_r.len() {
                assert(r@[k] == old_r[k]);
            }
        }
        i = i + 1;
    }
    assert(sources@.subrange(0, sources@.len() as int) =~= sources@);
    r
}

/// Whether an item among `sources` has the identifier `h`.
pub open spec fn has_item_with(sources: Seq<InfoHashSource>, h: Seq<char>) -> bool {
    exists|m: int| 0 <= m < sources.len() && (#[trigger] sources[m]).info_hash@ == h
}

/// Whether an item among `sources` has this identifier, file name and path.
pub open spec fn has_item(
    sources: Seq<InfoHashSource>,
    h: Seq<char>,
    f: Seq<char>,
    p: Seq<char>,
) -> bool {
    exists|m: int|
        0 <= m < sources.len() && (#[trigger] sources[m]).info_hash@ == h && sources[m].file_name@
            == f && sources[m].path@ == p
}

/// The job of this identifier's name is listed as succeeded.
pub open spec fn job_succeeded(jobs: Seq<JobRecord>, h: Seq<char>) -> bool {
    find_job(jobs, job_name_of(h)) matches Some(j) && has_succeeded(j)
}

/// Every decision of a cycle concerns an intake item of that cycle: a
/// creation one whose job is not listed, a completion one whose job is listed
/// as succeeded. So once an item's intake file is gone, no cycle creates or
/// completes anything for it, and an intake file is only ever removed after
/// its job succeeded.
pub proof fn lemma_plan_from_items(sources: Seq<InfoHashSource>, jobs: Seq<JobRecord>)
    ensures
        forall|k: int|
            0 <= k < plan_of(sources, jobs).len() ==> match #[trigger] plan_of(sources, jobs)[k] {
                Planned::Create { info_hash, file_name } => {
                    &&& has_item_with(sources, info_hash)
                    &&& find_job(jobs, job_name_of(info_hash)) is None
                },
                Planned::Complete { info_hash, file_name, path } => {
                    &&& has_item_with(sources, info_hash)
                    &&& has_item(sources, info_hash, file_name, path)
                    &&& job_succeeded(jobs, info_hash)
                },
            },
    decreases sources.len(),
{
    if sources.len() > 0 {
        let e = sources.drop_last();
        lemma_plan_from_items(e, jobs);
        let p = plan_of(sources, jobs);
        assert forall|k: int| 0 <= k < p.len() implies match #[trigger] p[k] {
            Planned::Create { info_hash, file_name } => {
                &&& has_item_with(sources, info_hash)
                &&& find_job(jobs, job_name_of(info_hash)) is None
            },
            Planned::Complete { info_hash, file_name, path } => {
                &&& has_item_with(sources, info_hash)
                &&& has_item(sources, info_hash, file_name, path)
                &&& job_succeeded(jobs, info_hash)
            },
        } by {
            if k < plan_of(e, jobs).len() {
                assert(p[k] == plan_of(e, jobs)[k]);
                match p[k] {
                    Planned::Create { info_hash, file_name } => {
                        let m = choose|m: int| 0 <= m < e.len() && (#[trigger] e[m]).info_hash@ == info_hash;
                        assert(sources[m] == e[m]);
                    },
                    Planned::Complete { info_hash, file_name, path } => {
                        let m = choose|m: int|
                            0 <= m < e.len() && (#[trigger] e[m]).info_hash@ == info_hash
                                && e[m].file_name@ == file_name && e[m].path@ == path;
                        assert(sources[m] == e[m]);
                    },
                }
            } else {
                assert(sources[sources.len() - 1] == sources.last());
            }
        }
    }
}

/// Within a whole cycle, an intake item whose job is listed as succeeded is
/// completed: the plan moves `downloading/<name>` to `complete/<name>` and
/// removes its intake file.
pub proof fn lemma_succeeded_item_completes(
    sources: Seq<InfoHashSource>,
    jobs: Seq<JobRecord>,
    m: int,
)
    requires
        0 <= m < sources.len(),
        job_succeeded(jobs, sources[m].info_hash@),
    ensures
        exists|k: int|
            0 <= k < plan_of(sources, jobs).len() && #[trigger] plan_of(sources, jobs)[k]
                == (Planned::Complete {
                info_hash: sources[m].info_hash@,
                file_name: sources[m].file_name@,
                path: sources[m].path@,
            }),
    decreases sources.len(),
{
    let e = sources.drop_last();
    let p = plan_of(sources, jobs);
    let c = Planned::Complete {
        info_hash: sources[m].info_hash@,
        file_name: sources[m].file_name@,
        path: sources[m].path@,
    };
    if m == sources.len() - 1 {
        assert(p[plan_of(e, jobs).len() as int] == c);
    } else {
        assert(e[m] == sources[m]);
        lemma_succeeded_item_completes(e, jobs, m);
        let k = choose|k: int| 0 <= k < plan_of(e, jobs).len() && #[trigger] plan_of(e, jobs)[k] == c;
        assert(p[k] == c);
    }
}

/// A cycle run again after an item was completed, with the same job list and
/// the item's intake file gone, takes no action on that item: it creates no
/// job of its name and neither moves its directories nor removes its file.
pub proof fn lemma_rerun_after_completion(
    sources: Seq<InfoHashSource>,
    jobs: Seq<JobRecord>,
    m: int,
)
    requires
        0 <= m < sources.len(),
        job_succeeded(jobs, sources[m].info_hash@),
        forall|k: int|
            0 <= k < sources.len() && k != m ==> (#[trigger] sources[k]).file_name@
                != sources[m].file_name@ && sources[k].path@ != sources[m].path@,
    ensures
        ({
            let s = sources[m];
            let p = plan_of(sources.remove(m), jobs);
            forall|k: int|
                0 <= k < p.len() ==> match #[trigger] p[k] {
                    Planned::Create { info_hash, file_name } => job_name_of(info_hash)
                        != job_name_of(s.info_hash@),
                    Planned::Complete { info_hash, file_name, path } => file_name != s.file_name@
                        && path != s.path@,
                }
        }),
{
    let s = sources[m];
    let rest = sources.remove(m);
    let p = plan_of(rest, jobs);
    lemma_plan_from_items(rest, jobs);
    assert forall|k: int| 0 <= k < p.len() implies match #[trigger] p[k] {
        Planned::Create { info_hash, file_name } => job_name_of(info_hash) != job_name_of(s.info_hash@),
        Planned::Complete { info_hash, file_name, path } => file_name != s.file_name@ && path != s.path@,
    } by {
        match p[k] {
            Planned::Create { info_hash, file_name } => {},
            Planned::Complete { info_hash, file_name, path } => {
                let i = choose|i: int|
                    0 <= i < rest.len() && (#[trigger] rest[i]).info_hash@ == info_hash
                        && rest[i].file_name@ == file_name && rest[i].path@ == path;
                if i < m {
                    assert(rest[i] == sources[i]);
                } else {
                    assert(rest[i] == sources[i + 1]);
                }
            },
        }
    }
}

/// A cycle never asks to create a job that the cluster already reports, and
/// never asks twice for jobs of one name: so running cycles again while the
/// cluster holds the jobs of the earlier ones creates no duplicates.
pub proof fn lemma_plan_never_duplicates(sources: Seq<InfoHashSource>, jobs: Seq<JobRecord>)
    ensures
        forall|k: int|
            0 <= k < plan_of(sources, jobs).len() ==> match #[trigger] plan_of(sources, jobs)[k] {
                Planned::Create { info_hash, file_name } => !has_job(jobs, job_name_of(info_hash)),
                _ => true,
            },
        forall|k1: int, k2: int|
            0 <= k1 < k2 < plan_of(sources, jobs).len() ==> match (
                #[trigger] plan_of(sources, jobs)[k1],
                #[trigger] plan_of(sources, jobs)[k2],
            ) {
                (
                    Planned::Create { info_hash: h1, file_name: f1 },
                    Planned::Create { info_hash: h2, file_name: f2 },
                ) => job_name_of(h1) != job_name_of(h2),
                _ => true,
            },
    decreases sources.len(),
{
    if sources.len() > 0 {
        let e = sources.drop_last();
        let last = sources.last();
        lemma_plan_never_duplicates(e, jobs);
        lemma_plan_from_items(e, jobs);
        lemma_find_job(jobs, job_name_of(last.info_hash@));
        let p = plan_of(sources, jobs);
        let pe = plan_of(e, jobs);
        assert forall|k: int| 0 <= k < p.len() implies match #[trigger] p[k] {
            Planned::Create { info_hash, file_name } => !has_job(jobs, job_name_of(info_hash)),
            _ => true,
        } by {
            if k < pe.len() {
                assert(p[k] == pe[k]);
            }
        }
        assert forall|k1: int, k2: int| 0 <= k1 < k2 < p.len() implies match (
            #[trigger] p[k1],
            #[trigger] p[k2],
        ) {
            (
                Planned::Create { info_hash: h1, file_name: f1 },
                Planned::Create { info_hash: h2, file_name: f2 },
            ) => job_name_of(h1) != job_name_of(h2),
            _ => true,
        } by {
            assert(p[k1] == pe[k1]);
            if k2 < pe.len() {
                assert(p[k2] == pe[k2]);
            } else if let (Planned::Create { info_hash: h1, file_name: f1 }, Planned::Create {
                info_hash: h2,
                file_name: f2,
            }) = (p[k1], p[k2]) {
                let m = choose|m: int| 0 <= m < e.len() && (#[trigger] e[m]).info_hash@ == h1;
                assert(h2 == last.info_hash@);
                if job_name_of(h1) == job_name_of(h2) {
                    assert(named_earlier(e, job_name_of(last.info_hash@)));
                }
            }
        }
    }
}

/// What is on disk for an item whose job succeeded: its working directory,
/// its completed directory and its intake file.
#[derive(Clone, Copy, Debug, PartialEq, Eq, Structural)]
pub struct TransitionState {
    pub downloading_present: bool,
    pub complete_present: bool,
    pub source_present: bool,
}

/// The next file operation of a completion.
#[derive(Clone, Copy, Debug, PartialEq, Eq, Structural)]
pub enum TransitionStep {
    /// Rename the working directory into the completed location.
    RenameToComplete,
    /// Remove the intake file.
    RemoveSource,
    /// Nothing is left to do.
    Done,
}

/// The next operation: a working directory still present is renamed; a
/// missing one counts as already renamed, so a completion interrupted between
/// rename and removal resumes with the removal.
pub open spec fn step_of(s: TransitionState) -> TransitionStep {
    if s.downloading_present {
        TransitionStep::RenameToComplete
    } else if s.source_present {
        TransitionStep::RemoveSource
    } else {
        TransitionStep::Done
    }
}

/// What a successful operation leaves on disk.
pub open spec fn after_step(s: TransitionState, step: TransitionStep) -> TransitionState {
    match step {
        TransitionStep::RenameToComplete => TransitionState {
            downloading_present: false,
            complete_present: true,
            ..s
        },
        TransitionStep::RemoveSource => TransitionState { source_present: false, ..s },
        TransitionStep::Done => s,
    }
}

/// Decides the next file operation of a completion from what is on disk.
pub fn transition_step(s: TransitionState) -> (r: TransitionStep)
    ensures
        r == step_of(s),
{
    if s.downloading_present {
        TransitionStep::RenameToComplete
    } else if s.source_present {
        TransitionStep::RemoveSource
    } else {
        TransitionStep::Done
    }
}

/// From any state a completion ends within two operations, with the working
/// directory moved into the completed location and the intake file gone;
/// once ended, deciding again does nothing more.
pub proof fn lemma_transition_settles(s: TransitionState)
    ensures
        ({
            let s1 = after_step(s, step_of(s));
            let s2 = after_step(s1, step_of(s1));
            &&& step_of(s2) == TransitionStep::Done
            &&& !s2.downloading_present
            &&& !s2.source_present
            &&& s.downloading_present ==> s2.complete_present
            &&& s.complete_present ==> s2.complete_present
            &&& after_step(s2, step_of(s2)) == s2
        }),
{
}

} // verus!

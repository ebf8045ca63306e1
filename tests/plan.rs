use blackhole::ident::InfoHashSource;
use blackhole::job::{build_job, job_name, BlackholeSpec, Quantity, ResourceClaim, Resources};
use blackhole::reconcile::{
    plan_cycle, transition_step, Action, JobRecord, TransitionState, TransitionStep,
};

const HASH_A: &str = "5e73478c8951a47213df390eedca1a9e580e47cb";
const HASH_B: &str = "c811b41641a09d192b8ed81b14064fff55d85ce3";

fn source(hash: &str, file_name: &str) -> InfoHashSource {
    InfoHashSource {
        info_hash: hash.to_string(),
        file_name: file_name.to_string(),
        path: format!("torrents/{}", file_name),
    }
}

fn quantity(resource: &str, amount: &str) -> Quantity {
    Quantity { resource: resource.to_string(), amount: amount.to_string() }
}

fn config() -> BlackholeSpec {
    BlackholeSpec {
        resources: Some(Resources {
            claims: Some(vec![ResourceClaim { name: "gpu".to_string(), request: None }]),
            limits: Some(vec![quantity("cpu", "2"), quantity("memory", "1Gi")]),
            requests: Some(vec![quantity("cpu", "500m")]),
        }),
    }
}

fn record(name: &str, succeeded: Option<i32>) -> JobRecord {
    JobRecord { name: Some(name.to_string()), succeeded }
}

fn created_names(actions: &[Action]) -> Vec<String> {
    actions
        .iter()
        .filter_map(|a| match a {
            Action::Create(d) => Some(d.name.clone()),
            _ => None,
        })
        .collect()
}

#[test]
fn job_name_takes_six_hash_characters() {
    assert_eq!(job_name(HASH_A), "blackhole-torrent-5e7347");
    assert_eq!(job_name(HASH_B), "blackhole-torrent-c811b4");
}

#[test]
fn one_new_torrent_creates_one_job() {
    let actions = plan_cycle(&Some(config()), &vec![source(HASH_A, "x.torrent")], &vec![]);
    assert_eq!(actions.len(), 1);
    let Action::Create(d) = &actions[0] else { panic!("expected a creation") };
    assert_eq!(d.name, "blackhole-torrent-5e7347");
    assert_eq!(d.namespace, "media-server");
    let r = d.resources.as_ref().unwrap();
    let limits = r.limits.as_ref().unwrap();
    assert_eq!(limits.len(), 2);
    assert_eq!((limits[0].resource.as_str(), limits[0].amount.as_str()), ("cpu", "2"));
    assert_eq!((limits[1].resource.as_str(), limits[1].amount.as_str()), ("memory", "1Gi"));
    let requests = r.requests.as_ref().unwrap();
    assert_eq!(requests.len(), 1);
    assert_eq!((requests[0].resource.as_str(), requests[0].amount.as_str()), ("cpu", "500m"));
    let claims = r.claims.as_ref().unwrap();
    assert_eq!(claims.len(), 1);
    assert_eq!(claims[0].name, "gpu");
    assert_eq!(claims[0].request, None);
}

#[test]
fn job_description_fields() {
    let d = build_job(HASH_A, "x.torrent", &BlackholeSpec { resources: None });
    assert_eq!(d.name, "blackhole-torrent-5e7347");
    assert_eq!(d.args, vec!["download".to_string(), "--info-hash".to_string(), HASH_A.to_string()]);
    assert_eq!(d.env_name, "INFO_HASH");
    assert_eq!(d.env_value, HASH_A);
    assert_eq!(d.volume_sub_path, "downloading/x.torrent");
    assert_eq!(d.working_dir, "/data");
    assert_eq!(d.image, "ghcr.io/torrentdam/cmd:latest");
    assert_eq!(d.restart_policy, "Never");
    assert_eq!(d.ttl_seconds_after_finished, 60);
    assert_eq!(d.active_deadline_seconds, 21600);
    assert!(d.resources.is_none());
}

#[test]
fn absent_configuration_plans_nothing() {
    let sources = vec![source(HASH_A, "x.torrent"), source(HASH_B, "y.magnet")];
    let jobs = vec![record("blackhole-torrent-5e7347", Some(1))];
    assert!(plan_cycle(&None, &sources, &jobs).is_empty());
}

#[test]
fn running_job_is_left_alone() {
    let jobs = vec![record("blackhole-torrent-5e7347", None)];
    let actions = plan_cycle(&Some(config()), &vec![source(HASH_A, "x.torrent")], &jobs);
    assert!(actions.is_empty());
}

#[test]
fn succeeded_job_completes_its_item() {
    let jobs = vec![record("other", None), record("blackhole-torrent-5e7347", Some(1))];
    let actions = plan_cycle(&Some(config()), &vec![source(HASH_A, "x.torrent")], &jobs);
    assert_eq!(actions.len(), 1);
    match &actions[0] {
        Action::Complete { job_name, downloading_dir, complete_dir, source_path } => {
            assert_eq!(job_name, "blackhole-torrent-5e7347");
            assert_eq!(downloading_dir, "downloading/x.torrent");
            assert_eq!(complete_dir, "complete/x.torrent");
            assert_eq!(source_path, "torrents/x.torrent");
        },
        Action::Create(_) => panic!("expected a completion"),
    }
}

#[test]
fn same_identifier_twice_creates_once() {
    let sources = vec![source(HASH_A, "a.torrent"), source(HASH_B, "b.magnet"), source(HASH_A, "c.magnet")];
    let actions = plan_cycle(&Some(config()), &sources, &vec![]);
    assert_eq!(
        created_names(&actions),
        vec!["blackhole-torrent-5e7347".to_string(), "blackhole-torrent-c811b4".to_string()]
    );
}

#[test]
fn second_cycle_creates_nothing_again() {
    let sources = vec![source(HASH_A, "a.torrent"), source(HASH_B, "b.magnet")];
    let first = plan_cycle(&Some(config()), &sources, &vec![]);
    let jobs: Vec<JobRecord> = created_names(&first).iter().map(|n| record(n, None)).collect();
    assert_eq!(jobs.len(), 2);
    let second = plan_cycle(&Some(config()), &sources, &jobs);
    assert!(second.is_empty());
}

#[test]
fn completion_runs_rename_then_removal() {
    let mut s = TransitionState { downloading_present: true, complete_present: false, source_present: true };
    assert_eq!(transition_step(s), TransitionStep::RenameToComplete);
    s.downloading_present = false;
    s.complete_present = true;
    assert_eq!(transition_step(s), TransitionStep::RemoveSource);
    s.source_present = false;
    assert_eq!(transition_step(s), TransitionStep::Done);
    assert_eq!(transition_step(s), TransitionStep::Done);
}

#[test]
fn interrupted_completion_resumes_with_removal() {
    let s = TransitionState { downloading_present: false, complete_present: true, source_present: true };
    assert_eq!(transition_step(s), TransitionStep::RemoveSource);
}

#[test]
fn completed_item_needs_no_action_next_cycle() {
    let jobs = vec![record("blackhole-torrent-5e7347", Some(1))];
    let actions = plan_cycle(&Some(config()), &vec![], &jobs);
    assert!(actions.is_empty());
}

#[test]
fn end_to_end_one_torrent_file() {
    let bytes = b"d4:infod6:lengthi1024e4:name8:file.txt12:piece lengthi16384e6:pieces20:aaaaaaaaaaaaaaaaaaaaee";
    let s = InfoHashSource::from_file("film.torrent", "torrents/film.torrent", bytes.to_vec()).unwrap();
    let actions = plan_cycle(&Some(config()), &vec![s], &vec![]);
    assert_eq!(actions.len(), 1);
    let Action::Create(d) = &actions[0] else { panic!("expected a creation") };
    assert_eq!(d.name, format!("blackhole-torrent-{}", &HASH_A[0..6]));
    assert_eq!(d.env_value, HASH_A);
    assert_eq!(d.volume_sub_path, "downloading/film.torrent");
    let limits = d.resources.as_ref().unwrap().limits.as_ref().unwrap();
    assert_eq!(limits.len(), 2);
    assert_eq!(limits[1].amount, "1Gi");
}

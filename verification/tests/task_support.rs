use riversd::engine_rules::{rivers_global_plan, rivers_http_members, RiversGlobalPlan};
use riversd::server_config::split_ignored_drivers;
use riversd::streaming::{replay_next, sse_wants_replay, ReplayAction};
use riversd::task_registry::{enter_task, leave_task, TaskRegistry};

#[test]
fn workers_leave_the_registry_on_every_exit() {
    let mut reg: TaskRegistry<u64> = TaskRegistry::new();
    enter_task(&mut reg, 1, 30_000);
    enter_task(&mut reg, 2, 5_000);
    assert!(reg.is_registered(1));
    assert_eq!(reg.len(), 2);
    let ok: Result<&str, String> = leave_task(&mut reg, 1, Ok("done"));
    assert_eq!(ok, Ok("done"));
    assert!(!reg.is_registered(1));
    assert!(reg.is_registered(2));
    let failed: Result<(), String> = leave_task(&mut reg, 2, Err("setup failed".to_string()));
    assert_eq!(failed, Err("setup failed".to_string()));
    assert_eq!(reg.len(), 0);
}

#[test]
fn missed_sse_events_are_replayed_in_order() {
    assert!(sse_wants_replay(Some("41")));
    assert!(sse_wants_replay(Some("")));
    assert!(!sse_wants_replay(None));
    let missed = vec!["id: 42\ndata: a\n\n".to_string(), "id: 43\ndata: b\n\n".to_string()];
    let mut sent = Vec::new();
    let mut k = 0;
    loop {
        match replay_next(&missed, k, true) {
            ReplayAction::Send(s) => {
                sent.push(s);
                k += 1;
            }
            ReplayAction::Done => break,
            ReplayAction::Abort(m) => panic!("unexpected abort: {m}"),
        }
    }
    assert_eq!(sent, missed);
    match replay_next(&missed, 1, false) {
        ReplayAction::Abort(m) => assert_eq!(m, "client disconnected during replay"),
        _ => panic!("expected abort"),
    }
}

#[test]
fn rivers_http_only_with_an_http_client() {
    let p = rivers_global_plan(true, false);
    assert_eq!(p, RiversGlobalPlan { http: true, keystore: false });
    assert_eq!(rivers_http_members(&p), vec!["get", "post", "put", "del"]);
    let p = rivers_global_plan(false, true);
    assert!(!p.http && p.keystore);
    assert!(rivers_http_members(&p).is_empty());
}

#[test]
fn ignore_list_applies_to_dynamically_loaded_drivers() {
    let names = vec!["postgres".to_string(), "nats".to_string(), "mysql".to_string(), "kafka".to_string()];
    let ignore = vec!["kafka".to_string(), "nats".to_string()];
    let (kept, dropped) = split_ignored_drivers(&names, &ignore);
    assert_eq!(kept, vec!["postgres".to_string(), "mysql".to_string()]);
    assert_eq!(dropped, vec!["nats".to_string(), "kafka".to_string()]);
    let (kept, dropped) = split_ignored_drivers(&names, &vec![]);
    assert_eq!(kept, names);
    assert!(dropped.is_empty());
}

use dmesh::memo::{Dispatch, MemoOneshotRoute, Probed, SelectRoute, Selected};
use dmesh::metrics::SessionMetrics;
use dmesh::session::SessionToken;
use dmesh::stacks::{BuildTimes, StackChoice, StackCounts, StackPlan, Stacks, CACHE_CAP};

const TIMES: BuildTimes = BuildTimes { configure: 1, layers: 2, service: 3 };

fn stack_for(stacks: &Stacks<u32>, granted: &str, aware: bool, metrics: &SessionMetrics) -> StackChoice {
    let (choice, counts) = stacks.choose_stack(
        &granted.to_string(),
        &"default".to_string(),
        aware,
        SessionToken::new(0, 1, 2),
    );
    counts.record(metrics);
    choice
}

fn plan(choice: StackChoice) -> StackPlan {
    match choice {
        StackChoice::Build(plan) => plan,
        StackChoice::Shared(i) => panic!("shared {i}"),
    }
}

#[test]
fn opaque_sessions_of_a_workload_share_a_stack() {
    let metrics = SessionMetrics::new();
    let mut stacks = Stacks::new();
    let first = plan(stack_for(&stacks, "a", false, &metrics));
    assert_eq!(first.workload, "a");
    assert!(first.share && first.session.is_none() && first.dmesh_origin);
    stacks.built(first, 10, TIMES).record(&metrics);
    match stack_for(&stacks, "a", false, &metrics) {
        StackChoice::Shared(i) => assert_eq!(stacks.entries[i].1, 10),
        StackChoice::Build(_) => panic!("built again"),
    }
    assert_eq!(metrics.session_stack_cache_hits.get(), 1);
    assert_eq!(metrics.session_stack_cache_misses.get(), 1);
    assert_eq!(metrics.session_stack_builds.get(), 1);
    assert_eq!(plan(stack_for(&stacks, "b", false, &metrics)).workload, "b");
    assert_eq!(plan(stack_for(&stacks, "", false, &metrics)).workload, "default");
}

#[test]
fn a_protocol_aware_session_keeps_its_stack() {
    let metrics = SessionMetrics::new();
    let mut stacks = Stacks::new();
    let shared = plan(stack_for(&stacks, "a", false, &metrics));
    stacks.built(shared, 1, TIMES).record(&metrics);
    let own = plan(stack_for(&stacks, "a", true, &metrics));
    assert!(!own.share);
    assert_eq!(own.session, Some(SessionToken::new(0, 1, 2)));
    stacks.built(own, 2, TIMES).record(&metrics);
    assert_eq!(stacks.entries.len(), 1);
    assert_eq!(metrics.session_stack_cache_misses.get(), 1);
    assert_eq!(metrics.session_stack_builds.get(), 2);
}

#[test]
fn a_full_cache_is_dropped() {
    let metrics = SessionMetrics::new();
    let mut stacks = Stacks::new();
    for i in 0..CACHE_CAP as u32 {
        let next = plan(stack_for(&stacks, &format!("w{i}"), false, &metrics));
        stacks.built(next, i, TIMES).record(&metrics);
    }
    assert_eq!(stacks.entries.len(), CACHE_CAP);
    let next = plan(stack_for(&stacks, "last", false, &metrics));
    stacks.built(next, 99, TIMES).record(&metrics);
    assert_eq!(stacks.entries.len(), 1);
    assert!(matches!(stack_for(&stacks, "last", false, &metrics), StackChoice::Shared(0)));
    assert!(matches!(stack_for(&stacks, "w0", false, &metrics), StackChoice::Build(_)));
}

#[test]
fn the_same_route_is_built_once() {
    let mut memo: MemoOneshotRoute<i32, &str> = MemoOneshotRoute::new();
    assert_eq!(memo.selected::<()>(Ok(1)), Selected::Build(1));
    assert_eq!(memo.built(1, "one", true), Dispatch::Call);
    assert_eq!(memo.selected::<()>(Ok(1)), Selected::Probe(1));
    assert_eq!(memo.probed(1, true), Probed::Call);
    assert_eq!(memo.selected(Err("no route")), Selected::Refused("no route"));
    assert_eq!(memo.cached, Some((1, "one")));
    assert!(memo.fresh().cached.is_none());
    assert_eq!(memo.selected::<()>(Ok(2)), Selected::Build(2));
    assert_eq!(memo.cached, None);
    assert_eq!(memo.built(2, "two", false), Dispatch::Oneshot("two"));
    assert_eq!(memo.selected::<()>(Ok(2)), Selected::Build(2));
    memo.built(2, "two", true);
    assert_eq!(memo.probed(2, false), Probed::Build(2));
    assert_eq!(memo.cached, None);
}

struct Parity;

impl SelectRoute<u32> for Parity {
    type Key = i32;
    type Error = &'static str;

    fn select(&self, req: &u32) -> Result<i32, &'static str> {
        match req {
            0 => Err("no route"),
            n => Ok((n % 2) as i32),
        }
    }
}

#[test]
fn a_request_selects_its_route() {
    let mut memo: MemoOneshotRoute<i32, &str> = MemoOneshotRoute::new();
    assert_eq!(memo.route(&Parity, &7), Selected::Build(1));
    memo.built(1, "odd", true);
    assert_eq!(memo.route(&Parity, &9), Selected::Probe(1));
    assert_eq!(memo.route(&Parity, &0), Selected::Refused("no route"));
    assert_eq!(memo.route(&Parity, &4), Selected::Build(0));
}

#[test]
fn a_key_need_not_be_copied() {
    let mut memo: MemoOneshotRoute<String, u8> = MemoOneshotRoute::new();
    assert_eq!(memo.selected::<()>(Ok("a".to_string())), Selected::Build("a".to_string()));
    memo.built("a".to_string(), 1, true);
    assert_eq!(memo.selected::<()>(Ok("a".to_string())), Selected::Probe("a".to_string()));
    assert_eq!(memo.selected::<()>(Ok("b".to_string())), Selected::Build("b".to_string()));
}

#[test]
fn builds_hits_and_misses_are_counted() {
    let metrics = SessionMetrics::new();
    let mut stacks = Stacks::new();
    let first = plan(stack_for(&stacks, "w", false, &metrics));
    stacks.built(first, 1, TIMES).record(&metrics);
    assert!(matches!(stack_for(&stacks, "w", false, &metrics), StackChoice::Shared(0)));
    let counts = |m: &SessionMetrics| {
        (
            m.session_stack_builds.get(),
            m.session_stack_cache_misses.get(),
            m.session_stack_cache_hits.get(),
        )
    };
    assert_eq!(counts(&metrics), (1, 1, 1));
    let own = plan(stack_for(&stacks, "w", true, &metrics));
    stacks.built(own, 2, TIMES).record(&metrics);
    assert_eq!(counts(&metrics), (2, 1, 1));
}

#[test]
fn a_stack_of_its_own_is_no_miss() {
    let mut stacks: Stacks<u8> = Stacks::new();
    let workload = "w".to_string();
    let session = SessionToken::new(0, 0, 0);
    let (choice, counts) = stacks.choose_stack(&workload, &workload, true, session);
    assert_eq!(counts, StackCounts { hit: false, miss: false, build: None });
    let counts = stacks.built(plan(choice), 1, TIMES);
    assert_eq!(counts, StackCounts { hit: false, miss: false, build: Some(TIMES) });
    let (choice, _) = stacks.choose_stack(&workload, &workload, false, session);
    let counts = stacks.built(plan(choice), 2, TIMES);
    assert_eq!(counts, StackCounts { hit: false, miss: true, build: Some(TIMES) });
    let (_, counts) = stacks.choose_stack(&workload, &workload, false, session);
    assert_eq!(counts, StackCounts { hit: true, miss: false, build: None });
}

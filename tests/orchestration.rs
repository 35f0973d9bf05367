use grunner::debounce::{Debouncer, TimerCommand};
use grunner::generation::GenerationCounter;
use grunner::orchestrator::{Delivery, InputOutcome, Orchestrator, Phase, CLEAR_STALE_MS, PROVIDER_DEBOUNCE_MS};
use grunner::provider::{batch_to_deliver, BackendOutcome, SearchResult};

fn result(id: &str, backend: &str) -> SearchResult {
    SearchResult {
        id: id.to_string(),
        name: id.to_string(),
        description: String::new(),
        icon: None,
        app_icon: String::new(),
        bus_name: backend.to_string(),
        object_path: "/p".to_string(),
    }
}

fn ids(o: &Orchestrator) -> Vec<String> {
    o.visible().iter().map(|r| r.id.clone()).collect()
}

fn arm_token(out: InputOutcome) -> u64 {
    match out {
        InputOutcome::Scheduled(cmd) => cmd.arm,
        other => panic!("expected a scheduled debounce, got {:?}", other),
    }
}

#[test]
fn bump_returns_strictly_increasing_values() {
    let mut g = GenerationCounter::new();
    assert_eq!(g.current(), 0);
    let mut last = g.current();
    for _ in 0..100 {
        let v = g.bump();
        assert!(v > last);
        assert_eq!(g.current(), v);
        last = v;
    }
    assert_eq!(last, 100);
}

#[test]
fn burst_of_schedules_fires_once_with_last_generation() {
    let mut d = Debouncer::new();
    let mut tokens = Vec::new();
    let mut previous: Option<u64> = None;
    for generation in 1..=5u64 {
        let cmd: TimerCommand = d.schedule(120, generation);
        assert_eq!(cmd.cancel, previous);
        assert_eq!(cmd.delay_ms, 120);
        previous = Some(cmd.arm);
        tokens.push(cmd.arm);
    }
    let fired: Vec<u64> = tokens.iter().filter_map(|t| d.fire(*t)).collect();
    assert_eq!(fired, vec![5]);
    assert!(!d.is_pending());
    assert!(tokens.iter().all(|t| d.fire(*t).is_none()));
}

#[test]
fn fired_action_may_schedule_again() {
    let mut d = Debouncer::new();
    let t = d.schedule(10, 1).arm;
    assert_eq!(d.fire(t), Some(1));
    let cmd = d.schedule(10, 2);
    assert_eq!(cmd.cancel, None);
    assert_eq!(d.fire(cmd.arm), Some(2));
}

#[test]
fn cancel_is_idempotent() {
    let mut d = Debouncer::new();
    let t = d.schedule(10, 7).arm;
    assert_eq!(d.cancel(), Some(t));
    assert_eq!(d.cancel(), None);
    assert_eq!(d.fire(t), None);
}

#[test]
fn stale_delivery_leaves_visible_collection_unchanged() {
    let mut o = Orchestrator::new(20, PROVIDER_DEBOUNCE_MS, CLEAR_STALE_MS);
    let t = arm_token(o.input_changed("files", 3));
    let req = o.debounce_elapsed(t).expect("fan-out");
    assert_eq!(o.deliver(req.generation, vec![result("a", "A")]), Delivery::Accepted { cancel_clear: Some(req.generation) });
    arm_token(o.input_changed("files2", 3));
    assert!(o.current_generation() > req.generation);
    assert_eq!(o.deliver(req.generation, vec![result("late", "B")]), Delivery::Stale);
    assert_eq!(ids(&o), vec!["a".to_string()]);
}

#[test]
fn end_to_end_three_backends() {
    let mut o = Orchestrator::new(20, PROVIDER_DEBOUNCE_MS, CLEAR_STALE_MS);
    // results of an earlier query are on display
    let t0 = arm_token(o.input_changed("old", 3));
    let r0 = o.debounce_elapsed(t0).expect("fan-out");
    o.deliver(r0.generation, vec![result("old", "A")]);

    let t = arm_token(o.input_changed("report", 3));
    let req = o.debounce_elapsed(t).expect("fan-out");
    assert_eq!(req.clear_delay_ms, 25);
    assert_eq!(req.terms, vec!["report".to_string()]);
    // A answers after 10ms with two results, before the clear timer
    let a = batch_to_deliver(BackendOutcome::Answered(vec![result("a1", "A"), result("a2", "A")])).expect("A");
    assert_eq!(o.deliver(req.generation, a), Delivery::Accepted { cancel_clear: Some(req.generation) });
    assert_eq!(ids(&o), vec!["a1".to_string(), "a2".to_string()]);
    // the clear timer was removed; if it still reports, nothing is cleared
    assert!(!o.clear_elapsed(req.generation));
    // C answers after 50ms with nothing: not delivered
    assert!(batch_to_deliver(BackendOutcome::Answered(Vec::new())).is_none());
    // B times out after 3s: not delivered
    assert!(batch_to_deliver(BackendOutcome::Failed("timed out".to_string())).is_none());
    assert_eq!(ids(&o), vec!["a1".to_string(), "a2".to_string()]);
}

#[test]
fn clear_timer_empties_list_when_no_batch_came_first() {
    let mut o = Orchestrator::new(20, PROVIDER_DEBOUNCE_MS, CLEAR_STALE_MS);
    let t0 = arm_token(o.input_changed("old", 1));
    let r0 = o.debounce_elapsed(t0).expect("fan-out");
    o.deliver(r0.generation, vec![result("old", "A")]);
    let t = arm_token(o.input_changed("new", 1));
    let req = o.debounce_elapsed(t).expect("fan-out");
    assert_eq!(ids(&o), vec!["old".to_string()]);
    assert!(o.clear_elapsed(req.generation));
    assert!(o.visible().is_empty());
    assert_eq!(o.deliver(req.generation, vec![result("n1", "A")]), Delivery::Accepted { cancel_clear: None });
    o.deliver(req.generation, vec![result("n2", "B")]);
    assert_eq!(ids(&o), vec!["n1".to_string(), "n2".to_string()]);
}

#[test]
fn superseded_query_never_becomes_visible() {
    let mut o = Orchestrator::new(20, PROVIDER_DEBOUNCE_MS, CLEAR_STALE_MS);
    for text in ["a", "ab", "abc", "abcd"] {
        arm_token(o.input_changed(text, 2));
    }
    let t = arm_token(o.input_changed("abcde", 2));
    let q5 = o.debounce_elapsed(t).expect("fan-out");
    assert_eq!(q5.generation, 5);
    let t6 = arm_token(o.input_changed("abcdef", 2));
    let q6 = o.debounce_elapsed(t6).expect("fan-out");
    assert_eq!(q6.generation, 6);
    assert_eq!(o.deliver(5, vec![result("five", "A")]), Delivery::Stale);
    assert!(o.visible().is_empty());
    o.deliver(6, vec![result("six", "A")]);
    assert_eq!(o.deliver(5, vec![result("five-b", "B")]), Delivery::Stale);
    assert_eq!(ids(&o), vec!["six".to_string()]);
}

#[test]
fn earlier_debounce_timers_fire_nothing() {
    let mut o = Orchestrator::new(20, PROVIDER_DEBOUNCE_MS, CLEAR_STALE_MS);
    let t1 = arm_token(o.input_changed("a", 1));
    let out = o.input_changed("ab", 1);
    assert_eq!(out, InputOutcome::Scheduled(TimerCommand { cancel: Some(t1), arm: t1 + 1, delay_ms: 120 }));
    assert!(o.debounce_elapsed(t1).is_none());
    let req = o.debounce_elapsed(t1 + 1).expect("fan-out");
    assert_eq!(req.generation, 2);
    assert_eq!(req.max_results, 20);
}

#[test]
fn empty_query_clears_and_cancels() {
    let mut o = Orchestrator::new(20, PROVIDER_DEBOUNCE_MS, CLEAR_STALE_MS);
    let t = arm_token(o.input_changed("x", 1));
    let req = o.debounce_elapsed(t).expect("fan-out");
    o.deliver(req.generation, vec![result("x", "A")]);
    let t2 = arm_token(o.input_changed("xy", 1));
    assert_eq!(o.input_changed("   ", 1), InputOutcome::Cleared { cancel: Some(t2) });
    assert!(o.visible().is_empty());
    assert!(o.debounce_elapsed(t2).is_none());
}

#[test]
fn zero_backends_show_the_notice() {
    let mut o = Orchestrator::new(20, PROVIDER_DEBOUNCE_MS, CLEAR_STALE_MS);
    assert_eq!(o.input_changed("files", 0), InputOutcome::NoBackends { cancel: None });
    assert!(o.no_backends());
    assert!(o.visible().is_empty());
}

#[test]
fn phases_follow_the_query() {
    let mut o = Orchestrator::new(20, PROVIDER_DEBOUNCE_MS, CLEAR_STALE_MS);
    assert_eq!(o.phase(), Phase::Idle);
    let t = arm_token(o.input_changed("a", 1));
    assert_eq!(o.phase(), Phase::Debouncing);
    let req = o.debounce_elapsed(t).expect("fan-out");
    assert_eq!(o.phase(), Phase::FanningOut);
    arm_token(o.input_changed("ab", 1));
    assert_eq!(o.phase(), Phase::Debouncing);
    o.fan_out_finished(req.generation);
    assert_eq!(o.phase(), Phase::Debouncing);
    let t2 = arm_token(o.input_changed("abc", 1));
    let req2 = o.debounce_elapsed(t2).expect("fan-out");
    o.fan_out_finished(req.generation);
    assert_eq!(o.phase(), Phase::FanningOut);
    o.fan_out_finished(req2.generation);
    assert_eq!(o.phase(), Phase::Idle);
}

#[test]
fn local_command_output_is_gated_by_generation() {
    let mut q = grunner::local::CommandQueries::new(300, 2);
    let t1 = arm_token(q.input_changed(true));
    let t2 = arm_token(q.input_changed(true));
    assert_eq!(q.debounce_elapsed(t1), None);
    let g = q.debounce_elapsed(t2).expect("fires");
    assert_eq!(g, 2);
    assert!(!q.deliver_lines(1, vec!["stale".to_string()]));
    assert!(q.lines().is_empty());
    assert!(q.deliver_lines(2, vec!["a".to_string(), "b".to_string(), "c".to_string()]));
    assert_eq!(q.lines(), &vec!["a".to_string(), "b".to_string()]);
    assert_eq!(q.input_changed(false), InputOutcome::Cleared { cancel: None });
    assert!(q.lines().is_empty());
}

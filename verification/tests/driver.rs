use dmesh::driver::{
    conn_flow, next_step, report, report_due, sent, Connections, ConnState, Counters, DriverError,
    LatencyProbe, Notice, Outcome, Sent, SlotStates, Step, Transition, TxQueue, DATA_DRAIN_BUDGET,
};
use dmesh::session::MAX_CONNS;

#[test]
fn a_slot_tells_of_its_connection() {
    let mut slots = SlotStates::new();
    assert_eq!(slots.states.len(), MAX_CONNS);
    let quiet = Transition { notice: None, teardown: false };
    assert_eq!(slots.observe(3, 0), quiet);
    for setup in [1, 5, 2] {
        assert_eq!(slots.observe(3, setup), quiet);
    }
    assert_eq!(slots.observe(3, 3), Transition { notice: Some(Notice::Ready), teardown: false });
    assert_eq!(slots.observe(3, 3), quiet);
    assert_eq!(slots.observe(3, 0), Transition { notice: Some(Notice::Closed), teardown: true });
    assert_eq!(slots.observe(3, 0), quiet);
    assert_eq!(slots.observe(3, 4), Transition { notice: Some(Notice::Failed), teardown: true });
    assert_eq!(slots.states[3], ConnState::Error);
    assert_eq!(slots.states[2], ConnState::Free);
    assert_eq!(ConnState::from_raw(77), ConnState::Free);
}

#[test]
fn a_flow_is_read_from_its_metadata() {
    let mut workload = [0u8; 64];
    workload[..7].copy_from_slice(b"pod-1\0x");
    let flow = conn_flow(0x0101_610a, 4001, 0x0b00_600a, 9092, &workload, true);
    assert_eq!(flow.src.ip, 0x0a61_0101);
    assert_eq!(flow.src.port, 4001);
    assert_eq!(flow.dst.ip, 0x0a60_000b);
    assert_eq!(flow.dst.port, 9092);
    assert_eq!(flow.workload, "pod-1");
    assert!(flow.is_backend);
    let odd = conn_flow(0, 0, 0, 0, b"a\xffb", false);
    assert_eq!(odd.workload, "a\u{fffd}b");
}

#[test]
fn a_period_is_reported_where_traffic_flowed() {
    assert!(!report_due(999));
    assert!(report_due(1000));
    let start = Counters { sent: 1, recv: 2, recv_bytes: 30, dma_pending: 4, dma_dropped: 5 };
    let mut before = start;
    let idle = Counters { dma_pending: 9, ..start };
    assert_eq!(report(&mut before, idle, 1200), None);
    assert_eq!(before, idle);
    let busy = Counters { sent: 4, recv: 2, recv_bytes: 130, dma_pending: 0, dma_dropped: 6 };
    let said = report(&mut before, busy, 1500).unwrap();
    assert_eq!(said.elapsed_ms, 1500);
    assert_eq!(said.sent_msgs, 3);
    assert_eq!(said.recv_msgs, 0);
    assert_eq!(said.recv_bytes, 100);
    assert_eq!(said.dma_pending, 0);
    assert_eq!(said.dma_dropped, 6);
}

#[test]
fn what_was_not_taken_goes_back() {
    assert_eq!(sent(-5, 10), Sent::Blocked);
    assert_eq!(sent(0, 10), Sent::Partial(0));
    assert_eq!(sent(9, 10), Sent::Partial(9));
    assert_eq!(sent(10, 10), Sent::All);
}

#[test]
fn every_two_hundredth_answer_gives_the_mean() {
    let mut probe = LatencyProbe::new();
    assert_eq!(probe.left(5, 1), None);
    for i in 0..200u64 {
        probe.arrived(i * 100);
        probe.arrived(i * 100 + 7);
        assert_eq!(probe.left(i * 100 + 10, 0), None);
        let mean = probe.left(i * 100 + 10, 1);
        assert_eq!(mean, if i == 199 { Some(10) } else { None });
    }
}

fn run(script: &[Outcome]) -> Result<Step, DriverError> {
    let mut step = Step::Start;
    for outcome in script {
        step = next_step(step, *outcome)?;
    }
    Ok(step)
}

#[test]
fn the_driver_sleeps_only_within_its_budget() {
    let up = [Outcome::Advanced(0, 1), Outcome::Code(0), Outcome::Code(0)];
    assert_eq!(run(&up), Ok(Step::ArmCtrl));
    for (drained, then_step) in
        [(DATA_DRAIN_BUDGET - 1, Step::Wait), (DATA_DRAIN_BUDGET, Step::Yield)]
    {
        let mut script = up.to_vec();
        script.extend([
            Outcome::Code(0),
            Outcome::Code(0),
            Outcome::Code(0),
            Outcome::Drained(0, drained),
            Outcome::Advanced(0, 1),
            Outcome::Done,
        ]);
        assert_eq!(run(&script), Ok(then_step));
    }
    assert_eq!(next_step(Step::Wait, Outcome::CtrlReadable), Ok(Step::ClearCtrl));
    assert_eq!(next_step(Step::ClearCtrl, Outcome::Code(0)), Ok(Step::ArmCtrl));
    assert_eq!(next_step(Step::Wait, Outcome::Woken), Ok(Step::ArmCtrl));
    assert_eq!(next_step(Step::Yield, Outcome::Done), Ok(Step::ArmCtrl));
}

#[test]
fn a_failed_call_ends_the_driver() {
    assert_eq!(run(&[Outcome::Advanced(4, 1)]), Err(DriverError::Doca(4)));
    assert_eq!(run(&[Outcome::Advanced(0, -1)]), Err(DriverError::StateMachineFailed));
    assert_eq!(run(&[Outcome::Advanced(0, 0)]), Err(DriverError::NotRunning));
    assert_eq!(run(&[Outcome::Done]), Err(DriverError::Unexpected));
    assert_eq!(next_step(Step::Advance(0), Outcome::Advanced(0, 0)), Ok(Step::Pump(0)));
    assert_eq!(
        next_step(Step::Advance(0), Outcome::Advanced(0, -1)),
        Err(DriverError::StateMachineFailed)
    );
    assert_eq!(
        DriverError::NotRunning.message(),
        Some("dmesh infrastructure did not reach RUNNING")
    );
    assert_eq!(DriverError::Doca(1).message(), None);
}

#[test]
fn an_endpoint_is_let_go_with_its_slot() {
    let mut connections: Connections<u32> = Connections::new();
    assert_eq!(connections.observe(2, 3), (Some(Notice::Ready), None));
    assert_eq!(connections.bind(2, 7), None);
    assert_eq!(connections.bind(2, 8), Some(7));
    assert_eq!(connections.bind(MAX_CONNS, 9), Some(9));
    assert_eq!(connections.observe(1, 0), (None, None));
    assert_eq!(connections.observe(2, 3), (None, None));
    assert_eq!(connections.observe(2, 4), (Some(Notice::Failed), Some(8)));
    assert_eq!(connections.observe(2, 0), (Some(Notice::Closed), None));
    assert!(connections.handles.iter().all(|h| h.is_none()));
}

#[test]
fn what_is_sent_leaves_the_queue() {
    let mut queue = TxQueue::new();
    queue.push(b"abc");
    queue.push(b"defg");
    let chunk = queue.take(5);
    assert_eq!(chunk, b"abcde");
    assert_eq!(queue.settle(chunk, -3), Sent::Blocked);
    let chunk = queue.take(5);
    assert_eq!(queue.settle(chunk, 2), Sent::Partial(2));
    let chunk = queue.take(64);
    assert_eq!(chunk, b"cdefg");
    assert_eq!(queue.settle(chunk, 5), Sent::All);
    assert!(queue.take(64).is_empty());
}

use green::{BootstrapError, ExitStep, RecvStep, Runtime, Stack, PAGE_SIZE};

const TRAMPOLINE: u64 = 0x4000;
const MIB2: usize = 2 * 1024 * 1024;

fn stack(slot: usize) -> Stack {
    Stack::new(0x1000_0000 + slot * MIB2, MIB2).unwrap()
}

fn started(first: &'static str, id: u64) -> Runtime<&'static str> {
    let mut rt = Runtime::new();
    rt.bootstrap().unwrap();
    rt.spawn_as(id, first, stack(0), TRAMPOLINE);
    rt
}

#[test]
fn producer_consumer_alternates() {
    let mut rt = started("producer", 1);
    let mut log: Vec<String> = Vec::new();
    let c = rt.spawn("consumer", stack(1), TRAMPOLINE).unwrap();
    assert_ne!(c, 1);
    assert!(rt.schedule());
    for i in 0..10u64 {
        assert_eq!(rt.current_id(), Some(c));
        assert_eq!(rt.recv(), RecvStep::Blocked(c));
        assert_eq!(rt.current_id(), Some(1));
        log.push(format!("Produce: {}", i));
        rt.send(c, i);
        assert!(rt.schedule());
        assert_eq!(rt.take_unused_stack(), None);
        let m = rt.pop_message(c).unwrap();
        log.push(format!("Consume: {}", m));
    }
    assert_eq!(rt.exit_current(), ExitStep::Next);
    assert_eq!(rt.current_id(), Some(1));
    assert!(rt.take_unused_stack() == Some(stack(1)));
    assert_eq!(rt.exit_current(), ExitStep::Main);
    assert_eq!(rt.runnable_len(), 0);
    assert!(rt.take_unused_stack() == Some(stack(0)));
    rt.teardown();
    let mut expected: Vec<String> = Vec::new();
    for i in 0..10 {
        expected.push(format!("Produce: {}", i));
        expected.push(format!("Consume: {}", i));
    }
    assert_eq!(log, expected);
}

#[test]
fn recv_before_send_wakes_on_message() {
    let mut rt = started("a", 1);
    rt.spawn_as(2, "b", stack(1), TRAMPOLINE);
    assert!(rt.schedule());
    assert_eq!(rt.current_id(), Some(2));
    assert_eq!(rt.recv(), RecvStep::Blocked(2));
    assert_eq!(rt.current_id(), Some(1));
    assert_eq!(rt.runnable_len(), 1);
    rt.send(2, 42);
    assert_eq!(rt.runnable_len(), 2);
    assert!(rt.schedule());
    assert_eq!(rt.current_id(), Some(2));
    assert_eq!(rt.pop_message(2), Some(42));
    assert_eq!(rt.exit_current(), ExitStep::Next);
    assert_eq!(rt.take_unused_stack(), Some(stack(1)));
    assert_eq!(rt.exit_current(), ExitStep::Main);
    assert_eq!(rt.runnable_len(), 0);
}

#[test]
fn lone_receiver_deadlocks() {
    let mut rt = started("a", 1);
    assert_eq!(rt.recv(), RecvStep::Deadlock);
    assert_eq!(rt.current_id(), Some(1));
    assert_eq!(rt.runnable_len(), 1);
}

#[test]
fn spawn_yields_to_new_task() {
    let mut rt = started("a", 1);
    let mut log: Vec<&'static str> = Vec::new();
    log.push("A1");
    let b = rt.spawn("b", stack(1), TRAMPOLINE).unwrap();
    assert!(rt.schedule());
    assert_eq!(rt.current_id(), Some(b));
    assert_eq!(*rt.current_entry(), "b");
    log.push("B");
    assert_eq!(rt.exit_current(), ExitStep::Next);
    assert_eq!(rt.current_id(), Some(1));
    log.push("A2");
    assert_eq!(log, vec!["A1", "B", "A2"]);
}

#[test]
fn colliding_identifier_is_retried() {
    let mut rt = started("a", 7);
    assert!(!rt.id_available(7));
    assert!(rt.id_available(8));
    rt.spawn_as(8, "b", stack(1), TRAMPOLINE);
    assert!(!rt.id_available(8));
    assert!(rt.schedule());
    assert_eq!(rt.current_id(), Some(8));
    assert!(rt.schedule());
    assert_eq!(rt.current_id(), Some(7));
}

#[test]
fn random_identifiers_are_distinct() {
    let mut rt: Runtime<&'static str> = Runtime::new();
    rt.bootstrap().unwrap();
    let a = rt.spawn("a", stack(0), TRAMPOLINE).unwrap();
    let b = rt.spawn("b", stack(1), TRAMPOLINE).unwrap();
    assert_ne!(a, b);
    assert!(!rt.id_available(a));
    assert!(!rt.id_available(b));
}

#[test]
fn exit_releases_identifier() {
    let mut rt = started("a", 5);
    rt.spawn_as(6, "b", stack(1), TRAMPOLINE);
    assert_eq!(rt.exit_current(), ExitStep::Next);
    assert!(rt.id_available(5));
    assert!(!rt.id_available(6));
}

#[test]
fn round_robin_cycles_through_tasks() {
    let mut rt = started("a", 1);
    rt.spawn_as(2, "b", stack(1), TRAMPOLINE);
    rt.spawn_as(3, "c", stack(2), TRAMPOLINE);
    let mut fronts: Vec<u64> = Vec::new();
    for _ in 0..6 {
        fronts.push(rt.current_id().unwrap());
        assert!(rt.schedule());
    }
    assert_eq!(fronts, vec![1, 2, 3, 1, 2, 3]);
}

#[test]
fn schedule_alone_stays() {
    let mut rt = started("a", 1);
    assert!(!rt.schedule());
    assert_eq!(rt.current_id(), Some(1));
}

#[test]
fn messages_keep_send_order() {
    let mut rt = started("a", 1);
    rt.spawn_as(2, "b", stack(1), TRAMPOLINE);
    rt.send(2, 10);
    rt.send(9, 99);
    rt.send(2, 11);
    assert!(rt.schedule());
    assert_eq!(rt.current_id(), Some(2));
    assert_eq!(rt.recv(), RecvStep::Message(10));
    assert_eq!(rt.recv(), RecvStep::Message(11));
    assert_eq!(rt.recv(), RecvStep::Blocked(2));
    assert_eq!(rt.pop_message(9), Some(99));
}

#[test]
fn send_to_running_task_does_not_requeue() {
    let mut rt = started("a", 1);
    rt.send(1, 3);
    assert_eq!(rt.runnable_len(), 1);
    assert_eq!(rt.recv(), RecvStep::Message(3));
}

#[test]
fn recv_without_task_is_idle() {
    let mut rt: Runtime<&'static str> = Runtime::new();
    assert_eq!(rt.recv(), RecvStep::Idle);
    assert_eq!(rt.current_id(), None);
}

#[test]
fn drain_twice_is_drain_once() {
    let mut rt = started("a", 1);
    rt.spawn_as(2, "b", stack(1), TRAMPOLINE);
    assert_eq!(rt.exit_current(), ExitStep::Next);
    assert_eq!(rt.take_unused_stack(), Some(stack(0)));
    assert_eq!(rt.take_unused_stack(), None);
    assert_eq!(rt.current_id(), Some(2));
    assert_eq!(rt.runnable_len(), 1);
}

#[test]
fn exit_without_host_is_stranded() {
    let mut rt: Runtime<&'static str> = Runtime::new();
    rt.spawn_as(1, "a", stack(0), TRAMPOLINE);
    assert_eq!(rt.exit_current(), ExitStep::Stranded);
}

#[test]
fn bootstrap_twice_is_refused() {
    let mut rt: Runtime<&'static str> = Runtime::new();
    assert!(rt.main_regs().is_none());
    assert_eq!(rt.bootstrap(), Ok(()));
    assert_eq!(rt.bootstrap(), Err(BootstrapError::AlreadyRunning));
    let m = rt.main_regs().unwrap();
    assert_eq!(m.link(), 0);
    assert_eq!(m.stack_pointer(), 0);
    rt.main_regs_mut().slots[3] = 8;
    assert_eq!(rt.main_regs().unwrap().slots[3], 8);
}

#[test]
fn teardown_clears_everything() {
    let mut rt = started("a", 1);
    rt.spawn_as(2, "b", stack(1), TRAMPOLINE);
    rt.send(2, 4);
    rt.teardown();
    assert_eq!(rt.runnable_len(), 0);
    assert!(rt.main_regs().is_none());
    assert!(rt.id_available(1));
    assert!(rt.id_available(2));
    assert_eq!(rt.pop_message(2), None);
    assert_eq!(rt.bootstrap(), Ok(()));
}

#[test]
fn new_task_starts_at_trampoline_on_top_of_stack() {
    let mut rt = started("a", 1);
    let r = rt.current_regs();
    assert_eq!(r.link(), TRAMPOLINE);
    assert_eq!(r.stack_pointer(), (stack(0).base + MIB2) as u64);
    rt.current_regs_mut().slots[0] = 77;
    assert_eq!(rt.current_regs().slots[0], 77);
    assert_eq!(PAGE_SIZE, 4096);
}

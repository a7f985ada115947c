use j1939_gateway::connection::{
    bounded_step, deadline_after, transmit_result, echo_step, send_outcome, Connection, EchoStep, PollResult,
    SendError, Step, WorkerAction, WorkerError, ECHO_TIMEOUT_MS,
};
use j1939_gateway::frame::Frame;

fn frame(id: u32, payload: &[u8]) -> Frame {
    Frame::new(0, id, payload.to_vec(), 0)
}

#[test]
fn deadline_ends_idle_reads_only_after_it_passes() {
    let mut c = Connection::new(0xF9);
    let mut reader = c.iter_for(1000, 500);
    assert_eq!(reader.deadline, 1500);
    assert!(!reader.done);
    assert!(matches!(c.read_for(&mut reader, 1200), Step::Wait));
    assert!(matches!(c.read_for(&mut reader, 1500), Step::Wait));
    assert!(matches!(c.read_for(&mut reader, 1501), Step::Done));
    assert!(reader.done);
}

#[test]
fn deadline_never_cuts_off_a_frame() {
    let mut c = Connection::new(0xF9);
    let mut reader = c.iter_for(0, 10);
    c.start().unwrap();
    assert_eq!(c.worker_step(PollResult::Data(frame(5, &[1, 2]))), WorkerAction::Pushed);
    match c.read_for(&mut reader, 1_000_000) {
        Step::Yield(f) => assert_eq!(f.payload, vec![1, 2]),
        _ => panic!("frame held back"),
    }
    assert!(matches!(c.read_for(&mut reader, 1_000_000), Step::Done));
}

#[test]
fn bounded_step_cases() {
    assert!(matches!(bounded_step(None, 0, 10), Step::Done));
    assert!(matches!(bounded_step(Some(None), 10, 10), Step::Wait));
    assert!(matches!(bounded_step(Some(None), 11, 10), Step::Done));
    assert!(matches!(bounded_step(Some(Some(frame(1, &[]))), 99, 10), Step::Yield(_)));
}

#[test]
fn deadline_saturates() {
    assert_eq!(deadline_after(10, 20), 30);
    assert_eq!(deadline_after(u64::MAX - 1, 5), u64::MAX);
}

#[test]
fn send_returns_the_echo() {
    let mut c = Connection::new(0xF9);
    c.start().unwrap();
    let out = frame(0x18EAFFF9, &[0xEC, 0xFE, 0x00]);
    let wait = c.begin_send(&out, 100);
    assert_eq!(wait.deadline, 100 + ECHO_TIMEOUT_MS);
    assert!(matches!(c.poll_echo(&wait, 105), EchoStep::Wait));
    c.worker_step(PollResult::Data(frame(0x18FEF100, &[1, 2, 3])));
    assert!(matches!(c.poll_echo(&wait, 106), EchoStep::Wait));
    c.worker_step(PollResult::Data(Frame::new(0, 0x18EAFFF9, vec![0xEC, 0xFE, 0x00], 777)));
    match send_outcome(c.poll_echo(&wait, 110)) {
        Some(Ok(f)) => {
            assert_eq!(f.payload, vec![0xEC, 0xFE, 0x00]);
            assert_eq!(f.timestamp, 777);
        },
        _ => panic!("echo not found"),
    }
}

#[test]
fn send_times_out_without_echo() {
    let mut c = Connection::new(0xF9);
    c.start().unwrap();
    let out = frame(0x18EAFFF9, &[1]);
    let wait = c.begin_send(&out, 0);
    assert!(matches!(c.poll_echo(&wait, 1000), EchoStep::Wait));
    assert!(matches!(c.poll_echo(&wait, ECHO_TIMEOUT_MS), EchoStep::Wait));
    let step = c.poll_echo(&wait, ECHO_TIMEOUT_MS + 1);
    assert!(matches!(send_outcome(step), Some(Err(SendError::Timeout))));
}

#[test]
fn echo_step_ignores_other_payloads_and_times_out() {
    let sent = vec![1u8, 2];
    assert!(matches!(echo_step(&sent, Some(Some(frame(1, &[1]))), 5, 10), EchoStep::Wait));
    assert!(matches!(echo_step(&sent, Some(Some(frame(1, &[1]))), 11, 10), EchoStep::TimedOut));
    assert!(matches!(echo_step(&sent, Some(Some(frame(1, &[1, 2]))), 11, 10), EchoStep::Echoed(_)));
    assert!(matches!(echo_step(&sent, None, 0, 10), EchoStep::TimedOut));
}

#[test]
fn stopped_worker_pushes_nothing_and_cursors_end() {
    let mut c = Connection::new(0xF9);
    let cur = c.iter();
    assert_eq!(c.worker_step(PollResult::Data(frame(1, &[1]))), WorkerAction::Exit);
    c.start().unwrap();
    assert_eq!(c.start(), Err(WorkerError::AlreadyRunning));
    assert_eq!(c.worker_step(PollResult::Empty), WorkerAction::Idle);
    assert_eq!(c.worker_step(PollResult::Error(12)), WorkerAction::Backoff(12));
    c.stop();
    assert!(!c.is_running());
    assert_eq!(c.worker_step(PollResult::Data(frame(1, &[1]))), WorkerAction::Exit);
    assert!(matches!(c.read(cur), Some(None)));
    c.close();
    assert!(c.read(cur).is_none());
}

#[test]
fn close_connection_twice() {
    let mut c = Connection::new(0x10);
    let cur = c.iter();
    c.start().unwrap();
    c.close();
    c.close();
    assert!(!c.is_running());
    assert!(c.read(cur).is_none());
    assert_eq!(c.source_address(), 0x10);
    assert_eq!(c.cursor_count(), 1);
}

#[test]
fn failed_write_fails_the_send() {
    assert_eq!(transmit_result(0), Ok(()));
    assert_eq!(transmit_result(127), Ok(()));
    assert_eq!(transmit_result(-3), Err(SendError::Transmit(-3)));
    assert_eq!(transmit_result(128), Err(SendError::Transmit(128)));
}

#[test]
fn ended_reader_does_not_restart() {
    let mut c = Connection::new(0xF9);
    c.start().unwrap();
    let mut reader = c.iter_for(0, 10);
    assert!(matches!(c.read_for(&mut reader, 11), Step::Done));
    c.worker_step(PollResult::Data(frame(1, &[1])));
    assert!(matches!(c.read_for(&mut reader, 11), Step::Done));
    assert!(matches!(c.read_for(&mut reader, 5), Step::Done));
    assert!(c.read(reader.cursor).is_none());
}

#[test]
fn released_cursor_takes_nothing() {
    let mut c = Connection::new(0xF9);
    c.start().unwrap();
    let a = c.iter();
    let b = c.iter();
    c.worker_step(PollResult::Data(frame(1, &[1])));
    c.release(a);
    c.worker_step(PollResult::Data(frame(2, &[2])));
    assert!(c.read(a).is_none());
    assert_eq!(c.read(b).unwrap().unwrap().payload, vec![1]);
    assert_eq!(c.read(b).unwrap().unwrap().payload, vec![2]);
    assert_eq!(c.cursor_count(), 2);
}

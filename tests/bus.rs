use j1939_gateway::bus::PushBus;
use j1939_gateway::frame::Frame;

fn frame(id: u32, payload: &[u8]) -> Frame {
    Frame::new(0, id, payload.to_vec(), 0)
}

fn payload_of(r: Option<Option<Frame>>) -> Option<Option<Vec<u8>>> {
    r.map(|o| o.map(|f| f.payload))
}

#[test]
fn cursor_never_sees_frames_pushed_before_it() {
    let mut bus = PushBus::new();
    let early = bus.iter();
    bus.push(frame(1, &[1]));
    bus.push(frame(2, &[2]));
    let late = bus.iter();
    bus.push(frame(3, &[3]));
    bus.push(frame(4, &[4]));
    assert_eq!(payload_of(bus.next(late)), Some(Some(vec![3])));
    assert_eq!(payload_of(bus.next(late)), Some(Some(vec![4])));
    assert_eq!(payload_of(bus.next(late)), Some(None));
    assert_eq!(payload_of(bus.next(early)), Some(Some(vec![1])));
}

#[test]
fn push_without_cursors_is_dropped() {
    let mut bus = PushBus::new();
    bus.push(frame(1, &[9]));
    let c = bus.iter();
    assert_eq!(payload_of(bus.next(c)), Some(None));
}

#[test]
fn every_cursor_sees_the_same_frames_in_order() {
    let mut bus = PushBus::new();
    let cursors: Vec<usize> = (0..3).map(|_| bus.iter()).collect();
    for k in 0..5u8 {
        bus.push(frame(k as u32, &[k, k + 1]));
    }
    for &c in &cursors {
        for k in 0..5u8 {
            let f = bus.next(c).unwrap().unwrap();
            assert_eq!(f.id, k as u32);
            assert_eq!(f.payload, vec![k, k + 1]);
        }
        assert_eq!(payload_of(bus.next(c)), Some(None));
    }
    assert_eq!(bus.cursor_count(), 3);
}

#[test]
fn idle_until_data_then_end_after_close() {
    let mut bus = PushBus::new();
    let c = bus.iter();
    for _ in 0..10 {
        assert_eq!(payload_of(bus.next(c)), Some(None));
    }
    bus.push(frame(7, &[7, 7]));
    assert_eq!(payload_of(bus.next(c)), Some(Some(vec![7, 7])));
    assert_eq!(payload_of(bus.next(c)), Some(None));
    bus.close();
    assert_eq!(payload_of(bus.next(c)), None);
    assert_eq!(payload_of(bus.next(c)), None);
}

#[test]
fn closed_cursor_ends_even_with_pending_frames() {
    let mut bus = PushBus::new();
    let c = bus.iter();
    bus.push(frame(1, &[1]));
    bus.close();
    assert_eq!(payload_of(bus.next(c)), None);
}

#[test]
fn close_twice_is_close_once() {
    let mut once = PushBus::new();
    let mut twice = PushBus::new();
    let a = once.iter();
    let b = twice.iter();
    once.push(frame(1, &[1]));
    twice.push(frame(1, &[1]));
    once.close();
    twice.close();
    twice.close();
    once.push(frame(2, &[2]));
    twice.push(frame(2, &[2]));
    assert_eq!(payload_of(once.next(a)), None);
    assert_eq!(payload_of(twice.next(b)), None);
    let c = twice.iter();
    twice.push(frame(3, &[3]));
    assert_eq!(payload_of(twice.next(c)), Some(Some(vec![3])));
}

#[test]
fn release_drops_pending_frames() {
    let mut bus = PushBus::new();
    let a = bus.iter();
    bus.push(frame(1, &[1]));
    bus.release(a);
    bus.push(frame(2, &[2]));
    assert_eq!(payload_of(bus.next(a)), None);
}

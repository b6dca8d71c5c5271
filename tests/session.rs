use chat_server::registry::Registry;
use chat_server::relay::Relay;
use chat_server::session::{Action, Event, Session};

fn line(s: &[u8]) -> Event {
    Event::Line(s.to_vec())
}

fn relay_into(relay: &mut Relay, a: &Action) {
    if let Some(m) = &a.broadcast {
        relay.enqueue(m.clone());
    }
}

#[test]
fn third_connection_is_refused_when_room_holds_two() {
    let mut reg = Registry::new(2);
    let (mut s1, a1) = Session::open(&reg, 1);
    assert_eq!(a1.reply, Some(b"*Please enter a username: \n".to_vec()));
    s1.step(&mut reg, line(b"alice\n"));
    let (mut s2, _) = Session::open(&reg, 2);
    s2.step(&mut reg, line(b"bob\n"));
    let (s3, a3) = Session::open(&reg, 3);
    assert!(s3.is_terminated());
    assert_eq!(
        a3.reply,
        Some(b"Room is already at 2/2 capacity. Please quit and try again later.\n".to_vec())
    );
    assert!(a3.broadcast.is_none());
    assert!(!s1.is_terminated());
    assert!(!s2.is_terminated());
    assert_eq!(s1.username(), Some(&b"alice".to_vec()));
    assert_eq!(s2.username(), Some(&b"bob".to_vec()));
    assert_eq!(reg.len(), 2);
}

#[test]
fn room_filling_during_negotiation_refuses_the_late_name() {
    let mut reg = Registry::new(2);
    let (mut s1, _) = Session::open(&reg, 1);
    let (mut s2, _) = Session::open(&reg, 2);
    let (mut s3, a3) = Session::open(&reg, 3);
    assert_eq!(a3.reply, Some(b"*Please enter a username: \n".to_vec()));
    s1.step(&mut reg, line(b"a\n"));
    s2.step(&mut reg, line(b"b\n"));
    let a = s3.step(&mut reg, line(b"c\n"));
    assert!(s3.is_terminated());
    assert_eq!(
        a.reply,
        Some(b"Room is already at 2/2 capacity. Please quit and try again later.\n".to_vec())
    );
    assert_eq!(reg.len(), 2);
}

#[test]
fn join_chat_leave_stream_is_ordered() {
    let mut reg = Registry::new(4);
    let mut relay = Relay::new();
    let (mut observer, _) = Session::open(&reg, 100);
    relay_into(&mut relay, &observer.step(&mut reg, line(b"carol\n")));
    let _ = relay.next();

    let (mut alice, _) = Session::open(&reg, 1);
    let a = alice.step(&mut reg, line(b"alice\n"));
    assert!(a.reply.is_none());
    relay_into(&mut relay, &a);
    relay_into(&mut relay, &alice.step(&mut reg, line(b"hi\n")));
    relay_into(&mut relay, &alice.step(&mut reg, Event::Closed));
    assert!(alice.is_terminated());
    assert!(!reg.contains(b"alice"));

    let mut seen_by_observer: Vec<Vec<u8>> = Vec::new();
    while let Some(d) = relay.deliver_next(&reg) {
        if d.sinks.contains(&100) {
            seen_by_observer.push(d.message);
        }
    }
    assert_eq!(
        seen_by_observer,
        vec![
            b"*alice has joined. Say hello!\n".to_vec(),
            b"alice: hi\n".to_vec(),
            b"*alice has left.\n".to_vec(),
        ]
    );
}

#[test]
fn two_bobs_one_wins_other_retries() {
    let mut reg = Registry::new(4);
    let (mut c1, _) = Session::open(&reg, 1);
    let (mut c2, _) = Session::open(&reg, 2);
    let a1 = c1.step(&mut reg, line(b"bob\n"));
    let a2 = c2.step(&mut reg, line(b"bob\n"));
    assert_eq!(a1.broadcast, Some(b"*bob has joined. Say hello!\n".to_vec()));
    assert_eq!(a2.reply, Some(b"*Username taken, please try another.\n".to_vec()));
    assert!(a2.broadcast.is_none());
    assert_eq!(c1.username(), Some(&b"bob".to_vec()));
    assert_eq!(c2.username(), None);
    assert!(!c2.is_terminated());
    let a3 = c2.step(&mut reg, line(b"bobby\n"));
    assert_eq!(a3.broadcast, Some(b"*bobby has joined. Say hello!\n".to_vec()));
    assert_eq!(c2.username(), Some(&b"bobby".to_vec()));
    assert_eq!(reg.sinks(), vec![1, 2]);
}

#[test]
fn closing_before_a_name_is_silent() {
    let mut reg = Registry::new(4);
    let (mut s, _) = Session::open(&reg, 1);
    let a = s.step(&mut reg, Event::Closed);
    assert!(a.reply.is_none());
    assert!(a.broadcast.is_none());
    assert!(s.is_terminated());
    assert_eq!(reg.len(), 0);
}

#[test]
fn terminated_session_ignores_events() {
    let mut reg = Registry::new(4);
    let (mut s, _) = Session::open(&reg, 1);
    s.step(&mut reg, line(b"dave\n"));
    s.step(&mut reg, Event::Closed);
    let a = s.step(&mut reg, line(b"again\n"));
    assert!(a.reply.is_none());
    assert!(a.broadcast.is_none());
    let a = s.step(&mut reg, Event::Closed);
    assert!(a.broadcast.is_none());
    assert!(s.is_terminated());
}

#[test]
fn empty_name_becomes_default_in_session() {
    let mut reg = Registry::new(4);
    let (mut s, _) = Session::open(&reg, 1);
    let a = s.step(&mut reg, line(b"\n"));
    assert_eq!(a.broadcast, Some(b"*Default_Username has joined. Say hello!\n".to_vec()));
    assert_eq!(s.username(), Some(&b"Default_Username".to_vec()));
}

#[test]
fn long_line_is_broadcast_truncated() {
    let mut reg = Registry::new(4);
    let (mut s, _) = Session::open(&reg, 1);
    s.step(&mut reg, line(b"eve\n"));
    let mut long = vec![b'z'; 200];
    long.push(b'\n');
    let a = s.step(&mut reg, Event::Line(long));
    let m = a.broadcast.unwrap();
    assert_eq!(m.len(), 128);
    assert_eq!(m[127], b'\n');
    assert_eq!(&m[..5], b"eve: ");
}

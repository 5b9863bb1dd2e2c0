use shpool_protocol::{
    frame_connect_header, supervise, AttachHeader, AttachReplyHeader, AttachStatus,
    ConnEvent, ConnState, ConnectHeader, DetachReply, DetachRequest, KillRequest, ListReply,
    ProtocolViolation, Pump, PumpAction, ResizeReply, ResizeRequest, Session,
    SessionMessageReply, SessionMessageRequest, SessionMessageRequestPayload, Size,
};

fn header_with_env(env: &[(&str, &str)]) -> AttachHeader {
    AttachHeader {
        name: "x".to_string(),
        local_tty_size: Size::new(24, 80),
        local_env: env.iter().map(|(k, v)| (k.to_string(), v.to_string())).collect(),
    }
}

#[test]
fn env_lookup_first_match_wins() {
    let h = header_with_env(&[("TERM", "xterm"), ("SSH_AUTH_SOCK", "/tmp/a"), ("TERM", "vt100")]);
    assert_eq!(h.local_env_get("TERM"), Some("xterm"));
    assert_eq!(h.local_env_get("SSH_AUTH_SOCK"), Some("/tmp/a"));
    assert_eq!(h.local_env_get("HOME"), None);
    assert_eq!(h.local_env_get(""), None);
}

#[test]
fn env_lookup_on_empty_env() {
    let h = AttachHeader::default();
    assert_eq!(h.local_env_get("TERM"), None);
    assert_eq!(h.name, "");
    assert_eq!(h.local_tty_size, Size::default());
}

#[test]
fn list_exchange() {
    let req = ConnectHeader::List;
    assert!(!req.is_attach());
    let s = ConnState::Fresh.step(ConnEvent::HeaderWritten { attach: req.is_attach() }).unwrap();
    assert_eq!(s, ConnState::AwaitingReply);
    let reply = ListReply {
        sessions: vec![
            Session { name: "a".to_string(), started_at_unix_ms: 1 },
            Session { name: "b".to_string(), started_at_unix_ms: 2 },
        ],
    };
    let got: Vec<(&str, i64)> =
        reply.sessions.iter().map(|s| (s.name.as_str(), s.started_at_unix_ms)).collect();
    assert_eq!(got, vec![("a", 1), ("b", 2)]);
    assert_eq!(s.step(ConnEvent::ReplyRead { relay: false }), Ok(ConnState::Closed));
}

#[test]
fn attach_created_enters_relay() {
    let header = header_with_env(&[("TERM", "xterm-256color")]);
    assert_eq!(header.local_tty_size.pixel_rows, 0);
    let req = ConnectHeader::Attach(header);
    assert!(req.is_attach());
    let reply = AttachReplyHeader { status: AttachStatus::Created };
    assert!(reply.status.enters_relay());
    assert!(AttachStatus::Attached.enters_relay());
    let s = ConnState::Fresh.step(ConnEvent::HeaderWritten { attach: true }).unwrap();
    assert_eq!(s, ConnState::HeaderSent);
    let s = s.step(ConnEvent::ReplyRead { relay: reply.status.enters_relay() }).unwrap();
    assert_eq!(s, ConnState::Relaying);
    assert_eq!(s.step(ConnEvent::RelayEnded), Ok(ConnState::Closed));
}

#[test]
fn attach_busy_does_not_relay() {
    let status = AttachStatus::Busy;
    assert!(!status.enters_relay());
    assert!(!AttachStatus::Forbidden("no".to_string()).enters_relay());
    assert!(!AttachStatus::UnexpectedError("boom".to_string()).enters_relay());
    let s = ConnState::HeaderSent.step(ConnEvent::ReplyRead { relay: false });
    assert_eq!(s, Ok(ConnState::Closed));
}

#[test]
fn attach_status_equality() {
    assert!(AttachStatus::Busy == AttachStatus::Busy);
    assert!(AttachStatus::Busy != AttachStatus::Created);
    assert!(AttachStatus::Forbidden("a".to_string()) == AttachStatus::Forbidden("a".to_string()));
    assert!(AttachStatus::Forbidden("a".to_string()) != AttachStatus::Forbidden("b".to_string()));
    assert!(AttachStatus::Forbidden("a".to_string()) != AttachStatus::UnexpectedError("a".to_string()));
}

#[test]
fn resize_message() {
    let req = ConnectHeader::SessionMessage(SessionMessageRequest {
        session_name: "x".to_string(),
        payload: SessionMessageRequestPayload::Resize(ResizeRequest { tty_size: Size::new(40, 132) }),
    });
    match &req {
        ConnectHeader::SessionMessage(m) => {
            assert_eq!(m.session_name, "x");
            match &m.payload {
                SessionMessageRequestPayload::Resize(r) => {
                    assert_eq!(r.tty_size, Size { rows: 40, cols: 132, pixel_rows: 0, pixel_cols: 0 })
                },
                SessionMessageRequestPayload::Detach => panic!("wrong payload"),
            }
        },
        _ => panic!("wrong variant"),
    }
    let reply = SessionMessageReply::Resize(ResizeReply::Success);
    assert_eq!(reply, SessionMessageReply::Resize(ResizeReply::Success));
    assert_ne!(reply, SessionMessageReply::NotFound);
}

#[test]
fn detach_unknown_session() {
    let req = ConnectHeader::Detach(DetachRequest { sessions: vec!["ghost".to_string()] });
    assert!(!req.is_attach());
    let reply = DetachReply { not_found_sessions: vec!["ghost".to_string()], not_attached_sessions: vec![] };
    assert_eq!(reply.not_found_sessions, vec!["ghost".to_string()]);
    assert!(reply.not_attached_sessions.is_empty());
    assert!(!ConnectHeader::Kill(KillRequest { sessions: vec![] }).is_attach());
}

#[test]
fn out_of_place_events_are_violations() {
    let e = ConnEvent::ReplyRead { relay: true };
    assert_eq!(
        ConnState::Fresh.step(e),
        Err(ProtocolViolation { state: ConnState::Fresh, event: e })
    );
    assert!(ConnState::AwaitingReply.step(e).is_err());
    assert!(ConnState::Closed.step(ConnEvent::RelayEnded).is_err());
    assert!(ConnState::HeaderSent.step(ConnEvent::HeaderWritten { attach: true }).is_err());
}

#[test]
fn connect_header_gets_length_prefix() {
    let framed = frame_connect_header(&[9, 8, 7]).unwrap();
    assert_eq!(framed, vec![3, 0, 0, 0, 9, 8, 7]);
    assert_eq!(frame_connect_header(&[]).unwrap(), vec![0, 0, 0, 0]);
    let big = vec![1u8; 300];
    assert_eq!(&frame_connect_header(&big).unwrap()[..4], &[44, 1, 0, 0]);
}

#[test]
fn pump_stops_once_flag_is_set() {
    let mut p = Pump::new();
    assert_eq!(p.next_action(false), PumpAction::Fill);
    assert_eq!(p.next_action(true), PumpAction::Stop);
    p.fill(b"abc");
    assert_eq!(p.next_action(false), PumpAction::Drain);
    assert_eq!(p.next_action(true), PumpAction::Stop);
    assert!(!supervise(false, false, false));
    assert!(supervise(false, true, false));
    assert!(supervise(false, false, true));
    assert!(supervise(true, false, false));
}

#[test]
fn pump_passes_bytes_through_in_order() {
    let mut p = Pump::new();
    let mut sent = Vec::new();
    for piece in [&b"hello"[..], &b""[..], &b" there"[..]] {
        p.fill(piece);
        while p.next_action(false) == PumpAction::Drain {
            let pending = p.pending();
            let n = pending.len().min(2);
            sent.extend_from_slice(&pending[..n]);
            p.drained(n);
        }
    }
    assert_eq!(sent, b"hello there".to_vec());
    assert_eq!(p.pending(), b"");
}

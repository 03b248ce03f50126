use patoka::transport::{backend_ingress, frontend_ingress, FramePart, RawMessage};

fn text_part(s: &str) -> FramePart {
    FramePart { bytes: s.as_bytes().to_vec(), text: Some(s.to_string()) }
}

fn bytes_part(b: &[u8]) -> FramePart {
    FramePart { bytes: b.to_vec(), text: None }
}

/// A connector of the active router sends `(identity, body)` to its backend;
/// the active router forwards the body alone on its frontend; the passive
/// router receives it with the peer identity that its routing socket assigns.
fn active_to_passive(msg: &RawMessage, peer: &[u8]) -> RawMessage {
    let be = vec![b"connector".to_vec(), msg.identity.clone(), msg.body.as_bytes().to_vec()];
    let out = backend_ingress(true, be).unwrap();
    assert_eq!(out.len(), 1);
    let body = String::from_utf8(out[0].clone()).unwrap();
    frontend_ingress(false, vec![bytes_part(peer), text_part(&body)]).unwrap()
}

/// A connector of the passive router replies to a peer; the passive router
/// prepends the peer identity; the active router receives the body alone.
fn passive_to_active(msg: &RawMessage) -> (Vec<u8>, RawMessage) {
    let be = vec![b"connector".to_vec(), msg.identity.clone(), msg.body.as_bytes().to_vec()];
    let out = backend_ingress(false, be).unwrap();
    assert_eq!(out.len(), 2);
    let body = String::from_utf8(out[1].clone()).unwrap();
    (out[0].clone(), frontend_ingress(true, vec![text_part(&body)]).unwrap())
}

#[test]
fn test_frontend() {
    let peer = b"peer-1".to_vec();
    let mut acc = String::new();
    let mut stopped = false;
    for body in ["aaa", "bbb", "ccc", "stop"] {
        let m = RawMessage::new(Vec::new(), body);
        let got = active_to_passive(&m, &peer);
        assert_eq!(got.identity, peer);
        if got.body == "stop" {
            stopped = true;
            break;
        }
        acc.push_str(&got.body);
    }
    assert!(stopped);
    assert_eq!(acc, "aaabbbccc");
}

#[test]
fn test_full() {
    let peer = b"peer-2".to_vec();
    let ping = RawMessage::new(Vec::new(), "ping");
    let at_passive = active_to_passive(&ping, &peer);
    assert_eq!(at_passive.body, "ping");
    let reply = RawMessage::new(at_passive.identity.clone(), &(at_passive.body.clone() + "pong"));
    let (routed_to, at_active) = passive_to_active(&reply);
    assert_eq!(routed_to, peer);
    assert!(at_active.identity.is_empty());
    let back = RawMessage::new(Vec::new(), &(at_active.body.clone() + "ping"));
    let acc = active_to_passive(&back, &peer);
    assert_eq!(acc.body, "pingpongping");
}

#[test]
fn passive_frontend_keeps_identity() {
    let m = frontend_ingress(false, vec![bytes_part(b"id"), text_part("body")]).unwrap();
    assert_eq!(m.identity, b"id".to_vec());
    assert_eq!(m.body, "body");
}

#[test]
fn active_frontend_has_empty_identity() {
    let m = frontend_ingress(true, vec![text_part("body")]).unwrap();
    assert!(m.identity.is_empty());
    assert_eq!(m.body, "body");
}

#[test]
fn malformed_frames_are_dropped() {
    assert!(frontend_ingress(false, vec![text_part("only")]).is_none());
    assert!(frontend_ingress(true, vec![bytes_part(b"id"), text_part("b")]).is_none());
    assert!(frontend_ingress(false, vec![bytes_part(b"id"), bytes_part(&[0xff, 0xfe])]).is_none());
    assert!(backend_ingress(false, vec![b"c".to_vec(), b"id".to_vec()]).is_none());
}

#[test]
fn backend_strips_connector_identity() {
    let out = backend_ingress(false, vec![b"c".to_vec(), b"id".to_vec(), b"x".to_vec()]).unwrap();
    assert_eq!(out, vec![b"id".to_vec(), b"x".to_vec()]);
    let out = backend_ingress(true, vec![b"c".to_vec(), b"id".to_vec(), b"x".to_vec()]).unwrap();
    assert_eq!(out, vec![b"x".to_vec()]);
}

#[test]
fn router_settings() {
    let w = patoka::worker_router::start("5555");
    assert_eq!(w.frontend_address, "tcp://*:5555");
    assert_eq!(w.backend_address, "inproc://router");
    assert!(!w.active_mode);
    let c = patoka::center_router::start(Some("tcp://center:7000".to_string()));
    assert_eq!(c.frontend_address, "tcp://center:7000");
    assert_eq!(c.backend_address, "inproc://center_router");
    assert!(c.active_mode);
    let c = patoka::center_router::start(None);
    assert_eq!(c.frontend_address, "");
}

#[test]
fn stopping_a_router() {
    let mut reg = patoka::router_registry::RouterRegistry::new();
    let a = "inproc://router_be".to_string();
    reg.register_running(a.clone());
    assert!(reg.is_running(&a));
    let plan = reg.stop(a.clone());
    assert!(plan.clear_flag && !plan.wake_up);
    assert!(!reg.is_running(&a));
    reg.register_connector("inproc://other".to_string());
    let plan = reg.stop("inproc://other".to_string());
    assert!(!plan.clear_flag && plan.wake_up);
}

//! Raw frames and the routing rules of the two-socket message router.

use vstd::prelude::*;

verus! {

/// A frame as the dispatchers see it: the transport identity of a peer and a
/// text body.
pub struct RawMessage {
    pub identity: Vec<u8>,
    pub body: String,
}

/// A raw message as a value.
pub struct RawView {
    pub identity: Seq<u8>,
    pub body: Seq<char>,
}

impl View for RawMessage {
    type V = RawView;

    open spec fn view(&self) -> RawView {
        RawView { identity: self.identity@, body: self.body@ }
    }
}

impl RawMessage {
    pub fn new(identity: Vec<u8>, body: &str) -> (r: Self)
        ensures
            r@ == (RawView { identity: identity@, body: body@ }),
    {
        RawMessage { identity, body: String::from_str(body) }
    }

    /// A message with no identity and no body, used to wake a router.
    pub fn dummy() -> (r: Self)
        ensures
            r@.identity.len() == 0,
            r@.body.len() == 0,
    {
        RawMessage { identity: Vec::new(), body: String::new() }
    }

    pub fn with_body(body: &str) -> (r: Self)
        ensures
            r@.identity.len() == 0,
            r@.body == body@,
    {
        RawMessage { identity: Vec::new(), body: String::from_str(body) }
    }

    /// A copy with the same identity and body.
    pub fn copy(&self) -> (r: Self)
        ensures
            r@ == self@,
    {
        let identity = self.identity.clone();
        assert(identity@ =~= self.identity@);
        RawMessage { identity, body: self.body.clone() }
    }
}

/// One part of a multi-part frame: its bytes and, when they are UTF-8, the
/// text they spell.
pub struct FramePart {
    pub bytes: Vec<u8>,
    pub text: Option<String>,
}

/// What the dispatcher receives for the parts of one frontend frame: in
/// passive mode an identity and a text body, in active mode a text body
/// alone, under an empty identity. Any other shape is dropped.
pub open spec fn frontend_message(active_mode: bool, parts: Seq<FramePart>) -> Option<RawView> {
    if active_mode {
        if parts.len() == 1 && parts[0].text is Some {
            Some(RawView { identity: seq![], body: parts[0].text->Some_0@ })
        } else {
            None
        }
    } else {
        if parts.len() == 2 && parts[1].text is Some {
            Some(RawView { identity: parts[0].bytes@, body: parts[1].text->Some_0@ })
        } else {
            None
        }
    }
}

/// What goes out of the frontend for the parts of one backend frame
/// (connector identity, peer identity, body): the peer identity and the body
/// in passive mode, the body alone in active mode. Any other shape is dropped.
pub open spec fn backend_parts(active_mode: bool, parts: Seq<Seq<u8>>) -> Option<Seq<Seq<u8>>> {
    if parts.len() != 3 {
        None
    } else if active_mode {
        Some(seq![parts[2]])
    } else {
        Some(seq![parts[1], parts[2]])
    }
}

/// Frontend ingress of the router.
pub fn frontend_ingress(active_mode: bool, parts: Vec<FramePart>) -> (r: Option<RawMessage>)
    ensures
        match r {
            Some(m) => frontend_message(active_mode, parts@) == Some(m@),
            None => frontend_message(active_mode, parts@) is None,
        },
{
    let mut parts = parts;
    if active_mode {
        if parts.len() != 1 {
            return None;
        }
        let body = parts.pop().unwrap();
        match body.text {
            Some(t) => Some(RawMessage { identity: Vec::new(), body: t }),
            None => None,
        }
    } else {
        if parts.len() != 2 {
            return None;
        }
        let body = parts.pop().unwrap();
        let identity = parts.pop().unwrap();
        match body.text {
            Some(t) => Some(RawMessage { identity: identity.bytes, body: t }),
            None => None,
        }
    }
}

/// Backend ingress of the router: the parts to send on the frontend.
pub fn backend_ingress(active_mode: bool, parts: Vec<Vec<u8>>) -> (r: Option<Vec<Vec<u8>>>)
    ensures
        match r {
            Some(out) => backend_parts(active_mode, parts@.map_values(|p: Vec<u8>| p@))
                == Some(out@.map_values(|p: Vec<u8>| p@)),
            None => backend_parts(active_mode, parts@.map_values(|p: Vec<u8>| p@)) is None,
        },
{
    if parts.len() != 3 {
        return None;
    }
    let ghost pv = parts@.map_values(|p: Vec<u8>| p@);
    let mut parts = parts;
    let body = parts.pop().unwrap();
    let identity = parts.pop().unwrap();
    let mut out: Vec<Vec<u8>> = Vec::new();
    if !active_mode {
        out.push(identity);
    }
    out.push(body);
    if active_mode {
        assert(out@.map_values(|p: Vec<u8>| p@) =~= seq![pv[2]]);
    } else {
        assert(out@.map_values(|p: Vec<u8>| p@) =~= seq![pv[1], pv[2]]);
    }
    Some(out)
}

/// A peer's frame reaches the dispatcher whole: through a passive router
/// with the peer's identity, through an active one with an empty identity.
pub proof fn lemma_router_symmetry(identity: FramePart, body: FramePart, text: String)
    requires
        body.text == Some(text),
    ensures
        frontend_message(false, seq![identity, body]) == Some(RawView { identity: identity.bytes@, body: text@ }),
        frontend_message(true, seq![body]) == Some(RawView { identity: seq![], body: text@ }),
{
}

/// Where a router listens and connects, and in which mode.
pub struct RouterSettings {
    pub frontend_address: String,
    pub backend_address: String,
    pub active_mode: bool,
}

} // verus!

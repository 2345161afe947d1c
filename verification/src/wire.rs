//! SIP messages as plain values: what the rules read of a request, a response
//! and their headers.
use vstd::prelude::*;

use crate::json::{clone_opt_json, opt_json, Node, Step};
use crate::seqs::{opt_view, opt_views, views};
use crate::text::{clone_bytes, clone_opt_texts};

verus! {

/// A SIP request method.
#[derive(Debug)]
pub enum Method {
    Invite,
    Ack,
    Bye,
    Cancel,
    Options,
    Info,
    Prack,
    Update,
    Refer,
    Message,
    Subscribe,
    Notify,
    /// Any method the rules know no name for.
    Other { name: String },
}

/// The mathematical value of a [`Method`].
pub enum MethodView {
    Invite,
    Ack,
    Bye,
    Cancel,
    Options,
    Info,
    Prack,
    Update,
    Refer,
    Message,
    Subscribe,
    Notify,
    Other { name: Seq<char> },
}

impl View for Method {
    type V = MethodView;

    open spec fn view(&self) -> MethodView {
        match self {
            Method::Invite => MethodView::Invite,
            Method::Ack => MethodView::Ack,
            Method::Bye => MethodView::Bye,
            Method::Cancel => MethodView::Cancel,
            Method::Options => MethodView::Options,
            Method::Info => MethodView::Info,
            Method::Prack => MethodView::Prack,
            Method::Update => MethodView::Update,
            Method::Refer => MethodView::Refer,
            Method::Message => MethodView::Message,
            Method::Subscribe => MethodView::Subscribe,
            Method::Notify => MethodView::Notify,
            Method::Other { name } => MethodView::Other { name: name@ },
        }
    }
}

impl Clone for Method {
    fn clone(&self) -> (r: Self)
        ensures
            r@ == self@,
    {
        match self {
            Method::Invite => Method::Invite,
            Method::Ack => Method::Ack,
            Method::Bye => Method::Bye,
            Method::Cancel => Method::Cancel,
            Method::Options => Method::Options,
            Method::Info => Method::Info,
            Method::Prack => Method::Prack,
            Method::Update => Method::Update,
            Method::Refer => Method::Refer,
            Method::Message => Method::Message,
            Method::Subscribe => Method::Subscribe,
            Method::Notify => Method::Notify,
            Method::Other { name } => Method::Other { name: name.clone() },
        }
    }
}

impl PartialEq for Method {
    fn eq(&self, other: &Self) -> (r: bool) {
        match (self, other) {
            (Method::Invite, Method::Invite) => true,
            (Method::Ack, Method::Ack) => true,
            (Method::Bye, Method::Bye) => true,
            (Method::Cancel, Method::Cancel) => true,
            (Method::Options, Method::Options) => true,
            (Method::Info, Method::Info) => true,
            (Method::Prack, Method::Prack) => true,
            (Method::Update, Method::Update) => true,
            (Method::Refer, Method::Refer) => true,
            (Method::Message, Method::Message) => true,
            (Method::Subscribe, Method::Subscribe) => true,
            (Method::Notify, Method::Notify) => true,
            (Method::Other { name: a }, Method::Other { name: b }) => *a == *b,
            _ => false,
        }
    }
}

impl vstd::std_specs::cmp::PartialEqSpecImpl for Method {
    open spec fn obeys_eq_spec() -> bool {
        true
    }

    open spec fn eq_spec(&self, other: &Self) -> bool {
        self@ == other@
    }
}

/// One header line. A name is held in its long form, in any case.
#[derive(Debug, PartialEq)]
pub struct SipHeader {
    pub name: String,
    pub value: String,
}

/// The mathematical value of a [`SipHeader`].
pub struct SipHeaderView {
    pub name: Seq<char>,
    pub value: Seq<char>,
}

impl View for SipHeader {
    type V = SipHeaderView;

    open spec fn view(&self) -> SipHeaderView {
        SipHeaderView {
            name: self.name@,
            value: self.value@,
        }
    }
}

impl Clone for SipHeader {
    fn clone(&self) -> (r: Self)
        ensures
            r@ == self@,
    {
        let r = SipHeader {
            name: self.name.clone(),
            value: self.value.clone(),
        };
        r
    }
}

/// A header that a decision sets or removes.
#[derive(Debug, PartialEq)]
pub struct HeaderUpdate {
    pub name: String,
    /// The value to set; nothing removes the header.
    pub value: Option<String>,
}

/// The mathematical value of a [`HeaderUpdate`].
pub struct HeaderUpdateView {
    pub name: Seq<char>,
    pub value: Option<Seq<char>>,
}

impl View for HeaderUpdate {
    type V = HeaderUpdateView;

    open spec fn view(&self) -> HeaderUpdateView {
        HeaderUpdateView {
            name: self.name@,
            value: opt_view(self.value),
        }
    }
}

impl Clone for HeaderUpdate {
    fn clone(&self) -> (r: Self)
        ensures
            r@ == self@,
    {
        let r = HeaderUpdate {
            name: self.name.clone(),
            value: self.value.clone(),
        };
        r
    }
}

/// A network address.
#[derive(Debug, PartialEq)]
pub struct HostPort {
    pub host: String,
    pub port: u16,
}

/// The mathematical value of a [`HostPort`].
pub struct HostPortView {
    pub host: Seq<char>,
    pub port: u16,
}

impl View for HostPort {
    type V = HostPortView;

    open spec fn view(&self) -> HostPortView {
        HostPortView {
            host: self.host@,
            port: self.port,
        }
    }
}

impl Clone for HostPort {
    fn clone(&self) -> (r: Self)
        ensures
            r@ == self@,
    {
        let r = HostPort {
            host: self.host.clone(),
            port: self.port,
        };
        r
    }
}

/// A received request, as far as the rules read it.
#[derive(Debug, PartialEq)]
pub struct SipRequest {
    pub method: Method,
    pub cseq: i64,
    pub to_tag: Option<String>,
    /// Every header line, in wire order.
    pub headers: Vec<SipHeader>,
    /// The lines a relay of this request restates.
    pub relayable: Vec<SipHeader>,
    /// The `Max-Forwards` a relay of this request states.
    pub hops: u32,
    pub body: Vec<u8>,
}

/// The mathematical value of a [`SipRequest`].
pub struct SipRequestView {
    pub method: MethodView,
    pub cseq: i64,
    pub to_tag: Option<Seq<char>>,
    pub headers: Seq<SipHeaderView>,
    pub relayable: Seq<SipHeaderView>,
    pub hops: u32,
    pub body: Seq<u8>,
}

impl View for SipRequest {
    type V = SipRequestView;

    open spec fn view(&self) -> SipRequestView {
        SipRequestView {
            method: self.method@,
            cseq: self.cseq,
            to_tag: opt_view(self.to_tag),
            headers: views(self.headers@),
            relayable: views(self.relayable@),
            hops: self.hops,
            body: self.body@,
        }
    }
}

impl Clone for SipRequest {
    fn clone(&self) -> (r: Self)
        ensures
            r@ == self@,
    {
        let r = SipRequest {
            method: self.method.clone(),
            cseq: self.cseq,
            to_tag: self.to_tag.clone(),
            headers: self.headers.clone(),
            relayable: self.relayable.clone(),
            hops: self.hops,
            body: clone_bytes(&self.body),
        };
        assert(views(r.headers@) =~= views(self.headers@));
        assert(views(r.relayable@) =~= views(self.relayable@));
        r
    }
}

/// A received response, as far as the rules read it.
#[derive(Debug, PartialEq)]
pub struct SipResponse {
    pub status: u16,
    pub reason: String,
    pub cseq: i64,
    /// The method of the request it answers.
    pub method: Method,
    pub to_tag: Option<String>,
    /// Every header line, in wire order.
    pub headers: Vec<SipHeader>,
    /// The lines a relay of this response restates.
    pub relayable: Vec<SipHeader>,
    pub body: Vec<u8>,
}

/// The mathematical value of a [`SipResponse`].
pub struct SipResponseView {
    pub status: u16,
    pub reason: Seq<char>,
    pub cseq: i64,
    pub method: MethodView,
    pub to_tag: Option<Seq<char>>,
    pub headers: Seq<SipHeaderView>,
    pub relayable: Seq<SipHeaderView>,
    pub body: Seq<u8>,
}

impl View for SipResponse {
    type V = SipResponseView;

    open spec fn view(&self) -> SipResponseView {
        SipResponseView {
            status: self.status,
            reason: self.reason@,
            cseq: self.cseq,
            method: self.method@,
            to_tag: opt_view(self.to_tag),
            headers: views(self.headers@),
            relayable: views(self.relayable@),
            body: self.body@,
        }
    }
}

impl Clone for SipResponse {
    fn clone(&self) -> (r: Self)
        ensures
            r@ == self@,
    {
        let r = SipResponse {
            status: self.status,
            reason: self.reason.clone(),
            cseq: self.cseq,
            method: self.method.clone(),
            to_tag: self.to_tag.clone(),
            headers: self.headers.clone(),
            relayable: self.relayable.clone(),
            body: clone_bytes(&self.body),
        };
        assert(views(r.headers@) =~= views(self.headers@));
        assert(views(r.relayable@) =~= views(self.relayable@));
        r
    }
}

/// One target of a redirect.
#[derive(Debug, PartialEq)]
pub struct RedirectContact {
    pub uri: String,
    /// The preference, as the decision wrote it.
    pub q: Option<serde_json::Value>,
}

/// The mathematical value of a [`RedirectContact`].
pub struct RedirectContactView {
    pub uri: Seq<char>,
    pub q: Option<Map<Seq<Step>, Node>>,
}

impl View for RedirectContact {
    type V = RedirectContactView;

    open spec fn view(&self) -> RedirectContactView {
        RedirectContactView {
            uri: self.uri@,
            q: opt_json(self.q),
        }
    }
}

impl Clone for RedirectContact {
    fn clone(&self) -> (r: Self)
        ensures
            r@ == self@,
    {
        let r = RedirectContact {
            uri: self.uri.clone(),
            q: clone_opt_json(&self.q),
        };
        r
    }
}

/// What one face advertises: the methods, the option tags and the body types.
/// A half that is absent states no line; one that is empty states the empty set.
#[derive(Debug, PartialEq)]
pub struct CapabilitySet {
    pub allow: Option<Vec<String>>,
    pub supported: Option<Vec<String>>,
    pub accept: Option<Vec<String>>,
}

/// The mathematical value of a [`CapabilitySet`].
pub struct CapabilitySetView {
    pub allow: Option<Seq<Seq<char>>>,
    pub supported: Option<Seq<Seq<char>>>,
    pub accept: Option<Seq<Seq<char>>>,
}

impl View for CapabilitySet {
    type V = CapabilitySetView;

    open spec fn view(&self) -> CapabilitySetView {
        CapabilitySetView {
            allow: opt_views(self.allow),
            supported: opt_views(self.supported),
            accept: opt_views(self.accept),
        }
    }
}

impl Clone for CapabilitySet {
    fn clone(&self) -> (r: Self)
        ensures
            r@ == self@,
    {
        let r = CapabilitySet {
            allow: clone_opt_texts(&self.allow),
            supported: clone_opt_texts(&self.supported),
            accept: clone_opt_texts(&self.accept),
        };
        r
    }
}

} // verus!

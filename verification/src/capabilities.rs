//! Which capability set is advertised on each face of a call.
//!
//! Most specific first: a header stated on the message itself, then the set
//! the call declares for the face, then the set relayed from the peer; and
//! where nothing was declared and nothing received, no line at all. The halves
//! resolve independently, and a half declared empty states the empty set.
use vstd::prelude::*;

use crate::call::{
    AdvertisedCapabilities, AdvertisedCapabilitiesView, Call, FeatureActivations,
    FeatureActivationsView, LegKind, OptionTagUse, OptionTagView,
};
use crate::headers::{among, has_header, has_line, header_lines, header_values, name_among};
use crate::json::{clone_opt_json, opt_json, Node, Step};
use crate::seqs::{keep, keep_sound, keep_step, opt_view, opt_views, views};
use crate::text::{
    chars_of, eq_ignore_case, join, join_text, same, same_ignoring_case, split, split_text, trim,
    trim_text,
};
use crate::wire::{CapabilitySet, CapabilitySetView, SipHeader, SipHeaderView};

verus! {

/// The face of the bridge an advertisement is emitted on. A call with several
/// originated legs has one originated face.
#[derive(Clone, Copy, PartialEq, Eq, Debug, Structural)]
pub enum Face {
    /// Toward the caller.
    Originator,
    /// Toward a leg this stack originated.
    Originated,
}

/// The headers an advertisement is made of.
#[derive(Clone, Copy, PartialEq, Eq, Debug, Structural)]
pub enum HeaderName {
    Allow,
    Supported,
    Accept,
}

/// The name of an advertisement header.
pub open spec fn name_text(n: HeaderName) -> Seq<char> {
    match n {
        HeaderName::Allow => "Allow"@,
        HeaderName::Supported => "Supported"@,
        HeaderName::Accept => "Accept"@,
    }
}

impl HeaderName {
    /// The name on the wire.
    pub fn as_wire_str(&self) -> (r: &'static str)
        ensures
            r@ == name_text(*self),
    {
        match self {
            HeaderName::Allow => "Allow",
            HeaderName::Supported => "Supported",
            HeaderName::Accept => "Accept",
        }
    }
}

/// The face a leg sits on.
pub open spec fn face_of_leg(leg_id: Seq<char>) -> Face {
    if leg_id == "a"@ {
        Face::Originator
    } else {
        Face::Originated
    }
}

impl Face {
    /// The face `leg_id` sits on: `"a"` is the caller's leg, every other one
    /// this stack originated.
    pub fn of_leg(leg_id: &str) -> (r: Face)
        ensures
            r == face_of_leg(leg_id@),
    {
        if same(leg_id, "a") {
            Face::Originator
        } else {
            Face::Originated
        }
    }
}

// ── tokens ──────────────────────────────────────────────────────────────
/// A character of a SIP token.
pub open spec fn is_token_char(c: char) -> bool {
    ||| 'a' <= c && c <= 'z'
    ||| 'A' <= c && c <= 'Z'
    ||| '0' <= c && c <= '9'
    ||| c == '-' || c == '.' || c == '!' || c == '%' || c == '*' || c == '_' || c == '+' || c
        == '`' || c == '\'' || c == '~'
}

/// A SIP token: one or more token characters.
pub open spec fn is_token() -> spec_fn(Seq<char>) -> bool {
    |s: Seq<char>|
        s.len() > 0 && forall|i: int| 0 <= i < s.len() ==> is_token_char(#[trigger] s[i])
}

/// Whether a text is a SIP token.
pub fn token(s: &str) -> (r: bool)
    ensures
        r == is_token()(s@),
{
    let cs = chars_of(s);
    if cs.len() == 0 {
        return false;
    }
    for i in 0..cs.len()
        invariant
            cs@ == s@,
            forall|j: int| 0 <= j < i ==> is_token_char(#[trigger] s@[j]),
    {
        let c = cs[i];
        let ok = ('a' <= c && c <= 'z') || ('A' <= c && c <= 'Z') || ('0' <= c && c <= '9') || c
            == '-' || c == '.' || c == '!' || c == '%' || c == '*' || c == '_' || c == '+' || c
            == '`' || c == '\'' || c == '~';
        if !ok {
            assert(!is_token_char(s@[i as int]));
            return false;
        }
    }
    true
}

fn tokens_of(list: &Vec<String>) -> (r: Vec<String>)
    ensures
        views(r@) == keep(views(list@), is_token()),
{
    let ghost p = is_token();
    let mut out: Vec<String> = Vec::new();
    assert(views(list@).take(0).len() == 0);
    assert(views(out@) =~= Seq::<Seq<char>>::empty());
    for i in 0..list.len()
        invariant
            p == is_token(),
            views(out@) == keep(views(list@).take(i as int), p),
    {
        proof {
            keep_step(views(list@), p, i as int);
        }
        assert(views(list@)[i as int] == list@[i as int]@);
        if token(list[i].as_str()) {
            let ghost before = views(out@);
            out.push(list[i].clone());
            assert(views(out@) =~= before.push(list@[i as int]@));
        }
    }
    assert(views(list@).take(list@.len() as int) =~= views(list@));
    out
}

// ── sets ────────────────────────────────────────────────────────────────
impl CapabilitySetView {
    /// No line at all.
    pub open spec fn silent() -> CapabilitySetView {
        CapabilitySetView { allow: None, supported: None, accept: None }
    }
}

pub open spec fn not_empty() -> spec_fn(Seq<char>) -> bool {
    |s: Seq<char>| s.len() > 0
}

pub open spec fn trim_each() -> spec_fn(Seq<char>) -> Seq<char> {
    |s: Seq<char>| trim_text(s)
}

/// The items of a comma-separated line.
pub open spec fn items(line: Seq<char>) -> Seq<Seq<char>> {
    keep(split_text(line, ',').map_values(trim_each()), not_empty())
}

/// The items of every line, in order.
pub open spec fn all_items(lines: Seq<Seq<char>>) -> Seq<Seq<char>>
    decreases lines.len(),
{
    if lines.len() == 0 {
        Seq::empty()
    } else {
        all_items(lines.drop_last()) + items(lines.last())
    }
}

/// What the lines of that name state; nothing where there is none.
pub open spec fn stated(hs: Seq<SipHeaderView>, name: Seq<char>) -> Option<Seq<Seq<char>>> {
    if has_header(hs, name) {
        Some(all_items(header_values(hs, name)))
    } else {
        None
    }
}

/// The set a peer's header lines state.
pub open spec fn relayed_set(hs: Seq<SipHeaderView>) -> CapabilitySetView {
    CapabilitySetView {
        allow: stated(hs, "Allow"@),
        supported: stated(hs, "Supported"@),
        accept: stated(hs, "Accept"@),
    }
}

/// Add the items of a line after others.
pub fn push_items(out: &mut Vec<String>, line: &str)
    ensures
        views(final(out)@) == views(old(out)@) + items(line@),
{
    let parts = split(line, ',');
    let ghost all = views(parts@).map_values(trim_each());
    let ghost p = not_empty();
    let ghost start = views(out@);
    assert(all.take(0).len() == 0);
    assert(views(out@) =~= start + keep(all.take(0), p));
    for i in 0..parts.len()
        invariant
            p == not_empty(),
            all == views(parts@).map_values(trim_each()),
            views(out@) == start + keep(all.take(i as int), p),
    {
        proof {
            keep_step(all, p, i as int);
        }
        let t = trim(parts[i].as_str());
        assert(all[i as int] == t@);
        if t.as_str().unicode_len() > 0 {
            let ghost before = out@;
            out.push(t);
            assert(views(out@) =~= views(before).push(t@));
            assert(start + keep(all.take(i + 1), p) =~= (start + keep(all.take(i as int), p)).push(
                t@,
            ));
        }
    }
    assert(all.take(parts@.len() as int) =~= all);
}

fn read_stated(hs: &Vec<SipHeader>, name: &str) -> (r: Option<Vec<String>>)
    ensures
        opt_views(r) == stated(views(hs@), name@),
{
    if !has_line(hs, name) {
        return None;
    }
    let lines = header_lines(hs, name);
    let mut out: Vec<String> = Vec::new();
    assert(views(lines@).take(0).len() == 0);
    assert(views(out@) =~= all_items(views(lines@).take(0)));
    for i in 0..lines.len()
        invariant
            views(out@) == all_items(views(lines@).take(i as int)),
    {
        assert(views(lines@).take(i + 1).drop_last() =~= views(lines@).take(i as int));
        assert(views(lines@).take(i + 1).last() == lines@[i as int]@);
        push_items(&mut out, lines[i].as_str());
    }
    assert(views(lines@).take(lines@.len() as int) =~= views(lines@));
    Some(out)
}

/// A half as the value of its line.
pub open spec fn half_text(h: Option<Seq<Seq<char>>>) -> Option<Seq<char>> {
    match h {
        Some(items) => Some(join_text(items, ", "@)),
        None => None,
    }
}

fn text_of_half(h: &Option<Vec<String>>) -> (r: Option<String>)
    ensures
        opt_view(r) == half_text(opt_views(*h)),
{
    match h {
        Some(items) => Some(join(items, ", ")),
        None => None,
    }
}

impl CapabilitySet {
    /// The set that states no line.
    pub fn silent() -> (r: CapabilitySet)
        ensures
            r@ == CapabilitySetView::silent(),
    {
        CapabilitySet { allow: None, supported: None, accept: None }
    }

    /// The set a peer's header lines state.
    pub fn relayed(received: &Vec<SipHeader>) -> (r: CapabilitySet)
        ensures
            r@ == relayed_set(views(received@)),
    {
        CapabilitySet {
            allow: read_stated(received, "Allow"),
            supported: read_stated(received, "Supported"),
            accept: read_stated(received, "Accept"),
        }
    }

    /// The value of the `Allow` line.
    pub fn allow_text(&self) -> (r: Option<String>)
        ensures
            opt_view(r) == half_text(self@.allow),
    {
        text_of_half(&self.allow)
    }

    /// The value of the `Supported` line.
    pub fn supported_text(&self) -> (r: Option<String>)
        ensures
            opt_view(r) == half_text(self@.supported),
    {
        text_of_half(&self.supported)
    }

    /// The value of the `Accept` line.
    pub fn accept_text(&self) -> (r: Option<String>)
        ensures
            opt_view(r) == half_text(self@.accept),
    {
        text_of_half(&self.accept)
    }
}

// ── declarations ────────────────────────────────────────────────────────
/// What the features declare for a face.
pub open spec fn declaration(
    f: Option<FeatureActivationsView>,
    face: Face,
) -> Option<AdvertisedCapabilitiesView> {
    match f {
        Some(f) => match f.advertise_capabilities {
            Some(arm) => match face {
                Face::Originator => arm.toward_originator,
                Face::Originated => arm.toward_originated,
            },
            None => None,
        },
        None => None,
    }
}

/// The tokens of a declared half; what is no token is dropped.
pub open spec fn typed_half(h: Option<Seq<Seq<char>>>) -> Option<Seq<Seq<char>>> {
    match h {
        Some(list) => Some(keep(list, is_token())),
        None => None,
    }
}

/// A declaration as the set it states. It states no `Accept`.
pub open spec fn typed_set(d: AdvertisedCapabilitiesView) -> CapabilitySetView {
    CapabilitySetView {
        allow: typed_half(d.allow),
        supported: typed_half(d.supported),
        accept: None,
    }
}

/// The set the features declare for a face.
pub open spec fn declared_set(
    f: Option<FeatureActivationsView>,
    face: Face,
) -> Option<CapabilitySetView> {
    match declaration(f, face) {
        Some(d) => Some(typed_set(d)),
        None => None,
    }
}

/// The headers the features declare for a face.
pub open spec fn declared_names(f: Option<FeatureActivationsView>, face: Face) -> Seq<HeaderName> {
    match declaration(f, face) {
        Some(d) => (if d.allow is Some {
            seq![HeaderName::Allow]
        } else {
            Seq::empty()
        }) + (if d.supported is Some {
            seq![HeaderName::Supported]
        } else {
            Seq::empty()
        }),
        None => Seq::empty(),
    }
}

/// The set for a message that relays nothing of a peer's.
pub open spec fn advertised_set(
    f: Option<FeatureActivationsView>,
    face: Face,
) -> CapabilitySetView {
    match declared_set(f, face) {
        Some(s) => s,
        None => CapabilitySetView::silent(),
    }
}

/// The set for a message that carries the peer's advertisement: a declared half
/// stands, every other is the peer's.
pub open spec fn relaying_set(
    f: Option<FeatureActivationsView>,
    face: Face,
    received: Seq<SipHeaderView>,
) -> CapabilitySetView {
    let own = advertised_set(f, face);
    let peer = relayed_set(received);
    CapabilitySetView {
        allow: if own.allow is Some {
            own.allow
        } else {
            peer.allow
        },
        supported: if own.supported is Some {
            own.supported
        } else {
            peer.supported
        },
        accept: peer.accept,
    }
}

/// The value of optional features.
pub open spec fn opt_features(f: Option<&FeatureActivations>) -> Option<FeatureActivationsView> {
    match f {
        Some(f) => Some(f@),
        None => None,
    }
}

fn declared_face<'a>(
    features: Option<&'a FeatureActivations>,
    face: Face,
) -> (r: Option<&'a AdvertisedCapabilities>)
    ensures
        match r {
            Some(d) => declaration(opt_features(features), face) == Some(d@),
            None => declaration(opt_features(features), face) is None,
        },
{
    match features {
        Some(f) => match &f.advertise_capabilities {
            Some(arm) => {
                let half = match face {
                    Face::Originator => &arm.toward_originator,
                    Face::Originated => &arm.toward_originated,
                };
                match half {
                    Some(d) => Some(d),
                    None => None,
                }
            },
            None => None,
        },
        None => None,
    }
}

fn typed(d: &AdvertisedCapabilities) -> (r: CapabilitySet)
    ensures
        r@ == typed_set(d@),
{
    let allow = match &d.allow {
        Some(list) => Some(tokens_of(list)),
        None => None,
    };
    let supported = match &d.supported {
        Some(list) => Some(tokens_of(list)),
        None => None,
    };
    CapabilitySet { allow, supported, accept: None }
}

/// The set `features` declare for `face`.
pub fn declared_in(features: Option<&FeatureActivations>, face: Face) -> (r: Option<CapabilitySet>)
    ensures
        opt_view(r) == declared_set(opt_features(features), face),
{
    match declared_face(features, face) {
        Some(d) => Some(typed(d)),
        None => None,
    }
}

/// The advertisement headers `features` declare for `face`: the ones a relayed
/// request drops of the peer's.
pub fn declared_advert_headers(
    features: Option<&FeatureActivations>,
    face: Face,
) -> (r: Vec<HeaderName>)
    ensures
        r@ == declared_names(opt_features(features), face),
{
    let mut names: Vec<HeaderName> = Vec::new();
    if let Some(d) = declared_face(features, face) {
        if d.allow.is_some() {
            names.push(HeaderName::Allow);
        }
        if d.supported.is_some() {
            names.push(HeaderName::Supported);
        }
    }
    assert(names@ =~= declared_names(opt_features(features), face));
    names
}

/// The features of a call.
pub fn features_of(call: &Call) -> (r: Option<&FeatureActivations>)
    ensures
        opt_features(r) == call@.features,
{
    match &call.features {
        Some(f) => Some(f),
        None => None,
    }
}

/// The set the call declares for `face`.
pub fn declared(call: &Call, face: Face) -> (r: Option<CapabilitySet>)
    ensures
        opt_view(r) == declared_set(call@.features, face),
{
    declared_in(features_of(call), face)
}

/// The set advertised on `face` where there is no peer's to relay.
pub fn advertised(call: &Call, face: Face) -> (r: CapabilitySet)
    ensures
        r@ == advertised_set(call@.features, face),
{
    match declared(call, face) {
        Some(s) => s,
        None => CapabilitySet::silent(),
    }
}

/// [`advertised`] on the face `leg_id` sits on.
pub fn for_leg(call: &Call, leg_id: &str) -> (r: CapabilitySet)
    ensures
        r@ == advertised_set(call@.features, face_of_leg(leg_id@)),
{
    advertised(call, Face::of_leg(leg_id))
}

/// The set advertised on `face` by a message that carries the peer's, `received`
/// being the peer's header lines.
pub fn relaying_in(
    features: Option<&FeatureActivations>,
    face: Face,
    received: &Vec<SipHeader>,
) -> (r: CapabilitySet)
    ensures
        r@ == relaying_set(opt_features(features), face, views(received@)),
{
    let own = match declared_in(features, face) {
        Some(s) => s,
        None => CapabilitySet::silent(),
    };
    let peer = CapabilitySet::relayed(received);
    CapabilitySet {
        allow: if own.allow.is_some() {
            own.allow
        } else {
            peer.allow
        },
        supported: if own.supported.is_some() {
            own.supported
        } else {
            peer.supported
        },
        accept: peer.accept,
    }
}

/// [`relaying_in`] for the set `call` declares.
pub fn relaying(call: &Call, face: Face, received: &Vec<SipHeader>) -> (r: CapabilitySet)
    ensures
        r@ == relaying_set(call@.features, face, views(received@)),
{
    relaying_in(features_of(call), face, received)
}

/// [`relaying`] on the face `leg_id` sits on.
pub fn relaying_for_leg(call: &Call, leg_id: &str, received: &Vec<SipHeader>) -> (r: CapabilitySet)
    ensures
        r@ == relaying_set(call@.features, face_of_leg(leg_id@), views(received@)),
{
    relaying(call, Face::of_leg(leg_id), received)
}

// ── the INVITE of a new leg ─────────────────────────────────────────────
/// The charging vector the decision states.
pub open spec fn charging_vector(f: Option<FeatureActivationsView>) -> Option<
    Map<Seq<Step>, Node>,
> {
    match f {
        Some(f) => f.charging_vector,
        None => None,
    }
}

/// What a feature says of the tags of such an INVITE.
pub open spec fn speaks_of(usage: OptionTagUse, kind: Option<LegKind>, offers_sdp: bool) -> spec_fn(
    OptionTagView,
) -> bool {
    |t: OptionTagView|
        {
            &&& t.usage == usage
            &&& t.kind == kind
            &&& usage == OptionTagUse::Offered || t.offers_sdp is None || t.offers_sdp == Some(
                offers_sdp,
            )
        }
}

pub open spec fn tag_name() -> spec_fn(OptionTagView) -> Seq<char> {
    |t: OptionTagView| t.tag
}

/// The option tags of that use on the INVITE that opens a leg of that kind.
pub open spec fn option_tags(
    f: Option<FeatureActivationsView>,
    usage: OptionTagUse,
    kind: Option<LegKind>,
    offers_sdp: bool,
) -> Seq<Seq<char>> {
    match f {
        Some(f) => keep(f.option_tags, speaks_of(usage, kind, offers_sdp)).map_values(tag_name()),
        None => Seq::empty(),
    }
}

/// The charging vector the decision states.
pub fn stated_charging_vector(call: &Call) -> (r: Option<serde_json::Value>)
    ensures
        opt_json(r) == charging_vector(call@.features),
{
    match &call.features {
        Some(f) => clone_opt_json(&f.charging_vector),
        None => None,
    }
}

fn tags_of(
    call: &Call,
    usage: OptionTagUse,
    kind: Option<LegKind>,
    offers_sdp: bool,
) -> (r: Vec<String>)
    ensures
        views(r@) == option_tags(call@.features, usage, kind, offers_sdp),
{
    let mut out: Vec<String> = Vec::new();
    assert(views(out@) =~= Seq::<Seq<char>>::empty());
    if let Some(f) = &call.features {
        let ghost p = speaks_of(usage, kind, offers_sdp);
        let ghost all = views(f.option_tags@);
        assert(keep(all.take(0), p).map_values(tag_name()) =~= Seq::empty());
        for i in 0..f.option_tags.len()
            invariant
                p == speaks_of(usage, kind, offers_sdp),
                all == views(f.option_tags@),
                views(out@) == keep(all.take(i as int), p).map_values(tag_name()),
        {
            let t = &f.option_tags[i];
            assert(all[i as int] == t@);
            proof {
                keep_step(all, p, i as int);
            }
            let speaks = usage == OptionTagUse::Offered || match t.offers_sdp {
                Some(b) => b == offers_sdp,
                None => true,
            };
            let same_kind = match (t.kind, kind) {
                (Some(a), Some(b)) => a == b,
                (None, None) => true,
                _ => false,
            };
            if t.usage == usage && same_kind && speaks {
                let ghost before = out@;
                out.push(t.tag.clone());
                assert(views(out@) =~= views(before).push(t@.tag));
                assert(keep(all.take(i + 1), p).map_values(tag_name()) =~= keep(
                    all.take(i as int),
                    p,
                ).map_values(tag_name()).push(t@.tag));
            }
        }
        assert(all.take(all.len() as int) =~= all);
    }
    out
}

/// The option tags of the caller's that the INVITE opening a leg leaves out.
pub fn withheld_option_tags(call: &Call, kind: Option<LegKind>, offers_sdp: bool) -> (r: Vec<
    String,
>)
    ensures
        views(r@) == option_tags(call@.features, OptionTagUse::Withheld, kind, offers_sdp),
{
    tags_of(call, OptionTagUse::Withheld, kind, offers_sdp)
}

/// The option tags the INVITE opening a leg states beside the caller's, with an
/// offer or without.
pub fn offered_option_tags(call: &Call, kind: Option<LegKind>) -> (r: Vec<String>)
    ensures
        forall|offers_sdp: bool|
            views(r@) == #[trigger] option_tags(
                call@.features,
                OptionTagUse::Offered,
                kind,
                offers_sdp,
            ),
{
    let r = tags_of(call, OptionTagUse::Offered, kind, true);
    assert forall|b: bool|
        views(r@) == #[trigger] option_tags(call@.features, OptionTagUse::Offered, kind, b) by {
        assert(speaks_of(OptionTagUse::Offered, kind, b) =~= speaks_of(
            OptionTagUse::Offered,
            kind,
            true,
        ));
    }
    r
}

// ── stamping ────────────────────────────────────────────────────────────
pub open spec fn is_advert(name: Seq<char>) -> bool {
    ||| same_ignoring_case(name, "Allow"@)
    ||| same_ignoring_case(name, "Supported"@)
    ||| same_ignoring_case(name, "Accept"@)
}

/// The lines a stamp leaves: every one that is no advertisement, and every one
/// the message itself owns.
pub open spec fn survives_stamp(owned: Seq<Seq<char>>) -> spec_fn(SipHeaderView) -> bool {
    |h: SipHeaderView| !is_advert(h.name) || name_among(owned, h.name)
}

/// The line a half states, unless the message owns that header.
pub open spec fn half_line(owned: Seq<Seq<char>>, n: HeaderName, h: Option<Seq<Seq<char>>>) -> Seq<
    SipHeaderView,
> {
    match half_text(h) {
        Some(t) => if name_among(owned, name_text(n)) {
            Seq::empty()
        } else {
            seq![SipHeaderView { name: name_text(n), value: t }]
        },
        None => Seq::empty(),
    }
}

/// Header lines with the advertisement of `caps` in the place of any other,
/// except for the headers the message itself owns.
pub open spec fn stamped(
    hs: Seq<SipHeaderView>,
    owned: Seq<Seq<char>>,
    caps: CapabilitySetView,
) -> Seq<SipHeaderView> {
    keep(hs, survives_stamp(owned)) + half_line(owned, HeaderName::Allow, caps.allow) + half_line(
        owned,
        HeaderName::Supported,
        caps.supported,
    ) + half_line(owned, HeaderName::Accept, caps.accept)
}

fn push_half(out: &mut Vec<SipHeader>, owned: &Vec<String>, n: HeaderName, h: &Option<Vec<String>>)
    ensures
        views(final(out)@) == views(old(out)@) + half_line(views(owned@), n, opt_views(*h)),
{
    let ghost before = out@;
    let name = n.as_wire_str().to_string();
    match text_of_half(h) {
        Some(t) => {
            if !among(owned, &name) {
                let line = SipHeader { name, value: t };
                out.push(line);
                assert(views(out@) =~= views(before).push(line@));
                assert(views(out@) =~= views(before) + seq![line@]);
            } else {
                assert(views(out@) =~= views(before) + Seq::<SipHeaderView>::empty());
            }
        },
        None => {
            assert(views(out@) =~= views(before) + Seq::<SipHeaderView>::empty());
        },
    }
}

/// Put the advertisement of `caps` in the place of any other, except for the
/// headers named by `owned`.
pub fn stamp_advert(
    hs: &Vec<SipHeader>,
    owned: &Vec<String>,
    caps: &CapabilitySet,
) -> (r: Vec<SipHeader>)
    ensures
        views(r@) == stamped(views(hs@), views(owned@), caps@),
{
    let ghost p = survives_stamp(views(owned@));
    let mut out: Vec<SipHeader> = Vec::new();
    assert(views(hs@).take(0).len() == 0);
    assert(views(out@) =~= Seq::<SipHeaderView>::empty());
    for i in 0..hs.len()
        invariant
            p == survives_stamp(views(owned@)),
            views(out@) == keep(views(hs@).take(i as int), p),
    {
        proof {
            keep_step(views(hs@), p, i as int);
        }
        let name = hs[i].name.as_str();
        let advert = eq_ignore_case(name, "Allow") || eq_ignore_case(name, "Supported")
            || eq_ignore_case(name, "Accept");
        if !advert || among(owned, &hs[i].name) {
            let ghost before = views(out@);
            out.push(hs[i].clone());
            assert(views(out@) =~= before.push(hs@[i as int]@));
        }
    }
    assert(views(hs@).take(hs@.len() as int) =~= views(hs@));
    push_half(&mut out, owned, HeaderName::Allow, &caps.allow);
    push_half(&mut out, owned, HeaderName::Supported, &caps.supported);
    push_half(&mut out, owned, HeaderName::Accept, &caps.accept);
    out
}

// ── laws ────────────────────────────────────────────────────────────────
/// A declared half stands over the peer's; an undeclared one is exactly the
/// peer's; and a declaration never states the body types.
pub proof fn halves_resolve_independently(
    f: Option<FeatureActivationsView>,
    face: Face,
    received: Seq<SipHeaderView>,
)
    ensures
        ({
            let own = declaration(f, face);
            let set = relaying_set(f, face, received);
            let allows = own is Some && own->0.allow is Some;
            let supports = own is Some && own->0.supported is Some;
            &&& allows ==> set.allow == typed_half(own->0.allow)
            &&& !allows ==> set.allow == stated(received, "Allow"@)
            &&& supports ==> set.supported == typed_half(own->0.supported)
            &&& !supports ==> set.supported == stated(received, "Supported"@)
            &&& set.accept == stated(received, "Accept"@)
        }),
{
}

/// Nothing declared and nothing received: no line.
pub proof fn silence_stays_silent(f: Option<FeatureActivationsView>, face: Face)
    requires
        declaration(f, face) is None,
    ensures
        advertised_set(f, face) == CapabilitySetView::silent(),
        relaying_set(f, face, Seq::empty()) == CapabilitySetView::silent(),
{
}

/// Nothing a declaration states reaches the wire but tokens.
pub proof fn declared_tokens_are_tokens(f: Option<FeatureActivationsView>, face: Face)
    requires
        declared_set(f, face) is Some,
    ensures
        ({
            let set = declared_set(f, face)->0;
            &&& set.allow is Some ==> forall|i: int|
                0 <= i < set.allow->0.len() ==> is_token()(#[trigger] set.allow->0[i])
            &&& set.supported is Some ==> forall|i: int|
                0 <= i < set.supported->0.len() ==> is_token()(#[trigger] set.supported->0[i])
        }),
{
    if let Some(d) = declaration(f, face) {
        if let Some(a) = d.allow {
            keep_sound(a, is_token());
        }
        if let Some(s) = d.supported {
            keep_sound(s, is_token());
        }
    }
}

/// A half declared empty states the empty set, where an absent half states no
/// line.
pub proof fn empty_is_not_absent(d: AdvertisedCapabilitiesView)
    ensures
        d.allow == Some(Seq::<Seq<char>>::empty()) ==> half_text(typed_set(d).allow) == Some(
            Seq::<char>::empty(),
        ),
        d.allow is None ==> half_text(typed_set(d).allow) is None,
        d.supported == Some(Seq::<Seq<char>>::empty()) ==> half_text(typed_set(d).supported)
            == Some(Seq::<char>::empty()),
        d.supported is None ==> half_text(typed_set(d).supported) is None,
{
}

/// The headers dropped of a relayed request are exactly the declared halves.
pub proof fn dropped_headers_are_the_declared_halves(f: Option<FeatureActivationsView>, face: Face)
    ensures
        declared_names(f, face).contains(HeaderName::Allow) <==> declaration(f, face) is Some
            && declaration(f, face)->0.allow is Some,
        declared_names(f, face).contains(HeaderName::Supported) <==> declaration(f, face) is Some
            && declaration(f, face)->0.supported is Some,
        !declared_names(f, face).contains(HeaderName::Accept),
{
    let names = declared_names(f, face);
    if let Some(d) = declaration(f, face) {
        if d.allow is Some {
            assert(names[0] == HeaderName::Allow);
            if d.supported is Some {
                assert(names[1] == HeaderName::Supported);
            }
        } else if d.supported is Some {
            assert(names[0] == HeaderName::Supported);
        }
    }
}

} // verus!

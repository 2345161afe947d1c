//! Recorded routes, and the acknowledgement numbers of reliable provisionals.
use vstd::prelude::*;

use crate::call::{Config, ConfigView, InviteSnapshot};
use crate::headers::{
    bracketed, header_lines, header_values, in_brackets, reads_sip_uri, sip_uri_reads,
};
use crate::seqs::{keep, keep_step, views};
use crate::text::{
    chars_of, decimal, decimal_text, eq_ignore_case, find_char, index_of, number_at_most,
    read_number, same, same_ignoring_case, signed, signed_text, slice_text, trim, trim_text, words,
    words_text,
};
use crate::wire::{SipHeader, SipHeaderView, SipResponse, SipResponseView};

verus! {

// ── comma-separated entries ─────────────────────────────────────────────
/// Where a text ends.
pub enum Place {
    /// Outside quotes and angle brackets.
    Open,
    /// In a quoted string.
    Quoted,
    /// In a quoted string, behind the backslash that takes the next character.
    Escaped,
    /// In angle brackets.
    Angled,
}

/// The place behind one more character.
pub open spec fn then_at(at: Place, c: char) -> Place {
    match at {
        Place::Open => if c == '"' {
            Place::Quoted
        } else if c == '<' {
            Place::Angled
        } else {
            Place::Open
        },
        Place::Quoted => if c == '"' {
            Place::Open
        } else if c == '\\' {
            Place::Escaped
        } else {
            Place::Quoted
        },
        Place::Escaped => Place::Quoted,
        Place::Angled => if c == '>' {
            Place::Open
        } else {
            Place::Angled
        },
    }
}

/// The place a text ends at.
pub open spec fn nest(s: Seq<char>) -> Place
    decreases s.len(),
{
    if s.len() == 0 {
        Place::Open
    } else {
        then_at(nest(s.drop_last()), s.last())
    }
}

fn next_place(at: &Place, c: char) -> (r: Place)
    ensures
        r == then_at(*at, c),
{
    match at {
        Place::Open => if c == '"' {
            Place::Quoted
        } else if c == '<' {
            Place::Angled
        } else {
            Place::Open
        },
        Place::Quoted => if c == '"' {
            Place::Open
        } else if c == '\\' {
            Place::Escaped
        } else {
            Place::Quoted
        },
        Place::Escaped => Place::Quoted,
        Place::Angled => if c == '>' {
            Place::Open
        } else {
            Place::Angled
        },
    }
}

/// The pieces of `s` between the commas that stand outside quotes and angle
/// brackets.
pub open spec fn top_pieces(s: Seq<char>) -> Seq<Seq<char>>
    decreases s.len(),
{
    if s.len() == 0 {
        seq![Seq::<char>::empty()]
    } else {
        let r = top_pieces(s.drop_last());
        if s.last() == ',' && nest(s.drop_last()) is Open {
            r.push(Seq::<char>::empty())
        } else {
            r.drop_last().push(r.last().push(s.last()))
        }
    }
}

/// Split at the commas outside quotes and angle brackets.
pub fn split_top_level_commas(s: &str) -> (r: Vec<String>)
    ensures
        views(r@) == top_pieces(s@),
{
    let cs = chars_of(s);
    let mut done: Vec<String> = Vec::new();
    let mut cur = String::new();
    let mut at = Place::Open;
    assert(views(done@).push(cur@) =~= seq![Seq::<char>::empty()]);
    assert(cs@.take(0).len() == 0);
    for i in 0..cs.len()
        invariant
            top_pieces(cs@.take(i as int)) == views(done@).push(cur@),
            nest(cs@.take(i as int)) == at,
    {
        let c = cs[i];
        assert(cs@.take(i + 1).drop_last() =~= cs@.take(i as int));
        assert(cs@.take(i + 1).last() == c);
        assert(views(done@).push(cur@).drop_last() =~= views(done@));
        assert(views(done@).push(cur@).last() == cur@);
        let open = match at {
            Place::Open => true,
            _ => false,
        };
        if c == ',' && open {
            let ghost before = views(done@).push(cur@);
            done.push(cur);
            cur = String::new();
            assert(views(done@) =~= before);
            assert(cur@ =~= Seq::<char>::empty());
        } else {
            cur.push(c);
        }
        at = next_place(&at, c);
    }
    let ghost before = views(done@).push(cur@);
    done.push(cur);
    assert(views(done@) =~= before);
    assert(cs@.take(cs@.len() as int) =~= cs@);
    done
}

// ── recorded routes ─────────────────────────────────────────────────────
/// A recorded route reads when it is a SIP URI in angle brackets that does.
pub open spec fn route_reads(entry: Seq<char>) -> bool {
    match bracketed(entry) {
        Some(u) => sip_uri_reads(u),
        None => false,
    }
}

fn reads_route(entry: &str) -> (r: bool)
    ensures
        r == route_reads(entry@),
{
    match in_brackets(entry) {
        Some(u) => reads_sip_uri(u.as_str()),
        None => false,
    }
}

pub open spec fn not_blank() -> spec_fn(Seq<char>) -> bool {
    |s: Seq<char>| trim_text(s).len() > 0
}

pub open spec fn trimmed() -> spec_fn(Seq<char>) -> Seq<char> {
    |s: Seq<char>| trim_text(s)
}

/// The routes of one line, in order.
pub open spec fn line_routes(line: Seq<char>) -> Seq<Seq<char>> {
    keep(top_pieces(line), not_blank()).map_values(trimmed())
}

/// The routes of all lines, in order.
pub open spec fn all_routes(lines: Seq<Seq<char>>) -> Seq<Seq<char>>
    decreases lines.len(),
{
    if lines.len() == 0 {
        Seq::empty()
    } else {
        all_routes(lines.drop_last()) + line_routes(lines.last())
    }
}

/// The recorded routes of a message, where every one of them reads.
pub open spec fn recorded_routes(hs: Seq<SipHeaderView>) -> Option<Seq<Seq<char>>> {
    let routes = all_routes(header_values(hs, "Record-Route"@));
    if forall|i: int| 0 <= i < routes.len() ==> route_reads(#[trigger] routes[i]) {
        Some(routes)
    } else {
        None
    }
}

/// A recorded route does not read.
#[derive(Clone, Copy, PartialEq, Eq, Debug, Structural)]
pub struct UnreadableRoute {}

/// The value of a read of recorded routes.
pub open spec fn read_view(r: Result<Vec<String>, UnreadableRoute>) -> Option<Seq<Seq<char>>> {
    match r {
        Ok(v) => Some(views(v@)),
        Err(_) => None,
    }
}

fn push_line_routes(out: &mut Vec<String>, line: &str)
    ensures
        views(final(out)@) == views(old(out)@) + line_routes(line@),
{
    let parts = split_top_level_commas(line);
    let ghost p = not_blank();
    let ghost start = views(out@);
    let ghost all = views(parts@);
    assert(all.take(0).len() == 0);
    assert(views(out@) =~= start + keep(all.take(0), p).map_values(trimmed()));
    for i in 0..parts.len()
        invariant
            p == not_blank(),
            all == views(parts@),
            views(out@) == start + keep(all.take(i as int), p).map_values(trimmed()),
    {
        proof {
            keep_step(all, p, i as int);
        }
        let t = trim(parts[i].as_str());
        assert(all[i as int] == parts@[i as int]@);
        if t.as_str().unicode_len() > 0 {
            let ghost before = out@;
            out.push(t);
            assert(views(out@) =~= views(before).push(t@));
            assert(start + keep(all.take(i + 1), p).map_values(trimmed()) =~= (start + keep(
                all.take(i as int),
                p,
            ).map_values(trimmed())).push(t@));
        }
    }
    assert(all.take(parts@.len() as int) =~= all);
}

/// Read the recorded routes of a message, in the order they were recorded.
pub fn record_routes(hs: &Vec<SipHeader>) -> (r: Result<Vec<String>, UnreadableRoute>)
    ensures
        read_view(r) == recorded_routes(views(hs@)),
{
    let lines = header_lines(hs, "Record-Route");
    let mut out: Vec<String> = Vec::new();
    assert(views(lines@).take(0).len() == 0);
    assert(views(out@) =~= all_routes(views(lines@).take(0)));
    for i in 0..lines.len()
        invariant
            views(out@) == all_routes(views(lines@).take(i as int)),
    {
        assert(views(lines@).take(i + 1).drop_last() =~= views(lines@).take(i as int));
        assert(views(lines@).take(i + 1).last() == lines@[i as int]@);
        push_line_routes(&mut out, lines[i].as_str());
    }
    assert(views(lines@).take(lines@.len() as int) =~= views(lines@));
    for i in 0..out.len()
        invariant
            views(out@) == all_routes(header_values(views(hs@), "Record-Route"@)),
            forall|j: int| 0 <= j < i ==> route_reads(#[trigger] views(out@)[j]),
    {
        if !reads_route(out[i].as_str()) {
            assert(!route_reads(views(out@)[i as int]));
            return Err(UnreadableRoute {  });
        }
    }
    Ok(out)
}

/// The route set a UAC applies: the recorded routes reversed.
pub open spec fn uac_routes(resp: SipResponseView) -> Option<Seq<Seq<char>>> {
    match recorded_routes(resp.headers) {
        Some(routes) => Some(routes.reverse()),
        None => None,
    }
}

/// Read the route set a UAC applies.
pub fn uac_route_set(resp: &SipResponse) -> (r: Result<Vec<String>, UnreadableRoute>)
    ensures
        read_view(r) == uac_routes(resp@),
{
    match record_routes(&resp.headers) {
        Ok(routes) => {
            let n: usize = routes.len();
            let mut out: Vec<String> = Vec::new();
            for i in 0..n
                invariant
                    n == routes@.len(),
                    out@.len() == i,
                    forall|j: int| 0 <= j < i ==> out@[j] == routes@[n - 1 - j],
            {
                out.push(routes[n - 1 - i].clone());
            }
            assert(views(out@) =~= views(routes@).reverse());
            Ok(out)
        },
        Err(e) => Err(e),
    }
}

/// Read the route set a UAS applies: the recorded routes as they were recorded.
pub fn uas_route_set(invite: &InviteSnapshot) -> (r: Result<Vec<String>, UnreadableRoute>)
    ensures
        read_view(r) == recorded_routes(invite@.headers),
{
    record_routes(&invite.headers)
}

/// The front proxy as a route set; none where none is configured.
pub open spec fn proxy_routes(config: ConfigView) -> Seq<Seq<char>> {
    match config.outbound_proxy {
        Some(p) => seq!["<sip:"@ + p.host + ":"@ + decimal_text(p.port as nat) + ";lr>"@],
        None => Seq::empty(),
    }
}

/// The route set a dialog stores: the routes that were read, and the front
/// proxy where they could not be.
pub open spec fn stored_routes(config: ConfigView, read: Option<Seq<Seq<char>>>) -> Seq<Seq<char>> {
    match read {
        Some(routes) => routes,
        None => proxy_routes(config),
    }
}

/// The front proxy as a route set.
pub fn outbound_proxy_route_set(config: &Config) -> (r: Vec<String>)
    ensures
        views(r@) == proxy_routes(config@),
{
    let mut out: Vec<String> = Vec::new();
    if let Some(p) = &config.outbound_proxy {
        let mut s = "<sip:".to_string();
        s.append(p.host.as_str());
        s.append(":");
        let port = decimal(p.port as u64);
        s.append(port.as_str());
        s.append(";lr>");
        out.push(s);
        assert(views(out@) =~= proxy_routes(config@));
    } else {
        assert(views(out@) =~= proxy_routes(config@));
    }
    out
}

/// The route set to store on a dialog, given a read of the recorded routes. A
/// route that does not read never yields an empty set where a front proxy is
/// configured.
pub fn dialog_route_set(config: &Config, read: Result<Vec<String>, UnreadableRoute>) -> (r: Vec<
    String,
>)
    ensures
        views(r@) == stored_routes(config@, read_view(read)),
{
    match read {
        Ok(set) => set,
        Err(_) => outbound_proxy_route_set(config),
    }
}

/// A dialog is never left without a route because the peer's did not read: with
/// a front proxy configured the stored set is then that proxy alone.
pub proof fn unreadable_routes_go_through_the_proxy(config: ConfigView)
    requires
        config.outbound_proxy is Some,
    ensures
        stored_routes(config, None).len() == 1,
        stored_routes(config, None) == proxy_routes(config),
{
}

/// Both sides of a dialog store the same routes, in opposite order.
pub proof fn uac_and_uas_routes_mirror(resp: SipResponseView, hs: Seq<SipHeaderView>)
    requires
        resp.headers == hs,
    ensures
        match (uac_routes(resp), recorded_routes(hs)) {
            (Some(c), Some(s)) => c.len() == s.len() && c.reverse() == s,
            (None, None) => true,
            _ => false,
        },
{
    match recorded_routes(hs) {
        Some(s) => {
            assert(s.reverse().reverse() =~= s);
        },
        None => {},
    }
}

// ── RAck ────────────────────────────────────────────────────────────────
/// What a PRACK acknowledges.
#[derive(Clone, Copy, PartialEq, Eq, Debug, Structural)]
pub struct RAckTokens {
    pub rseq: i64,
    pub cseq: i64,
    pub names_invite: bool,
}

/// The three tokens of an `RAck`: two 32-bit numbers and a method.
pub open spec fn rack_tokens(s: Seq<char>) -> Option<RAckTokens> {
    let ws = words_text(s);
    if ws.len() != 3 {
        None
    } else {
        match (number_at_most(ws[0], 0xffff_ffff), number_at_most(ws[1], 0xffff_ffff)) {
            (Some(r), Some(c)) => Some(
                RAckTokens { rseq: r as i64, cseq: c as i64, names_invite: ws[2] == "INVITE"@ },
            ),
            _ => None,
        }
    }
}

/// Read an `RAck`.
pub fn read_rack(s: &str) -> (r: Option<RAckTokens>)
    ensures
        r == rack_tokens(s@),
{
    let ws = words(s);
    assert(views(ws@).len() == ws@.len());
    if ws.len() != 3 {
        return None;
    }
    assert(views(ws@)[0] == ws@[0]@);
    assert(views(ws@)[1] == ws@[1]@);
    assert(views(ws@)[2] == ws@[2]@);
    let rseq = match read_number(ws[0].as_str(), 0xffff_ffff) {
        Some(v) => v,
        None => {
            return None;
        },
    };
    let cseq = match read_number(ws[1].as_str(), 0xffff_ffff) {
        Some(v) => v,
        None => {
            return None;
        },
    };
    Some(
        RAckTokens {
            rseq: rseq as i64,
            cseq: cseq as i64,
            names_invite: same(ws[2].as_str(), "INVITE"),
        },
    )
}

/// An `RAck` with its number and CSeq restated; one that is not three words
/// stands as it is.
pub open spec fn restated_rack(s: Seq<char>, rseq: Option<i64>, cseq: i64) -> Seq<char> {
    let ws = words_text(s);
    if ws.len() != 3 {
        s
    } else {
        (match rseq {
            Some(n) => signed_text(n as int),
            None => ws[0],
        }) + " "@ + signed_text(cseq as int) + " "@ + ws[2]
    }
}

/// Restate the number and the CSeq of an `RAck`.
pub fn restate_rack(rack: &str, rseq: Option<i64>, cseq: i64) -> (r: String)
    ensures
        r@ == restated_rack(rack@, rseq, cseq),
{
    let ws = words(rack);
    assert(views(ws@).len() == ws@.len());
    if ws.len() != 3 {
        return rack.to_string();
    }
    assert(views(ws@)[0] == ws@[0]@);
    assert(views(ws@)[2] == ws@[2]@);
    let mut out = match rseq {
        Some(n) => signed(n),
        None => ws[0].clone(),
    };
    out.append(" ");
    let c = signed(cseq);
    out.append(c.as_str());
    out.append(" ");
    out.append(ws[2].as_str());
    out
}

/// Rewrite the middle word of an `RAck` to `cseq`.
pub fn rewrite_rack(rack: &str, cseq: i64) -> (r: String)
    ensures
        r@ == restated_rack(rack@, None, cseq),
{
    restate_rack(rack, None, cseq)
}

} // verus!

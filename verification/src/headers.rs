//! Reading header lines: lookup by name, token lists, addresses, routes, and
//! the small grammars the rules depend on.
use vstd::prelude::*;

use crate::call::SourceBody;
use crate::seqs::{
    any_where,
    find_where,
    first_where,
    first_where_is,
    first_where_none,
    keep,
    keep_step,
    opt_view,
    views,
};
use crate::text::{
    chars_of, eq_ignore_case, find_char, index_of, number_at_most, read_number, same_ignoring_case,
    slice_text, split, split_text, trim, trim_text, words, words_text,
};
use crate::wire::{HostPort, HostPortView, SipHeader, SipHeaderView, SipResponse, SipResponseView};

verus! {

// ── lookup ──────────────────────────────────────────────────────────────
/// Header names compare without regard to case.
pub open spec fn header_named(name: Seq<char>) -> spec_fn(SipHeaderView) -> bool {
    |h: SipHeaderView| same_ignoring_case(h.name, name)
}

/// The value of the first line of that name.
pub open spec fn header_value(hs: Seq<SipHeaderView>, name: Seq<char>) -> Option<Seq<char>> {
    match find_where(hs, header_named(name)) {
        Some(h) => Some(h.value),
        None => None,
    }
}

pub open spec fn line_value() -> spec_fn(SipHeaderView) -> Seq<char> {
    |h: SipHeaderView| h.value
}

/// The values of every line of that name, in order.
pub open spec fn header_values(hs: Seq<SipHeaderView>, name: Seq<char>) -> Seq<Seq<char>> {
    keep(hs, header_named(name)).map_values(line_value())
}

/// Read the first line of that name.
pub fn header<'a>(hs: &'a Vec<SipHeader>, name: &str) -> (r: Option<&'a String>)
    ensures
        match r {
            Some(v) => header_value(views(hs@), name@) == Some(v@),
            None => header_value(views(hs@), name@) is None,
        },
{
    let ghost p = header_named(name@);
    for i in 0..hs.len()
        invariant
            p == header_named(name@),
            forall|j: int| 0 <= j < i ==> !p(#[trigger] views(hs@)[j]),
    {
        if eq_ignore_case(hs[i].name.as_str(), name) {
            proof {
                first_where_is(views(hs@), p, i as int);
            }
            return Some(&hs[i].value);
        }
    }
    proof {
        first_where_none(views(hs@), p);
    }
    None
}

/// A copy of the first line of that name.
pub fn header_text(hs: &Vec<SipHeader>, name: &str) -> (r: Option<String>)
    ensures
        opt_view(r) == header_value(views(hs@), name@),
{
    match header(hs, name) {
        Some(v) => Some(v.clone()),
        None => None,
    }
}

/// Read every line of that name.
pub fn header_lines(hs: &Vec<SipHeader>, name: &str) -> (r: Vec<String>)
    ensures
        views(r@) == header_values(views(hs@), name@),
{
    let ghost p = header_named(name@);
    let mut out: Vec<String> = Vec::new();
    assert(views(hs@).take(0).len() == 0);
    assert(views(out@) =~= keep(views(hs@).take(0), p).map_values(line_value()));
    for i in 0..hs.len()
        invariant
            p == header_named(name@),
            views(out@) == keep(views(hs@).take(i as int), p).map_values(line_value()),
    {
        proof {
            keep_step(views(hs@), p, i as int);
        }
        if eq_ignore_case(hs[i].name.as_str(), name) {
            let ghost before = views(out@);
            out.push(hs[i].value.clone());
            assert(views(out@) =~= before.push(hs@[i as int]@.value));
            assert(keep(views(hs@).take(i + 1), p).map_values(line_value()) =~= keep(
                views(hs@).take(i as int),
                p,
            ).map_values(line_value()).push(hs@[i as int]@.value));
        }
    }
    assert(views(hs@).take(hs@.len() as int) =~= views(hs@));
    out
}

/// Whether some line is of that name.
pub open spec fn has_header(hs: Seq<SipHeaderView>, name: Seq<char>) -> bool {
    any_where(hs, header_named(name))
}

/// Test for a line of that name.
pub fn has_line(hs: &Vec<SipHeader>, name: &str) -> (r: bool)
    ensures
        r == has_header(views(hs@), name@),
{
    let ghost p = header_named(name@);
    for i in 0..hs.len()
        invariant
            p == header_named(name@),
            forall|j: int| 0 <= j < i ==> !p(#[trigger] views(hs@)[j]),
    {
        if eq_ignore_case(hs[i].name.as_str(), name) {
            assert(p(views(hs@)[i as int]));
            return true;
        }
    }
    false
}

/// Whether `name` is among `names`, without regard to case.
pub open spec fn name_among(names: Seq<Seq<char>>, name: Seq<char>) -> bool {
    exists|i: int| 0 <= i < names.len() && same_ignoring_case(#[trigger] names[i], name)
}

/// Test whether `name` is among `names`.
pub fn among(names: &Vec<String>, name: &String) -> (r: bool)
    ensures
        r == name_among(views(names@), name@),
{
    for i in 0..names.len()
        invariant
            forall|j: int|
                0 <= j < i ==> !same_ignoring_case(#[trigger] views(names@)[j], name@),
    {
        if eq_ignore_case(names[i].as_str(), name.as_str()) {
            assert(same_ignoring_case(views(names@)[i as int], name@));
            return true;
        }
    }
    false
}

pub open spec fn named_outside(names: Seq<Seq<char>>) -> spec_fn(SipHeaderView) -> bool {
    |h: SipHeaderView| !name_among(names, h.name)
}

/// The lines whose name is not among `names`.
pub fn lines_outside(hs: &Vec<SipHeader>, names: &Vec<String>) -> (r: Vec<SipHeader>)
    ensures
        views(r@) == keep(views(hs@), named_outside(views(names@))),
{
    let ghost p = named_outside(views(names@));
    let mut out: Vec<SipHeader> = Vec::new();
    assert(views(hs@).take(0).len() == 0);
    assert(views(out@) =~= Seq::<SipHeaderView>::empty());
    for i in 0..hs.len()
        invariant
            p == named_outside(views(names@)),
            views(out@) == keep(views(hs@).take(i as int), p),
    {
        proof {
            keep_step(views(hs@), p, i as int);
        }
        if !among(names, &hs[i].name) {
            let ghost before = views(out@);
            out.push(hs[i].clone());
            assert(views(out@) =~= before.push(hs@[i as int]@));
        }
    }
    assert(views(hs@).take(hs@.len() as int) =~= views(hs@));
    out
}

// ── the lines that describe a body ──────────────────────────────────────
/// The line describes the body of the message it stands in.
pub open spec fn describes_body(name: Seq<char>) -> bool {
    ||| name.len() >= 8 && same_ignoring_case(name.take(8), "Content-"@)
    ||| same_ignoring_case(name, "MIME-Version"@)
}

/// The line stands where the body of its message went that way: each one with
/// the body itself, only the one that states its role with another of that role,
/// and none that describes it without.
pub open spec fn goes_with(source: SourceBody) -> spec_fn(SipHeaderView) -> bool {
    |h: SipHeaderView|
        match source {
            SourceBody::Verbatim => true,
            SourceBody::Replaced => !describes_body(h.name) || same_ignoring_case(
                h.name,
                "Content-Disposition"@,
            ),
            SourceBody::Dropped => !describes_body(h.name),
        }
}

/// The lines relayed where the body of their message went that way.
pub open spec fn lines_with(hs: Seq<SipHeaderView>, source: SourceBody) -> Seq<SipHeaderView> {
    keep(hs, goes_with(source))
}

fn is_of_body(name: &String) -> (r: bool)
    ensures
        r == describes_body(name@),
{
    let cs = chars_of(name.as_str());
    if cs.len() >= 8 {
        let start = slice_text(&cs, 0, 8);
        assert(start@ =~= name@.take(8));
        if eq_ignore_case(start.as_str(), "Content-") {
            return true;
        }
    }
    eq_ignore_case(name.as_str(), "MIME-Version")
}

/// The lines relayed where the body of their message went that way.
pub fn lines_beside(hs: &Vec<SipHeader>, source: SourceBody) -> (r: Vec<SipHeader>)
    ensures
        views(r@) == lines_with(views(hs@), source),
{
    let ghost p = goes_with(source);
    let mut out: Vec<SipHeader> = Vec::new();
    assert(views(hs@).take(0).len() == 0);
    assert(views(out@) =~= Seq::<SipHeaderView>::empty());
    for i in 0..hs.len()
        invariant
            p == goes_with(source),
            views(out@) == keep(views(hs@).take(i as int), p),
    {
        proof {
            keep_step(views(hs@), p, i as int);
        }
        let kept = match source {
            SourceBody::Verbatim => true,
            SourceBody::Replaced => !is_of_body(&hs[i].name) || eq_ignore_case(
                hs[i].name.as_str(),
                "Content-Disposition",
            ),
            SourceBody::Dropped => !is_of_body(&hs[i].name),
        };
        if kept {
            let ghost before = views(out@);
            out.push(hs[i].clone());
            assert(views(out@) =~= before.push(hs@[i as int]@));
        }
    }
    assert(views(hs@).take(hs@.len() as int) =~= views(hs@));
    out
}

// ── tokens ──────────────────────────────────────────────────────────────
/// Whether `token` is listed, between commas, in one of `lines`.
pub open spec fn listed(lines: Seq<Seq<char>>, token: Seq<char>) -> bool {
    exists|i: int, j: int|
        0 <= i < lines.len() && 0 <= j < split_text(lines[i], ',').len() && same_ignoring_case(
            trim_text(#[trigger] split_text(lines[i], ',')[j]),
            token,
        )
}

fn listed_in(lines: &Vec<String>, token: &str) -> (r: bool)
    ensures
        r == listed(views(lines@), token@),
{
    for i in 0..lines.len()
        invariant
            forall|k: int, j: int|
                0 <= k < i && 0 <= j < split_text(views(lines@)[k], ',').len()
                    ==> !same_ignoring_case(
                    trim_text(#[trigger] split_text(views(lines@)[k], ',')[j]),
                    token@,
                ),
    {
        let parts = split(lines[i].as_str(), ',');
        for j in 0..parts.len()
            invariant
                i < lines@.len(),
                views(parts@) == split_text(lines@[i as int]@, ','),
                forall|m: int|
                    0 <= m < j ==> !same_ignoring_case(trim_text(views(parts@)[m]), token@),
        {
            let t = trim(parts[j].as_str());
            assert(views(parts@)[j as int] == parts@[j as int]@);
            if eq_ignore_case(t.as_str(), token) {
                assert(same_ignoring_case(
                    trim_text(split_text(views(lines@)[i as int], ',')[j as int]),
                    token@,
                ));
                return true;
            }
        }
        assert(split_text(views(lines@)[i as int], ',') == views(parts@));
    }
    false
}

/// Whether the header `name` lists `token`.
pub open spec fn header_lists(hs: Seq<SipHeaderView>, name: Seq<char>, token: Seq<char>) -> bool {
    listed(header_values(hs, name), token)
}

/// Test whether the header `name` lists `token`.
pub fn lists_token(hs: &Vec<SipHeader>, name: &str, token: &str) -> (r: bool)
    ensures
        r == header_lists(views(hs@), name@, token@),
{
    let lines = header_lines(hs, name);
    listed_in(&lines, token)
}

/// A signed decimal numeral in the range of `i64`.
pub open spec fn i64_value(s: Seq<char>) -> Option<int> {
    if s.len() > 0 && s[0] == '-' {
        match number_at_most(s.skip(1), 0x8000_0000_0000_0000) {
            Some(v) => Some(-v),
            None => None,
        }
    } else {
        let digits = if s.len() > 0 && s[0] == '+' {
            s.skip(1)
        } else {
            s
        };
        match number_at_most(digits, i64::MAX as nat) {
            Some(v) => Some(v as int),
            None => None,
        }
    }
}

fn read_i64(s: &str) -> (r: Option<i64>)
    ensures
        match r {
            Some(v) => i64_value(s@) == Some(v as int),
            None => i64_value(s@) is None,
        },
{
    let cs = chars_of(s);
    if cs.len() > 0 && cs[0] == '-' {
        let d = slice_text(&cs, 1, cs.len());
        assert(d@ =~= s@.skip(1));
        match read_number(d.as_str(), 0x8000_0000_0000_0000u64) {
            Some(v) => if v == 0x8000_0000_0000_0000u64 {
                Some(i64::MIN)
            } else {
                Some(-(v as i64))
            },
            None => None,
        }
    } else if cs.len() > 0 && cs[0] == '+' {
        let d = slice_text(&cs, 1, cs.len());
        assert(d@ =~= s@.skip(1));
        match read_number(d.as_str(), 0x7fff_ffff_ffff_ffffu64) {
            Some(v) => Some(v as i64),
            None => None,
        }
    } else {
        match read_number(s, 0x7fff_ffff_ffff_ffffu64) {
            Some(v) => Some(v as i64),
            None => None,
        }
    }
}

/// The number of a reliable provisional: it requires `100rel` and carries a
/// readable `RSeq`.
pub open spec fn rseq_of(resp: SipResponseView) -> Option<int> {
    if header_lists(resp.headers, "Require"@, "100rel"@) {
        match header_value(resp.headers, "RSeq"@) {
            Some(v) => i64_value(trim_text(v)),
            None => None,
        }
    } else {
        None
    }
}

/// Read the number of a reliable provisional.
pub fn reliable_rseq(resp: &SipResponse) -> (r: Option<i64>)
    ensures
        match r {
            Some(v) => rseq_of(resp@) == Some(v as int),
            None => rseq_of(resp@) is None,
        },
{
    if !lists_token(&resp.headers, "Require", "100rel") {
        return None;
    }
    match header(&resp.headers, "RSeq") {
        Some(v) => {
            let t = trim(v.as_str());
            read_i64(t.as_str())
        },
        None => None,
    }
}

/// Whether the response authorizes early media.
pub fn has_p_early_media(resp: &SipResponse) -> (r: bool)
    ensures
        r == has_header(resp@.headers, "P-Early-Media"@),
{
    has_line(&resp.headers, "P-Early-Media")
}

// ── addresses ───────────────────────────────────────────────────────────
/// What stands before the first `c`, or everything.
pub open spec fn before_text(s: Seq<char>, c: char) -> Seq<char> {
    match index_of(s, c) {
        Some(i) => s.take(i),
        None => s,
    }
}

/// What stands behind the first `c`.
pub open spec fn after_text(s: Seq<char>, c: char) -> Option<Seq<char>> {
    match index_of(s, c) {
        Some(i) => Some(s.skip(i + 1)),
        None => None,
    }
}

pub fn before(s: &str, c: char) -> (r: String)
    ensures
        r@ == before_text(s@, c),
{
    let cs = chars_of(s);
    match find_char(&cs, c) {
        Some(i) => {
            assert(cs@.subrange(0, i as int) =~= s@.take(i as int));
            slice_text(&cs, 0, i)
        },
        None => s.to_string(),
    }
}

pub fn after(s: &str, c: char) -> (r: Option<String>)
    ensures
        opt_view(r) == after_text(s@, c),
{
    let cs = chars_of(s);
    let n: usize = cs.len();
    match find_char(&cs, c) {
        Some(i) => {
            assert(cs@.subrange(i + 1, cs@.len() as int) =~= s@.skip(i + 1));
            Some(slice_text(&cs, i + 1, n))
        },
        None => None,
    }
}

/// The first `c` from `i` on that stands outside quoted strings, where `quoted`
/// says whether `i` stands in one. In a quoted string a backslash takes the next
/// character with it.
pub open spec fn unquoted_from(s: Seq<char>, c: char, i: int, quoted: bool) -> Option<int>
    decreases s.len() - i,
{
    if i < 0 || i >= s.len() {
        None
    } else if quoted {
        if s[i] == '\\' {
            if i + 2 <= s.len() {
                unquoted_from(s, c, i + 2, true)
            } else {
                None
            }
        } else {
            unquoted_from(s, c, i + 1, s[i] != '"')
        }
    } else if s[i] == c {
        Some(i)
    } else {
        unquoted_from(s, c, i + 1, s[i] == '"')
    }
}

/// The first `c` outside quoted strings.
pub open spec fn unquoted(s: Seq<char>, c: char) -> Option<int> {
    unquoted_from(s, c, 0, false)
}

/// Find the first `c` outside quoted strings.
pub fn find_unquoted(cs: &Vec<char>, c: char) -> (r: Option<usize>)
    ensures
        match r {
            Some(i) => i < cs@.len() && unquoted(cs@, c) == Some(i as int),
            None => unquoted(cs@, c) is None,
        },
{
    let mut i: usize = 0;
    let mut quoted = false;
    while i < cs.len()
        invariant
            unquoted(cs@, c) == unquoted_from(cs@, c, i as int, quoted),
        decreases cs.len() - i,
    {
        let x = cs[i];
        if quoted && x == '\\' {
            if i + 1 >= cs.len() {
                return None;
            }
            i = i + 2;
        } else if quoted {
            quoted = x != '"';
            i = i + 1;
        } else if x == c {
            return Some(i);
        } else {
            quoted = x == '"';
            i = i + 1;
        }
    }
    None
}

/// What stands in the angle brackets of a name-addr: between the first `<`
/// outside the display name's quotes and the `>` that follows it.
pub open spec fn bracketed(s: Seq<char>) -> Option<Seq<char>> {
    match unquoted(s, '<') {
        Some(a) => match index_of(s.skip(a + 1), '>') {
            Some(n) => if n > 0 {
                Some(s.skip(a + 1).take(n))
            } else {
                None
            },
            None => None,
        },
        None => None,
    }
}

/// Read what stands in the angle brackets of a name-addr.
pub fn in_brackets(s: &str) -> (r: Option<String>)
    ensures
        opt_view(r) == bracketed(s@),
{
    let cs = chars_of(s);
    let n: usize = cs.len();
    match find_unquoted(&cs, '<') {
        Some(a) => {
            let rest = slice_text(&cs, a + 1, n);
            assert(rest@ =~= s@.skip(a + 1));
            let rs = chars_of(rest.as_str());
            match find_char(&rs, '>') {
                Some(b) => if b > 0 {
                    let u = slice_text(&rs, 0, b);
                    assert(u@ =~= rest@.take(b as int));
                    Some(u)
                } else {
                    None
                },
                None => None,
            }
        },
        None => None,
    }
}

/// The URI of a name-addr, without its display name; the trimmed text where
/// nothing stands in angle brackets.
pub open spec fn unwrapped(s: Seq<char>) -> Seq<char> {
    match bracketed(trim_text(s)) {
        Some(u) => u,
        None => trim_text(s),
    }
}

/// Take an address out of its angle brackets.
pub fn unwrap_angle(value: &str) -> (r: String)
    ensures
        r@ == unwrapped(value@),
{
    let t = trim(value);
    match in_brackets(t.as_str()) {
        Some(u) => u,
        None => t,
    }
}

/// The URI of the peer's Contact: nothing where there is none, or none that
/// reads.
pub open spec fn contact_of(hs: Seq<SipHeaderView>) -> Option<Seq<char>> {
    match header_value(hs, "Contact"@) {
        Some(v) => if uri_reads(unwrapped(v)) {
            Some(unwrapped(v))
        } else {
            None
        },
        None => None,
    }
}

/// Read the URI of the peer's Contact.
pub fn contact_uri(hs: &Vec<SipHeader>) -> (r: Option<String>)
    ensures
        opt_view(r) == contact_of(views(hs@)),
{
    match header(hs, "Contact") {
        Some(v) => {
            let u = unwrap_angle(v.as_str());
            if reads_uri(u.as_str()) {
                Some(u)
            } else {
                None
            }
        },
        None => None,
    }
}

/// `host`, `host:port`, `[v6]` or `[v6]:port`, with a 16-bit port; without one
/// the port is 5060.
pub open spec fn address_of(s: Seq<char>) -> Option<HostPortView> {
    if s.len() > 0 && s[0] == '[' {
        match index_of(s, ']') {
            Some(i) => if i + 1 == s.len() {
                Some(HostPortView { host: s, port: 5060 })
            } else if s[i + 1] == ':' {
                match number_at_most(s.skip(i + 2), 65535) {
                    Some(p) => Some(HostPortView { host: s.take(i + 1), port: p as u16 }),
                    None => None,
                }
            } else {
                None
            },
            None => None,
        }
    } else if s.len() == 0 {
        None
    } else {
        match index_of(s, ':') {
            Some(i) => if i == 0 {
                None
            } else {
                match number_at_most(s.skip(i + 1), 65535) {
                    Some(p) => Some(HostPortView { host: s.take(i), port: p as u16 }),
                    None => None,
                }
            },
            None => Some(HostPortView { host: s, port: 5060 }),
        }
    }
}

/// Read a network address.
pub fn read_address(s: &str) -> (r: Option<HostPort>)
    ensures
        opt_view(r) == address_of(s@),
{
    let cs = chars_of(s);
    if cs.len() > 0 && cs[0] == '[' {
        match find_char(&cs, ']') {
            Some(i) => {
                if i + 1 == cs.len() {
                    return Some(HostPort { host: s.to_string(), port: 5060 });
                }
                if cs[i + 1] != ':' {
                    return None;
                }
                let p = slice_text(&cs, i + 2, cs.len());
                assert(p@ =~= s@.skip(i + 2));
                match read_number(p.as_str(), 65535) {
                    Some(p) => {
                        let host = slice_text(&cs, 0, i + 1);
                        assert(host@ =~= s@.take(i + 1));
                        Some(HostPort { host, port: p as u16 })
                    },
                    None => None,
                }
            },
            None => None,
        }
    } else if cs.len() == 0 {
        None
    } else {
        match find_char(&cs, ':') {
            Some(i) => {
                if i == 0 {
                    return None;
                }
                let p = slice_text(&cs, i + 1, cs.len());
                assert(p@ =~= s@.skip(i + 1));
                match read_number(p.as_str(), 65535) {
                    Some(p) => {
                        let host = slice_text(&cs, 0, i);
                        assert(host@ =~= s@.take(i as int));
                        Some(HostPort { host, port: p as u16 })
                    },
                    None => None,
                }
            },
            None => Some(HostPort { host: s.to_string(), port: 5060 }),
        }
    }
}

/// The sent-by of a Via line: its second word, up to the parameters.
pub open spec fn sent_by(via: Seq<char>) -> Option<HostPortView> {
    if words_text(via).len() >= 2 {
        address_of(before_text(words_text(via)[1], ';'))
    } else {
        None
    }
}

/// The address a response to this hop is routed to.
pub fn via_sent_by(via: &str) -> (r: Option<HostPort>)
    ensures
        opt_view(r) == sent_by(via@),
{
    let ws = words(via);
    assert(views(ws@).len() == ws@.len());
    if ws.len() < 2 {
        return None;
    }
    assert(views(ws@)[1] == ws@[1]@);
    let hp = before(ws[1].as_str(), ';');
    read_address(hp.as_str())
}

// ── URIs ────────────────────────────────────────────────────────────────
/// The address a name-addr or a bare URI names, without embedded headers.
pub open spec fn bare_uri_text(s: Seq<char>) -> Seq<char> {
    trim_text(before_text(unwrapped(s), '?'))
}

/// The host and port of a URI behind its scheme: behind the user, before the
/// parameters and headers.
pub open spec fn uri_host(rest: Seq<char>) -> Seq<char> {
    let plain = before_text(rest, '?');
    before_text(
        match after_text(plain, '@') {
            Some(h) => h,
            None => plain,
        },
        ';',
    )
}

pub open spec fn is_sip_scheme(scheme: Seq<char>) -> bool {
    same_ignoring_case(scheme, "sip"@) || same_ignoring_case(scheme, "sips"@)
}

/// A SIP URI reads when its host does, and its port, where it states one, is a
/// 16-bit number.
pub open spec fn sip_uri_reads(u: Seq<char>) -> bool {
    match after_text(u, ':') {
        Some(rest) => is_sip_scheme(before_text(u, ':')) && address_of(uri_host(rest)) is Some,
        None => false,
    }
}

/// A scheme is letters, digits, `+`, `-` and `.`.
pub open spec fn scheme_char() -> spec_fn(char) -> bool {
    |c: char|
        'a' <= c <= 'z' || 'A' <= c <= 'Z' || '0' <= c <= '9' || c == '+' || c == '-' || c == '.'
}

pub open spec fn scheme_reads(s: Seq<char>) -> bool {
    s.len() > 0 && forall|i: int| 0 <= i < s.len() ==> scheme_char()(#[trigger] s[i])
}

/// A URI reads when it has a scheme and something behind it; and where it is a
/// SIP URI, when its host and port do.
pub open spec fn uri_reads(u: Seq<char>) -> bool {
    match after_text(u, ':') {
        Some(rest) => {
            let scheme = before_text(u, ':');
            &&& rest.len() > 0
            &&& scheme_reads(scheme)
            &&& is_sip_scheme(scheme) ==> address_of(uri_host(rest)) is Some
        },
        None => false,
    }
}

fn host_part(rest: &str) -> (r: String)
    ensures
        r@ == uri_host(rest@),
{
    let plain = before(rest, '?');
    let behind = match after(plain.as_str(), '@') {
        Some(h) => h,
        None => plain,
    };
    before(behind.as_str(), ';')
}

fn names_sip(scheme: &str) -> (r: bool)
    ensures
        r == is_sip_scheme(scheme@),
{
    eq_ignore_case(scheme, "sip") || eq_ignore_case(scheme, "sips")
}

/// Whether a SIP URI reads.
pub fn reads_sip_uri(u: &str) -> (r: bool)
    ensures
        r == sip_uri_reads(u@),
{
    match after(u, ':') {
        Some(rest) => {
            let scheme = before(u, ':');
            let host = host_part(rest.as_str());
            names_sip(scheme.as_str()) && read_address(host.as_str()).is_some()
        },
        None => false,
    }
}

fn reads_scheme(scheme: &str) -> (r: bool)
    ensures
        r == scheme_reads(scheme@),
{
    let cs = chars_of(scheme);
    if cs.len() == 0 {
        return false;
    }
    for i in 0..cs.len()
        invariant
            cs@ == scheme@,
            forall|j: int| 0 <= j < i ==> scheme_char()(#[trigger] cs@[j]),
    {
        let c = cs[i];
        if !('a' <= c && c <= 'z' || 'A' <= c && c <= 'Z' || '0' <= c && c <= '9' || c == '+' || c
            == '-' || c == '.') {
            assert(!scheme_char()(scheme@[i as int]));
            return false;
        }
    }
    true
}

/// Whether a URI reads.
pub fn reads_uri(u: &str) -> (r: bool)
    ensures
        r == uri_reads(u@),
{
    match after(u, ':') {
        Some(rest) => {
            let scheme = before(u, ':');
            if rest.as_str().unicode_len() == 0 || !reads_scheme(scheme.as_str()) {
                return false;
            }
            if names_sip(scheme.as_str()) {
                let host = host_part(rest.as_str());
                read_address(host.as_str()).is_some()
            } else {
                true
            }
        },
        None => false,
    }
}

/// The bare URI of an address, where it reads.
pub open spec fn bare_uri(s: Seq<char>) -> Option<Seq<char>> {
    if uri_reads(bare_uri_text(s)) {
        Some(bare_uri_text(s))
    } else {
        None
    }
}

/// Reduce an address to the bare URI a Request-URI may carry. Nothing when it
/// does not read.
pub fn to_bare_uri(s: &str) -> (r: Option<String>)
    ensures
        opt_view(r) == bare_uri(s@),
{
    let inner = unwrap_angle(s);
    let cut = before(inner.as_str(), '?');
    let u = trim(cut.as_str());
    if reads_uri(u.as_str()) {
        Some(u)
    } else {
        None
    }
}

pub open spec fn names_replaces() -> spec_fn(Seq<char>) -> bool {
    |h: Seq<char>| same_ignoring_case(before_text(h, '='), "Replaces"@)
}

/// The URI carries a `Replaces` header: an attended transfer.
pub open spec fn uri_has_replaces(s: Seq<char>) -> bool {
    match after_text(unwrapped(s), '?') {
        Some(hs) => any_where(split_text(hs, '&'), names_replaces()),
        None => false,
    }
}

/// Test for an embedded `Replaces`.
#[verifier::loop_isolation(false)]
pub fn has_replaces(s: &str) -> (r: bool)
    ensures
        r == uri_has_replaces(s@),
{
    let inner = unwrap_angle(s);
    match after(inner.as_str(), '?') {
        Some(hs) => {
            let parts = split(hs.as_str(), '&');
            let ghost p = names_replaces();
            for i in 0..parts.len()
                invariant
                    p == names_replaces(),
                    forall|j: int| 0 <= j < i ==> !p(#[trigger] views(parts@)[j]),
            {
                let name = before(parts[i].as_str(), '=');
                assert(views(parts@)[i as int] == parts@[i as int]@);
                if eq_ignore_case(name.as_str(), "Replaces") {
                    assert(p(views(parts@)[i as int]));
                    return true;
                }
            }
            false
        },
        None => false,
    }
}

pub open spec fn names_tag() -> spec_fn(Seq<char>) -> bool {
    |h: Seq<char>| same_ignoring_case(trim_text(before_text(h, '=')), "tag"@)
}

/// The parameters of an address: what stands behind its angle brackets, and all
/// of it where there are none.
pub open spec fn address_tail(s: Seq<char>) -> Seq<char> {
    match unquoted(s, '>') {
        Some(i) => s.skip(i + 1),
        None => s,
    }
}

fn tail_of(s: &str) -> (r: String)
    ensures
        r@ == address_tail(s@),
{
    let cs = chars_of(s);
    let n: usize = cs.len();
    match find_unquoted(&cs, '>') {
        Some(i) => {
            let t = slice_text(&cs, i + 1, n);
            assert(t@ =~= s@.skip(i + 1));
            t
        },
        None => s.to_string(),
    }
}

/// The `tag` parameter of a From or To line.
pub open spec fn tag_param(s: Seq<char>) -> Option<Seq<char>> {
    let tail = address_tail(s);
    match first_where(split_text(tail, ';').skip(1), names_tag()) {
        Some(i) => match after_text(split_text(tail, ';').skip(1)[i], '=') {
            Some(v) => if trim_text(v).len() > 0 {
                Some(trim_text(v))
            } else {
                None
            },
            None => None,
        },
        None => None,
    }
}

/// Read the `tag` parameter of a From or To line.
pub fn tag_of(s: &str) -> (r: Option<String>)
    ensures
        opt_view(r) == tag_param(s@),
{
    let tail = tail_of(s);
    let parts = split(tail.as_str(), ';');
    let ghost all = views(parts@).skip(1);
    let ghost p = names_tag();
    if parts.len() == 0 {
        assert(all =~= Seq::<Seq<char>>::empty());
        proof {
            first_where_none(all, p);
        }
        return None;
    }
    for i in 1..parts.len()
        invariant
            p == names_tag(),
            all == views(parts@).skip(1),
            parts@.len() >= 1,
            views(parts@) == split_text(tail@, ';'),
            tail@ == address_tail(s@),
            forall|j: int| 0 <= j < i - 1 ==> !p(#[trigger] all[j]),
    {
        let name = before(parts[i].as_str(), '=');
        let n = trim(name.as_str());
        assert(all[i - 1] == parts@[i as int]@);
        if eq_ignore_case(n.as_str(), "tag") {
            proof {
                first_where_is(all, p, i - 1);
            }
            return match after(parts[i].as_str(), '=') {
                Some(v) => {
                    let t = trim(v.as_str());
                    if t.as_str().unicode_len() > 0 {
                        Some(t)
                    } else {
                        None
                    }
                },
                None => None,
            };
        }
    }
    proof {
        first_where_none(all, p);
    }
    None
}

/// A copy of header lines.
pub fn clone_lines(hs: &Vec<SipHeader>) -> (r: Vec<SipHeader>)
    ensures
        views(r@) == views(hs@),
{
    let mut out: Vec<SipHeader> = Vec::new();
    for i in 0..hs.len()
        invariant
            views(out@) == views(hs@).take(i as int),
    {
        let ghost before = out@;
        out.push(hs[i].clone());
        assert(views(out@) =~= views(before).push(hs@[i as int]@));
        assert(views(hs@).take(i + 1) =~= views(hs@).take(i as int).push(hs@[i as int]@));
    }
    assert(views(hs@).take(hs@.len() as int) =~= views(hs@));
    out
}

/// Add header lines after others.
pub fn append_lines(out: &mut Vec<SipHeader>, more: &Vec<SipHeader>)
    ensures
        views(final(out)@) == views(old(out)@) + views(more@),
{
    let ghost start = views(out@);
    assert(start + views(more@).take(0) =~= start);
    for i in 0..more.len()
        invariant
            views(out@) == start + views(more@).take(i as int),
    {
        let ghost before = out@;
        out.push(more[i].clone());
        assert(views(out@) =~= views(before).push(more@[i as int]@));
        assert(start + views(more@).take(i + 1) =~= (start + views(more@).take(i as int)).push(
            more@[i as int]@,
        ));
    }
    assert(views(more@).take(more@.len() as int) =~= views(more@));
}

} // verus!

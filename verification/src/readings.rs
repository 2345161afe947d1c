//! How the texts of a message read: its lines, numbers, addresses and descriptions.
use vstd::prelude::*;

use crate::call::{ObligationView, TimerTypeView};
use crate::context::timer_key;
use crate::headers::{
    address_of, after_text, before_text, bracketed, header_named, header_value, header_values,
    i64_value, line_value, names_tag, sent_by, tag_param, unquoted_from,
};
use crate::routes::{rack_tokens, RAckTokens, restated_rack};
use crate::sdp::{is_media_line, lines_and_rest, media_equivalent, media_lines, without_cr};
use crate::seqs::{
    first_where, first_where_found, first_where_is, first_where_none, is_first, keep, keep_push,
    keep_sound,
};
use crate::text::{
    decimal_text, digit_char, digits_value, is_char, is_digit, is_space, join_text, lower,
    number_at_most, pieces, same_ignoring_case, signed_text, split_text, trim_end_text,
    trim_start_text, trim_text, words_text,
};
use crate::wire::{HostPortView, SipHeaderView};

verus! {

// ── header lines ────────────────────────────────────────────────────────
/// The value of a header is that of the first line of its name; there is none where
/// no line has it.
pub proof fn the_first_line_speaks(hs: Seq<SipHeaderView>, name: Seq<char>)
    ensures
        match header_value(hs, name) {
            Some(v) => exists|i: int|
                0 <= i < hs.len() && same_ignoring_case((#[trigger] hs[i]).name, name)
                    && hs[i].value == v && forall|j: int|
                    0 <= j < i ==> !same_ignoring_case((#[trigger] hs[j]).name, name),
            None => forall|i: int|
                0 <= i < hs.len() ==> !same_ignoring_case((#[trigger] hs[i]).name, name),
        },
{
    let p = header_named(name);
    first_where_found(hs, p);
    if let Some(i) = first_where(hs, p) {
        assert(same_ignoring_case(hs[i].name, name));
        assert forall|j: int| 0 <= j < i implies !same_ignoring_case(
            (#[trigger] hs[j]).name,
            name,
        ) by {
            assert(!p(hs[j]));
        }
    } else {
        assert forall|i: int| 0 <= i < hs.len() implies !same_ignoring_case(
            (#[trigger] hs[i]).name,
            name,
        ) by {
            assert(!p(hs[i]));
        }
    }
}

/// One line more is one value more, behind the others, where it has the name; and no
/// value where it has not.
pub proof fn every_line_of_the_name_counts(
    hs: Seq<SipHeaderView>,
    h: SipHeaderView,
    name: Seq<char>,
)
    ensures
        header_values(Seq::empty(), name).len() == 0,
        same_ignoring_case(h.name, name) ==> header_values(hs.push(h), name) == header_values(
            hs,
            name,
        ).push(h.value),
        !same_ignoring_case(h.name, name) ==> header_values(hs.push(h), name) == header_values(
            hs,
            name,
        ),
{
    keep_push(hs, h, header_named(name));
    let kept = keep(hs, header_named(name));
    assert(kept.push(h).map_values(line_value()) =~= kept.map_values(line_value()).push(h.value));
}

/// Two names are one where they differ in nothing but the case of letters.
pub proof fn names_match_but_for_case(a: Seq<char>, b: Seq<char>)
    ensures
        same_ignoring_case(a, b) <==> {
            &&& a.len() == b.len()
            &&& forall|i: int|
                0 <= i < a.len() ==> {
                    ||| (#[trigger] a[i]) == b[i]
                    ||| 'A' <= a[i] <= 'Z' && b[i] as int == a[i] as int + 32
                    ||| 'A' <= b[i] <= 'Z' && a[i] as int == b[i] as int + 32
                }
        },
{
    if same_ignoring_case(a, b) {
        assert(lower(a).len() == lower(b).len());
        assert forall|i: int| 0 <= i < a.len() implies {
            ||| (#[trigger] a[i]) == b[i]
            ||| 'A' <= a[i] <= 'Z' && b[i] as int == a[i] as int + 32
            ||| 'A' <= b[i] <= 'Z' && a[i] as int == b[i] as int + 32
        } by {
            assert(lower(a)[i] == lower(b)[i]);
        }
    }
    if a.len() == b.len() && forall|i: int|
        0 <= i < a.len() ==> {
            ||| (#[trigger] a[i]) == b[i]
            ||| 'A' <= a[i] <= 'Z' && b[i] as int == a[i] as int + 32
            ||| 'A' <= b[i] <= 'Z' && a[i] as int == b[i] as int + 32
        } {
        assert forall|i: int| 0 <= i < a.len() implies lower(a)[i] == lower(b)[i] by {
            assert(a[i] == a[i]);
        }
        assert(lower(a) =~= lower(b));
    }
}

// ── white space ─────────────────────────────────────────────────────────
proof fn the_end_is_trimmed(s: Seq<char>) -> (j: int)
    ensures
        0 <= j <= s.len(),
        trim_end_text(s) == s.take(j),
        forall|k: int| j <= k < s.len() ==> is_space(#[trigger] s[k]),
        j > 0 ==> !is_space(s[j - 1]),
    decreases s.len(),
{
    if s.len() > 0 && is_space(s.last()) {
        let t = s.drop_last();
        let j = the_end_is_trimmed(t);
        assert(t.take(j) =~= s.take(j));
        assert forall|k: int| j <= k < s.len() implies is_space(#[trigger] s[k]) by {
            if k < t.len() {
                assert(t[k] == s[k]);
            }
        }
        if j > 0 {
            assert(t[j - 1] == s[j - 1]);
        }
        j
    } else {
        assert(s.take(s.len() as int) =~= s);
        s.len() as int
    }
}

proof fn the_start_is_trimmed(s: Seq<char>) -> (i: int)
    ensures
        0 <= i <= s.len(),
        trim_start_text(s) == s.skip(i),
        forall|k: int| 0 <= k < i ==> is_space(#[trigger] s[k]),
        i < s.len() ==> !is_space(s[i]),
    decreases s.len(),
{
    if s.len() > 0 && is_space(s[0]) {
        let t = s.skip(1);
        let i = the_start_is_trimmed(t);
        assert(t.skip(i) =~= s.skip(i + 1));
        assert forall|k: int| 0 <= k < i + 1 implies is_space(#[trigger] s[k]) by {
            if k > 0 {
                assert(t[k - 1] == s[k]);
            }
        }
        if i + 1 < s.len() {
            assert(t[i] == s[i + 1]);
        }
        i + 1
    } else {
        assert(s.skip(0) =~= s);
        0
    }
}

/// A text is trimmed of the white space round it and of nothing else.
pub proof fn a_trimmed_text_is_the_middle(s: Seq<char>)
    ensures
        exists|i: int, j: int|
            {
                &&& 0 <= i <= j <= s.len()
                &&& trim_text(s) == #[trigger] s.subrange(i, j)
                &&& forall|k: int| 0 <= k < i || j <= k < s.len() ==> is_space(#[trigger] s[k])
                &&& i < j ==> !is_space(s[i]) && !is_space(s[j - 1])
            },
{
    let j = the_end_is_trimmed(s);
    let t = s.take(j);
    let i = the_start_is_trimmed(t);
    assert(t.skip(i) =~= s.subrange(i, j));
    assert forall|k: int| 0 <= k < i || j <= k < s.len() implies is_space(#[trigger] s[k]) by {
        if k < i {
            assert(t[k] == s[k]);
        }
    }
    if i < j {
        assert(t[i] == s[i]);
    }
    assert(trim_text(s) == s.subrange(i, j));
}

/// A text without white space at either end is trimmed already.
pub proof fn a_trimmed_text_stays(s: Seq<char>)
    requires
        s.len() > 0 ==> !is_space(s[0]) && !is_space(s.last()),
    ensures
        trim_text(s) == s,
{
}

// ── pieces ──────────────────────────────────────────────────────────────
proof fn a_piece_is_always_there(s: Seq<char>, p: spec_fn(char) -> bool)
    ensures
        pieces(s, p).len() >= 1,
        forall|i: int, k: int|
            0 <= i < pieces(s, p).len() && 0 <= k < pieces(s, p)[i].len() ==> !p(
                #[trigger] pieces(s, p)[i][k],
            ),
    decreases s.len(),
{
    if s.len() > 0 {
        a_piece_is_always_there(s.drop_last(), p);
        let r = pieces(s.drop_last(), p);
        let all = pieces(s, p);
        assert forall|i: int, k: int| 0 <= i < all.len() && 0 <= k < all[i].len() implies !p(
            #[trigger] all[i][k],
        ) by {
            if i < r.len() - 1 {
                assert(all[i] == r[i]);
                assert(!p(r[i][k]));
            } else if i == r.len() - 1 && k < r[i].len() {
                assert(!p(r[i][k]));
            }
        }
    }
}

/// What is split at a character is put together again by it, and no piece holds it.
pub proof fn pieces_make_the_text(s: Seq<char>, c: char)
    ensures
        join_text(split_text(s, c), seq![c]) == s,
        forall|i: int| 0 <= i < split_text(s, c).len() ==> !(#[trigger] split_text(s, c)[i]).contains(c),
    decreases s.len(),
{
    let p = is_char(c);
    let all = split_text(s, c);
    a_piece_is_always_there(s, p);
    assert forall|i: int| 0 <= i < all.len() implies !(#[trigger] all[i]).contains(c) by {
        if all[i].contains(c) {
            let k = choose|k: int| 0 <= k < all[i].len() && all[i][k] == c;
            assert(!p(pieces(s, p)[i][k]));
        }
    }
    if s.len() > 0 {
        let t = s.drop_last();
        pieces_make_the_text(t, c);
        a_piece_is_always_there(t, p);
        let r = split_text(t, c);
        if s.last() == c {
            assert(all.drop_last() =~= r);
            assert(join_text(all, seq![c]) == join_text(r, seq![c]) + seq![c] + Seq::<char>::empty());
            assert(t + seq![c] + Seq::<char>::empty() =~= s);
        } else {
            let q = r.last().push(s.last());
            assert(all == r.drop_last().push(q));
            assert(all.drop_last() =~= r.drop_last());
            if r.len() == 1 {
                assert(r[0] == t);
                assert(t.push(s.last()) =~= s);
            } else {
                assert(join_text(all, seq![c]) == join_text(r.drop_last(), seq![c]) + seq![c] + q);
                assert(join_text(r.drop_last(), seq![c]) + seq![c] + q =~= t.push(s.last()));
                assert(t.push(s.last()) =~= s);
            }
        }
    } else {
        assert(all[0] =~= s);
    }
}

proof fn pieces_grow(s: Seq<char>, b: Seq<char>, p: spec_fn(char) -> bool)
    requires
        forall|k: int| 0 <= k < b.len() ==> !p(#[trigger] b[k]),
    ensures
        pieces(s + b, p) == pieces(s, p).drop_last().push(pieces(s, p).last() + b),
    decreases b.len(),
{
    a_piece_is_always_there(s, p);
    let r = pieces(s, p);
    if b.len() == 0 {
        assert(s + b =~= s);
        assert(r.last() + b =~= r.last());
        assert(r.drop_last().push(r.last()) =~= r);
    } else {
        let d = b.drop_last();
        assert forall|k: int| 0 <= k < d.len() implies !p(#[trigger] d[k]) by {
            assert(d[k] == b[k]);
        }
        pieces_grow(s, d, p);
        assert((s + b).drop_last() =~= s + d);
        assert((s + b).last() == b.last());
        assert(!p(b[b.len() - 1]));
        let q = pieces(s + d, p);
        assert(q.last() == r.last() + d);
        assert(q.drop_last() =~= r.drop_last());
        assert((r.last() + d).push(b.last()) =~= r.last() + b);
    }
}

proof fn pieces_of_two(a: Seq<char>, c: char, b: Seq<char>, p: spec_fn(char) -> bool)
    requires
        p(c),
        forall|k: int| 0 <= k < b.len() ==> !p(#[trigger] b[k]),
    ensures
        pieces(a.push(c) + b, p) == pieces(a, p).push(b),
{
    let s = a.push(c);
    assert(s.drop_last() =~= a);
    assert(pieces(s, p) == pieces(a, p).push(Seq::empty()));
    pieces_grow(s, b, p);
    assert(Seq::<char>::empty() + b =~= b);
    assert(pieces(s, p).drop_last() =~= pieces(a, p));
}

proof fn one_piece(a: Seq<char>, p: spec_fn(char) -> bool)
    requires
        forall|k: int| 0 <= k < a.len() ==> !p(#[trigger] a[k]),
    ensures
        pieces(a, p) == seq![a],
{
    pieces_grow(Seq::empty(), a, p);
    assert(Seq::<char>::empty() + a =~= a);
    assert(pieces(Seq::empty(), p).drop_last().push(a) =~= seq![a]);
}

/// What stands before a character and what stands behind it make the text.
pub proof fn a_text_is_cut_at_the_first(a: Seq<char>, c: char, b: Seq<char>)
    requires
        !a.contains(c),
    ensures
        before_text(a.push(c) + b, c) == a,
        after_text(a.push(c) + b, c) == Some(b),
        before_text(a, c) == a,
        after_text(a, c) is None,
{
    let s = a.push(c) + b;
    let p = is_char(c);
    assert forall|j: int| 0 <= j < a.len() implies !p(#[trigger] s[j]) by {
        assert(s[j] == a[j]);
    }
    assert(s[a.len() as int] == c);
    assert(is_first(s, p, a.len() as int));
    first_where_is(s, p, a.len() as int);
    assert(s.take(a.len() as int) =~= a);
    assert(s.skip(a.len() as int + 1) =~= b);
    assert forall|j: int| 0 <= j < a.len() implies !p(#[trigger] a[j]) by {}
    first_where_none(a, p);
}

// ── numbers ─────────────────────────────────────────────────────────────
proof fn a_numeral_reads(n: nat)
    ensures
        digits_value(decimal_text(n)) == Some(n),
        decimal_text(n).len() > 0,
        forall|k: int| 0 <= k < decimal_text(n).len() ==> is_digit(#[trigger] decimal_text(n)[k]),
    decreases n,
{
    if n < 10 {
        let s = decimal_text(n);
        assert(s.drop_last() =~= Seq::empty());
        assert(digits_value(s.drop_last()) == Some(0nat));
        assert(s.last() == digit_char(n));
        assert(s.last() as nat == 48 + n);
    } else {
        a_numeral_reads(n / 10);
        let t = decimal_text(n / 10);
        let s = decimal_text(n);
        assert(s.drop_last() =~= t);
        assert(s.last() == digit_char(n % 10));
        assert(s.last() as nat == 48 + n % 10);
        assert forall|k: int| 0 <= k < s.len() implies is_digit(#[trigger] s[k]) by {
            if k < t.len() {
                assert(s[k] == t[k]);
            }
        }
    }
}

/// A number reads as it is written.
pub proof fn a_number_reads_as_written(n: i64)
    ensures
        i64_value(signed_text(n as int)) == Some(n as int),
        0 <= n ==> number_at_most(signed_text(n as int), n as nat) == Some(n as nat),
{
    if n < 0 {
        let m = (-n) as nat;
        a_numeral_reads(m);
        let s = signed_text(n as int);
        assert(s[0] == '-');
        assert(s.skip(1) =~= decimal_text(m));
    } else {
        a_numeral_reads(n as nat);
        let s = signed_text(n as int);
        assert(is_digit(s[0]));
    }
}

/// An address without a port has the usual one, and an address with one has that.
pub proof fn an_address_states_its_port(host: Seq<char>, port: u16)
    requires
        host.len() > 0,
        !host.contains(':'),
        host[0] != '[',
    ensures
        address_of(host) == Some(HostPortView { host, port: 5060 }),
        address_of(host.push(':') + decimal_text(port as nat)) == Some(HostPortView { host, port }),
{
    let digits = decimal_text(port as nat);
    let s = host.push(':') + digits;
    a_numeral_reads(port as nat);
    a_text_is_cut_at_the_first(host, ':', digits);
    let p = is_char(':');
    assert forall|j: int| 0 <= j < host.len() implies !p(#[trigger] s[j]) by {
        assert(s[j] == host[j]);
        if host[j] == ':' {
            assert(host.contains(':'));
        }
    }
    assert(is_first(s, p, host.len() as int));
    first_where_is(s, p, host.len() as int);
    assert forall|j: int| 0 <= j < host.len() implies !p(#[trigger] host[j]) by {}
    first_where_none(host, p);
    assert(s[0] == host[0]);
    assert(s.take(host.len() as int) =~= host);
    assert(s.skip(host.len() as int + 1) =~= digits);
}

/// A Via line states where it was sent from behind its protocol, up to its
/// parameters.
pub proof fn a_via_states_where_it_was_sent_from(
    protocol: Seq<char>,
    from: Seq<char>,
    params: Seq<char>,
)
    requires
        protocol.len() > 0,
        from.len() > 0,
        forall|k: int| 0 <= k < protocol.len() ==> !is_space(#[trigger] protocol[k]),
        forall|k: int| 0 <= k < from.len() ==> !is_space(#[trigger] from[k]) && from[k] != ';',
        forall|k: int| 0 <= k < params.len() ==> !is_space(#[trigger] params[k]),
    ensures
        sent_by(protocol.push(' ') + (from.push(';') + params)) == address_of(from),
        sent_by(protocol.push(' ') + from) == address_of(from),
{
    let p = |c: char| is_space(c);
    let q = |w: Seq<char>| w.len() > 0;
    let tail = from.push(';') + params;
    assert(is_space(' '));
    one_piece(protocol, p);
    assert forall|k: int| 0 <= k < tail.len() implies !p(#[trigger] tail[k]) by {
        if k < from.len() {
            assert(tail[k] == from[k]);
        } else if k > from.len() {
            assert(tail[k] == params[k - from.len() - 1]);
        } else {
            assert(tail[k] == ';');
        }
    }
    pieces_of_two(protocol, ' ', tail, p);
    pieces_of_two(protocol, ' ', from, p);
    two_words(protocol, tail, q);
    two_words(protocol, from, q);
    assert(!from.contains(';')) by {
        if from.contains(';') {
            let k = choose|k: int| 0 <= k < from.len() && from[k] == ';';
        }
    }
    a_text_is_cut_at_the_first(from, ';', params);
}

proof fn two_words(a: Seq<char>, b: Seq<char>, q: spec_fn(Seq<char>) -> bool)
    requires
        q(a),
        q(b),
    ensures
        keep(seq![a].push(b), q) == seq![a, b],
{
    let one = seq![a];
    assert(one.drop_last() =~= Seq::empty());
    keep_push(Seq::empty(), a, q);
    assert(Seq::empty().push(a) =~= one);
    keep_push(one, b, q);
    assert(one.push(b) =~= seq![a, b]);
}

// ── names and addresses ─────────────────────────────────────────────────
proof fn found_outside_quotes(s: Seq<char>, c: char, i: int, n: int)
    requires
        0 <= i <= n < s.len(),
        s[n] == c,
        c != '"',
        forall|k: int| 0 <= k < n ==> (#[trigger] s[k]) != c && s[k] != '"',
    ensures
        unquoted_from(s, c, i, false) == Some(n),
    decreases n - i,
{
    if i < n {
        assert(s[i] != c && s[i] != '"');
        found_outside_quotes(s, c, i + 1, n);
    }
}

/// The address of a name-addr is what stands in its angle brackets, whatever name
/// stands before them and whatever follows.
pub proof fn an_address_stands_in_its_brackets(
    name: Seq<char>,
    uri: Seq<char>,
    rest: Seq<char>,
)
    requires
        forall|k: int| 0 <= k < name.len() ==> (#[trigger] name[k]) != '<' && name[k] != '"',
        uri.len() > 0,
        !uri.contains('>'),
    ensures
        bracketed(name.push('<') + (uri.push('>') + rest)) == Some(uri),
{
    let inner = uri.push('>') + rest;
    let s = name.push('<') + inner;
    let n = name.len() as int;
    assert forall|k: int| 0 <= k < n implies (#[trigger] s[k]) != '<' && s[k] != '"' by {
        assert(s[k] == name[k]);
    }
    assert(s[n] == '<');
    found_outside_quotes(s, '<', 0, n);
    assert(s.skip(n + 1) =~= inner);
    let p = is_char('>');
    assert forall|j: int| 0 <= j < uri.len() implies !p(#[trigger] inner[j]) by {
        assert(inner[j] == uri[j]);
        if uri[j] == '>' {
            assert(uri.contains('>'));
        }
    }
    assert(inner[uri.len() as int] == '>');
    assert(is_first(inner, p, uri.len() as int));
    first_where_is(inner, p, uri.len() as int);
    assert(inner.take(uri.len() as int) =~= uri);
}

/// The tag of an address is that of its parameters, behind the angle brackets; one
/// without parameters has none.
pub proof fn an_address_states_its_tag(addr: Seq<char>, tag: Seq<char>)
    requires
        forall|k: int| 0 <= k < addr.len() ==> (#[trigger] addr[k]) != '>' && addr[k] != '"',
        tag.len() > 0,
        !tag.contains(';'),
        !is_space(tag[0]),
        !is_space(tag.last()),
    ensures
        tag_param(addr.push('>') + (";tag="@ + tag)) == Some(tag),
        tag_param(addr.push('>')) is None,
{
    reveal_strlit(";tag=");
    reveal_strlit("tag");
    let tail = ";tag="@ + tag;
    let s = addr.push('>') + tail;
    let n = addr.len() as int;
    assert forall|k: int| 0 <= k < n implies (#[trigger] s[k]) != '>' && s[k] != '"' by {
        assert(s[k] == addr[k]);
    }
    assert(s[n] == '>');
    found_outside_quotes(s, '>', 0, n);
    assert(s.skip(n + 1) =~= tail);
    let p = is_char(';');
    let word = "tag"@;
    let param = word.push('=') + tag;
    assert(tail =~= Seq::<char>::empty().push(';') + param);
    assert forall|k: int| 0 <= k < param.len() implies !p(#[trigger] param[k]) by {
        if k >= 4 {
            assert(param[k] == tag[k - 4]);
            if tag[k - 4] == ';' {
                assert(tag.contains(';'));
            }
        }
    }
    pieces_of_two(Seq::empty(), ';', param, p);
    let all = split_text(tail, ';');
    assert(all == seq![Seq::<char>::empty()].push(param));
    let ps = all.skip(1);
    assert(ps =~= seq![param]);
    assert(!word.contains('='));
    a_text_is_cut_at_the_first(word, '=', tag);
    a_trimmed_text_stays(word);
    a_trimmed_text_stays(tag);
    assert(names_tag()(ps[0]));
    assert(is_first(ps, names_tag(), 0));
    first_where_is(ps, names_tag(), 0);
    let bare = addr.push('>');
    assert forall|k: int| 0 <= k < n implies (#[trigger] bare[k]) != '>' && bare[k] != '"' by {
        assert(bare[k] == addr[k]);
    }
    found_outside_quotes(bare, '>', 0, n);
    assert(bare.skip(n + 1) =~= Seq::empty());
    assert(split_text(Seq::empty(), ';').skip(1) =~= Seq::empty());
    first_where_none(Seq::<Seq<char>>::empty(), names_tag());
}

// ── acknowledgements of provisionals ────────────────────────────────────
/// An acknowledgement restated names the number and the sequence it is restated with,
/// and the method it named.
pub proof fn a_restated_rack_reads_as_restated(s: Seq<char>, rseq: i64, cseq: i64)
    requires
        rack_tokens(s) is Some,
        0 <= rseq <= 0xffff_ffff,
        0 <= cseq <= 0xffff_ffff,
    ensures
        rack_tokens(restated_rack(s, Some(rseq), cseq)) == Some(
            RAckTokens { rseq, cseq, names_invite: rack_tokens(s)->0.names_invite },
        ),
{
    reveal_strlit(" ");
    let p = |c: char| is_space(c);
    let q = |w: Seq<char>| w.len() > 0;
    let ws = words_text(s);
    let m = ws[2];
    a_piece_is_always_there(s, p);
    keep_sound(pieces(s, p), q);
    assert(m.len() > 0 && forall|k: int| 0 <= k < m.len() ==> !p(#[trigger] m[k])) by {
        assert(q(keep(pieces(s, p), q)[2]));
        assert(pieces(s, p).contains(m));
        let i = choose|i: int| 0 <= i < pieces(s, p).len() && pieces(s, p)[i] == m;
        assert forall|k: int| 0 <= k < m.len() implies !p(#[trigger] m[k]) by {
            assert(!p(pieces(s, p)[i][k]));
        }
    }
    let a = signed_text(rseq as int);
    let b = signed_text(cseq as int);
    a_numeral_reads(rseq as nat);
    a_numeral_reads(cseq as nat);
    assert forall|k: int| 0 <= k < a.len() implies !p(#[trigger] a[k]) by {
        assert(is_digit(a[k]));
    }
    assert forall|k: int| 0 <= k < b.len() implies !p(#[trigger] b[k]) by {
        assert(is_digit(b[k]));
    }
    assert(p(' '));
    let ab = a.push(' ') + b;
    let abm = ab.push(' ') + m;
    assert(a + " "@ + b + " "@ + m =~= abm);
    one_piece(a, p);
    pieces_of_two(a, ' ', b, p);
    pieces_of_two(ab, ' ', m, p);
    two_words(a, b, q);
    let two = seq![a].push(b);
    assert(two =~= seq![a, b]);
    keep_push(two, m, q);
    assert(words_text(abm) =~= seq![a, b, m]);
}

// ── descriptions ────────────────────────────────────────────────────────
proof fn a_line_grows(b: Seq<u8>, l: Seq<u8>)
    requires
        forall|k: int| 0 <= k < l.len() ==> (#[trigger] l[k]) != 10,
    ensures
        lines_and_rest(b + l).0 == lines_and_rest(b).0,
        lines_and_rest(b + l).1 == lines_and_rest(b).1 + l,
    decreases l.len(),
{
    if l.len() == 0 {
        assert(b + l =~= b);
        assert(lines_and_rest(b).1 + l =~= lines_and_rest(b).1);
    } else {
        let k = l.drop_last();
        assert forall|i: int| 0 <= i < k.len() implies (#[trigger] k[i]) != 10 by {
            assert(k[i] == l[i]);
        }
        a_line_grows(b, k);
        assert((b + l).drop_last() =~= b + k);
        assert((b + l).last() == l.last());
        assert(l[l.len() - 1] != 10);
        assert((lines_and_rest(b).1 + k).push(l.last()) =~= lines_and_rest(b).1 + l);
    }
}

/// What a description says of the media is its `c=`, `m=` and `a=` lines, in order:
/// one more such line is one thing more said, and any other line is nothing.
pub proof fn a_media_line_counts_and_no_other(b: Seq<u8>, l: Seq<u8>)
    requires
        b.len() == 0 || b.last() == 10,
        forall|k: int| 0 <= k < l.len() ==> (#[trigger] l[k]) != 10,
        l.len() == 0 || l.last() != 13,
    ensures
        ({
            let longer = b + (l + seq![13u8, 10u8]);
            let counts = l.len() >= 2 && l[1] == 0x3d && (l[0] == 0x63 || l[0] == 0x6d || l[0]
                == 0x61);
            &&& counts ==> media_lines(longer) == media_lines(b).push(l)
            &&& !counts ==> media_lines(longer) == media_lines(b)
            &&& counts ==> !media_equivalent(b, longer)
            &&& !counts ==> media_equivalent(b, longer)
        }),
{
    let with_cr = l.push(13u8);
    let longer = b + (l + seq![13u8, 10u8]);
    assert forall|k: int| 0 <= k < with_cr.len() implies (#[trigger] with_cr[k]) != 10 by {
        if k < l.len() {
            assert(with_cr[k] == l[k]);
        }
    }
    a_line_grows(b, with_cr);
    assert(longer.drop_last() =~= b + with_cr);
    assert(longer.last() == 10);
    let ls = lines_and_rest(b).0;
    let rest = lines_and_rest(b).1;
    assert(rest.len() == 0);
    assert(rest + with_cr =~= with_cr);
    assert(without_cr(with_cr) =~= l);
    assert(lines_and_rest(longer).0 == ls.push(l));
    assert(lines_and_rest(longer).1.len() == 0);
    keep_push(ls, l, is_media_line());
    let counts = l.len() >= 2 && l[1] == 0x3d && (l[0] == 0x63 || l[0] == 0x6d || l[0] == 0x61);
    if counts {
        assert(media_lines(longer) == media_lines(b).push(l));
        assert(media_lines(longer).len() != media_lines(b).len());
    }
}

// ── timers ──────────────────────────────────────────────────────────────
/// The timers of two legs are two timers, and so are the rung and the give-up of one
/// obligation.
pub proof fn timers_are_told_apart(
    t: TimerTypeView,
    one: Seq<char>,
    other: Seq<char>,
    o: ObligationView,
)
    requires
        one != other,
    ensures
        timer_key(t, Some(one)) != timer_key(t, Some(other)),
        timer_key(TimerTypeView::Rung { obligation: o }, None) != timer_key(
            TimerTypeView::RepeatGiveUp { obligation: o },
            None,
        ),
{
    let a = timer_key(t, Some(one));
    let b = timer_key(t, Some(other));
    let n = a.len() - one.len();
    assert(a.skip(n) =~= one);
    if a == b {
        let m = b.len() - other.len();
        assert(n == m);
        assert(b.skip(m) =~= other);
    }
    reveal_strlit("Rung");
    reveal_strlit("RepeatGiveUp");
    let r = timer_key(TimerTypeView::Rung { obligation: o }, None);
    let g = timer_key(TimerTypeView::RepeatGiveUp { obligation: o }, None);
    assert(r[1] == 'u');
    assert(g[1] == 'e');
}

} // verus!

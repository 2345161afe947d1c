//! Text at the level the rules read it: comparison, trimming, splitting,
//! joining, and decimal numerals. A text is a sequence of characters.
use vstd::prelude::*;

use crate::seqs::{
    first_where, first_where_is, first_where_none, keep, keep_step, opt_view, opt_views, views,
};

verus! {

/// `String::push` appends the given character to the end of the string.
pub assume_specification[ String::push ](s: &mut String, c: char)
    ensures
        final(s)@ == old(s)@.push(c),
;

/// Whether two texts hold the same characters.
pub fn same(a: &str, b: &str) -> (r: bool)
    ensures
        r == (a@ == b@),
{
    a.to_string() == b.to_string()
}

/// A copy of a byte string.
pub fn clone_bytes(b: &Vec<u8>) -> (r: Vec<u8>)
    ensures
        r@ == b@,
{
    let r = b.clone();
    assert(r@ =~= b@);
    r
}

/// A copy of an optional byte string.
pub fn clone_opt_bytes(b: &Option<Vec<u8>>) -> (r: Option<Vec<u8>>)
    ensures
        opt_view(r) == opt_view(*b),
{
    match b {
        Some(b) => Some(clone_bytes(b)),
        None => None,
    }
}

/// A copy of a list of texts.
pub fn clone_texts(list: &Vec<String>) -> (r: Vec<String>)
    ensures
        views(r@) == views(list@),
{
    let r = list.clone();
    assert(views(r@) =~= views(list@));
    r
}

/// A copy of an optional list of texts.
pub fn clone_opt_texts(list: &Option<Vec<String>>) -> (r: Option<Vec<String>>)
    ensures
        opt_views(r) == opt_views(*list),
{
    match list {
        Some(list) => Some(clone_texts(list)),
        None => None,
    }
}

/// Whether `item` occurs in `list`.
pub fn contains_text(list: &Vec<String>, item: &String) -> (r: bool)
    ensures
        r == views(list@).contains(item@),
{
    for i in 0..list.len()
        invariant
            forall|j: int| 0 <= j < i ==> list@[j]@ != item@,
    {
        if list[i] == *item {
            assert(views(list@)[i as int] == item@);
            return true;
        }
    }
    assert forall|j: int| 0 <= j < views(list@).len() implies views(list@)[j] != item@ by {
        assert(views(list@)[j] == list@[j]@);
    }
    false
}

/// The characters of a text, one by one.
pub fn chars_of(s: &str) -> (r: Vec<char>)
    ensures
        r@ == s@,
{
    let n: usize = s.unicode_len();
    let mut out: Vec<char> = Vec::new();
    for i in 0..n
        invariant
            n == s@.len(),
            out@ == s@.take(i as int),
    {
        out.push(s.get_char(i));
        assert(s@.take(i + 1) =~= s@.take(i as int).push(s@[i as int]));
    }
    assert(s@.take(n as int) =~= s@);
    out
}

/// The text made of the characters `from..to` of `cs`.
pub fn slice_text(cs: &Vec<char>, from: usize, to: usize) -> (r: String)
    requires
        from <= to <= cs@.len(),
    ensures
        r@ == cs@.subrange(from as int, to as int),
{
    let mut out = String::new();
    for i in from..to
        invariant
            from <= to <= cs@.len(),
            out@ == cs@.subrange(from as int, i as int),
    {
        out.push(cs[i]);
        assert(cs@.subrange(from as int, i + 1) =~= cs@.subrange(from as int, i as int).push(
            cs@[i as int],
        ));
    }
    out
}

// ── numerals ────────────────────────────────────────────────────────────
pub open spec fn digit_char(d: nat) -> char {
    (48 + d) as char
}

/// The decimal numeral of `n`, without leading zeros.
pub open spec fn decimal_text(n: nat) -> Seq<char>
    decreases n,
{
    if n < 10 {
        seq![digit_char(n)]
    } else {
        decimal_text(n / 10).push(digit_char(n % 10))
    }
}

/// The decimal numeral of `n`, with a leading `-` below zero.
pub open spec fn signed_text(n: int) -> Seq<char> {
    if n < 0 {
        seq!['-'] + decimal_text((-n) as nat)
    } else {
        decimal_text(n as nat)
    }
}

fn digit(d: u64) -> (c: char)
    requires
        d < 10,
    ensures
        c == digit_char(d as nat),
{
    if d == 0 {
        '0'
    } else if d == 1 {
        '1'
    } else if d == 2 {
        '2'
    } else if d == 3 {
        '3'
    } else if d == 4 {
        '4'
    } else if d == 5 {
        '5'
    } else if d == 6 {
        '6'
    } else if d == 7 {
        '7'
    } else if d == 8 {
        '8'
    } else {
        '9'
    }
}

/// Write `n` as a decimal numeral.
pub fn decimal(n: u64) -> (r: String)
    ensures
        r@ == decimal_text(n as nat),
    decreases n,
{
    if n < 10 {
        let mut s = String::new();
        s.push(digit(n));
        assert(s@ =~= seq![digit_char(n as nat)]);
        s
    } else {
        let mut s = decimal(n / 10);
        s.push(digit(n % 10));
        s
    }
}

/// Write `n` as a decimal numeral with its sign.
pub fn signed(n: i64) -> (r: String)
    ensures
        r@ == signed_text(n as int),
{
    if n < 0 {
        let mut s = String::new();
        s.push('-');
        let m: u64 = if n == i64::MIN {
            0x8000_0000_0000_0000u64
        } else {
            (-n) as u64
        };
        let d = decimal(m);
        s.append(d.as_str());
        assert(s@ =~= seq!['-'] + decimal_text((-n) as nat));
        s
    } else {
        decimal(n as u64)
    }
}

/// Two numerals are the same text only for the same number.
pub proof fn decimal_injective(m: nat, n: nat)
    ensures
        decimal_text(m) == decimal_text(n) ==> m == n,
    decreases m,
{
    if decimal_text(m) == decimal_text(n) {
        decimal_nonempty(m / 10);
        decimal_nonempty(n / 10);
        if m < 10 && n < 10 {
            assert(decimal_text(m)[0] == decimal_text(n)[0]);
        } else if m >= 10 && n >= 10 {
            let a = decimal_text(m / 10);
            let b = decimal_text(n / 10);
            assert(a =~= decimal_text(m).drop_last());
            assert(b =~= decimal_text(n).drop_last());
            decimal_injective(m / 10, n / 10);
            assert(decimal_text(m).last() == digit_char(m % 10));
            assert(decimal_text(n).last() == digit_char(n % 10));
        } else {
            assert(decimal_text(m).len() == decimal_text(n).len());
        }
    }
}

pub proof fn decimal_nonempty(n: nat)
    ensures
        decimal_text(n).len() >= 1,
    decreases n,
{
    if n >= 10 {
        decimal_nonempty(n / 10);
    }
}

pub open spec fn is_digit(c: char) -> bool {
    '0' <= c && c <= '9'
}

/// The number a string of digits writes, if every character is one.
pub open spec fn digits_value(s: Seq<char>) -> Option<nat>
    decreases s.len(),
{
    if s.len() == 0 {
        Some(0)
    } else if !is_digit(s.last()) {
        None
    } else {
        match digits_value(s.drop_last()) {
            Some(v) => Some(v * 10 + (s.last() as nat - 48) as nat),
            None => None,
        }
    }
}

/// The value of a non-empty digit string that is at most `max`.
pub open spec fn number_at_most(s: Seq<char>, max: nat) -> Option<nat> {
    if s.len() == 0 {
        None
    } else {
        match digits_value(s) {
            Some(v) => if v <= max {
                Some(v)
            } else {
                None
            },
            None => None,
        }
    }
}

proof fn digits_value_grows(s: Seq<char>, i: int)
    requires
        0 <= i <= s.len(),
    ensures
        digits_value(s.take(i)) is None ==> digits_value(s) is None,
        digits_value(s) matches Some(v) ==> digits_value(s.take(i)) matches Some(w) && w <= v,
    decreases s.len() - i,
{
    if i == s.len() {
        assert(s.take(i) =~= s);
    } else {
        digits_value_grows(s, i + 1);
        assert(s.take(i + 1).drop_last() =~= s.take(i));
    }
}

/// Read a digit string of value at most `max`.
pub fn read_number(s: &str, max: u64) -> (r: Option<u64>)
    ensures
        match r {
            Some(v) => number_at_most(s@, max as nat) == Some(v as nat),
            None => number_at_most(s@, max as nat) is None,
        },
{
    let cs = chars_of(s);
    if cs.len() == 0 {
        return None;
    }
    let mut value: u64 = 0;
    for i in 0..cs.len()
        invariant
            cs@ == s@,
            cs@.len() > 0,
            value <= max,
            digits_value(s@.take(i as int)) == Some(value as nat),
    {
        let c = cs[i];
        assert(s@.take(i + 1).drop_last() =~= s@.take(i as int));
        assert(s@.take(i + 1).last() == c);
        if c < '0' || c > '9' {
            proof {
                digits_value_grows(s@, i + 1);
            }
            return None;
        }
        let d: u64 = (c as u32 - 48) as u64;
        if value > (u64::MAX - d) / 10 {
            proof {
                digits_value_grows(s@, i + 1);
                assert(value * 10 + d > u64::MAX);
            }
            return None;
        }
        value = value * 10 + d;
        if value > max {
            proof {
                digits_value_grows(s@, i + 1);
            }
            return None;
        }
    }
    assert(s@.take(cs@.len() as int) =~= s@);
    Some(value)
}

// ── letters ─────────────────────────────────────────────────────────────
/// Unicode white space.
pub open spec fn is_space(c: char) -> bool {
    let n = c as u32;
    ||| 0x9 <= n <= 0xd
    ||| n == 0x20
    ||| n == 0x85
    ||| n == 0xa0
    ||| n == 0x1680
    ||| 0x2000 <= n <= 0x200a
    ||| n == 0x2028
    ||| n == 0x2029
    ||| n == 0x202f
    ||| n == 0x205f
    ||| n == 0x3000
}

pub fn space(c: char) -> (r: bool)
    ensures
        r == is_space(c),
{
    let n: u32 = c as u32;
    (0x9 <= n && n <= 0xd) || n == 0x20 || n == 0x85 || n == 0xa0 || n == 0x1680 || (0x2000 <= n
        && n <= 0x200a) || n == 0x2028 || n == 0x2029 || n == 0x202f || n == 0x205f || n == 0x3000
}

/// The ASCII lower-case form of a character.
pub open spec fn lower_char(c: char) -> char {
    if 'A' <= c && c <= 'Z' {
        (c as u32 + 32) as char
    } else {
        c
    }
}

/// The ASCII lower-case form of a text.
pub open spec fn lower(s: Seq<char>) -> Seq<char> {
    s.map_values(|c: char| lower_char(c))
}

fn lowered(c: char) -> (r: char)
    ensures
        r == lower_char(c),
{
    if 'A' <= c && c <= 'Z' {
        (c as u8 + 32) as char
    } else {
        c
    }
}

/// Whether two texts are equal but for ASCII case.
pub open spec fn same_ignoring_case(a: Seq<char>, b: Seq<char>) -> bool {
    lower(a) == lower(b)
}

/// Compare two texts ignoring ASCII case.
pub fn eq_ignore_case(a: &str, b: &str) -> (r: bool)
    ensures
        r == same_ignoring_case(a@, b@),
{
    let x = chars_of(a);
    let y = chars_of(b);
    if x.len() != y.len() {
        assert(lower(a@).len() != lower(b@).len());
        return false;
    }
    for i in 0..x.len()
        invariant
            x@ == a@,
            y@ == b@,
            x@.len() == y@.len(),
            forall|j: int| 0 <= j < i ==> lower_char(#[trigger] x@[j]) == lower_char(y@[j]),
    {
        if lowered(x[i]) != lowered(y[i]) {
            assert(lower(a@)[i as int] != lower(b@)[i as int]);
            return false;
        }
    }
    assert(lower(a@) =~= lower(b@));
    true
}

// ── trimming and splitting ──────────────────────────────────────────────
pub open spec fn trim_end_text(s: Seq<char>) -> Seq<char>
    decreases s.len(),
{
    if s.len() > 0 && is_space(s.last()) {
        trim_end_text(s.drop_last())
    } else {
        s
    }
}

pub open spec fn trim_start_text(s: Seq<char>) -> Seq<char>
    decreases s.len(),
{
    if s.len() > 0 && is_space(s[0]) {
        trim_start_text(s.skip(1))
    } else {
        s
    }
}

/// The text without leading and trailing white space.
pub open spec fn trim_text(s: Seq<char>) -> Seq<char> {
    trim_start_text(trim_end_text(s))
}

/// Strip leading and trailing white space.
pub fn trim(s: &str) -> (r: String)
    ensures
        r@ == trim_text(s@),
{
    let cs = chars_of(s);
    let mut to: usize = cs.len();
    assert(cs@.take(to as int) =~= cs@);
    while to > 0 && space(cs[to - 1])
        invariant
            to <= cs@.len(),
            trim_end_text(cs@.take(to as int)) == trim_end_text(cs@),
        decreases to,
    {
        assert(cs@.take(to as int).drop_last() =~= cs@.take(to - 1));
        to = to - 1;
    }
    let ghost body = cs@.take(to as int);
    assert(trim_end_text(body) == body);
    let mut from: usize = 0;
    assert(body.skip(0) =~= body);
    while from < to && space(cs[from])
        invariant
            from <= to <= cs@.len(),
            body == cs@.take(to as int),
            trim_start_text(body.skip(from as int)) == trim_start_text(body),
        decreases to - from,
    {
        assert(body.skip(from as int)[0] == cs@[from as int]);
        assert(body.skip(from as int).skip(1) =~= body.skip(from + 1));
        from = from + 1;
    }
    proof {
        if from < to {
            assert(body.skip(from as int)[0] == cs@[from as int]);
        }
        assert(body.skip(from as int) =~= cs@.subrange(from as int, to as int));
    }
    slice_text(&cs, from, to)
}

/// The pieces of `s` between the characters that satisfy `p`; always at least
/// one, possibly empty.
pub open spec fn pieces(s: Seq<char>, p: spec_fn(char) -> bool) -> Seq<Seq<char>>
    decreases s.len(),
{
    if s.len() == 0 {
        seq![Seq::<char>::empty()]
    } else {
        let r = pieces(s.drop_last(), p);
        if p(s.last()) {
            r.push(Seq::<char>::empty())
        } else {
            r.drop_last().push(r.last().push(s.last()))
        }
    }
}

/// The predicate of being the character `sep`.
pub open spec fn is_char(sep: char) -> spec_fn(char) -> bool {
    |c: char| c == sep
}

/// The pieces of `s` between occurrences of `sep`.
pub open spec fn split_text(s: Seq<char>, sep: char) -> Seq<Seq<char>> {
    pieces(s, is_char(sep))
}

/// The maximal runs of characters that are not white space.
pub open spec fn words_text(s: Seq<char>) -> Seq<Seq<char>> {
    keep(pieces(s, |c: char| is_space(c)), |w: Seq<char>| w.len() > 0)
}

proof fn pieces_step(
    s: Seq<char>,
    p: spec_fn(char) -> bool,
    i: int,
    done: Seq<Seq<char>>,
    cur: Seq<char>,
)
    requires
        0 <= i < s.len(),
        pieces(s.take(i), p) == done.push(cur),
    ensures
        p(s[i]) ==> pieces(s.take(i + 1), p) == done.push(cur).push(Seq::<char>::empty()),
        !p(s[i]) ==> pieces(s.take(i + 1), p) == done.push(cur.push(s[i])),
{
    assert(s.take(i + 1).drop_last() =~= s.take(i));
    assert(s.take(i + 1).last() == s[i]);
    assert(done.push(cur).drop_last() =~= done);
    assert(done.push(cur).last() == cur);
}

/// Split `s` at every occurrence of `sep`.
pub fn split(s: &str, sep: char) -> (r: Vec<String>)
    ensures
        views(r@) == split_text(s@, sep),
{
    let cs = chars_of(s);
    let ghost p = is_char(sep);
    let mut done: Vec<String> = Vec::new();
    let mut cur = String::new();
    assert(views(done@).push(cur@) =~= seq![Seq::<char>::empty()]);
    assert(cs@.take(0).len() == 0);
    for i in 0..cs.len()
        invariant
            p == is_char(sep),
            pieces(cs@.take(i as int), p) == views(done@).push(cur@),
    {
        proof {
            pieces_step(cs@, p, i as int, views(done@), cur@);
        }
        if cs[i] == sep {
            let ghost before = views(done@).push(cur@);
            done.push(cur);
            cur = String::new();
            assert(views(done@) =~= before);
            assert(cur@ =~= Seq::<char>::empty());
        } else {
            cur.push(cs[i]);
        }
    }
    let ghost before = views(done@).push(cur@);
    done.push(cur);
    assert(views(done@) =~= before);
    assert(cs@.take(cs@.len() as int) =~= cs@);
    done
}

/// Split `s` at white space, dropping empty pieces.
pub fn words(s: &str) -> (r: Vec<String>)
    ensures
        views(r@) == words_text(s@),
{
    let cs = chars_of(s);
    let ghost p = |c: char| is_space(c);
    let ghost q = |w: Seq<char>| w.len() > 0;
    let mut all: Vec<String> = Vec::new();
    let mut cur = String::new();
    assert(views(all@).push(cur@) =~= seq![Seq::<char>::empty()]);
    assert(cs@.take(0).len() == 0);
    for i in 0..cs.len()
        invariant
            p == (|c: char| is_space(c)),
            pieces(cs@.take(i as int), p) == views(all@).push(cur@),
    {
        proof {
            pieces_step(cs@, p, i as int, views(all@), cur@);
        }
        if space(cs[i]) {
            let ghost before = views(all@).push(cur@);
            all.push(cur);
            cur = String::new();
            assert(views(all@) =~= before);
            assert(cur@ =~= Seq::<char>::empty());
        } else {
            cur.push(cs[i]);
        }
    }
    let ghost before = views(all@).push(cur@);
    all.push(cur);
    assert(views(all@) =~= before);
    assert(cs@.take(cs@.len() as int) =~= cs@);
    let mut out: Vec<String> = Vec::new();
    assert(views(all@).take(0).len() == 0);
    assert(views(out@) =~= Seq::<Seq<char>>::empty());
    for i in 0..all.len()
        invariant
            q == (|w: Seq<char>| w.len() > 0),
            views(out@) == keep(views(all@).take(i as int), q),
    {
        proof {
            keep_step(views(all@), q, i as int);
        }
        if all[i].as_str().unicode_len() > 0 {
            let ghost before = views(out@);
            out.push(all[i].clone());
            assert(views(out@) =~= before.push(all@[i as int]@));
        }
    }
    assert(views(all@).take(all@.len() as int) =~= views(all@));
    out
}

/// `parts` with `sep` between each two.
pub open spec fn join_text(parts: Seq<Seq<char>>, sep: Seq<char>) -> Seq<char>
    decreases parts.len(),
{
    if parts.len() == 0 {
        Seq::empty()
    } else if parts.len() == 1 {
        parts[0]
    } else {
        join_text(parts.drop_last(), sep) + sep + parts.last()
    }
}

/// Join `parts` with `sep` between each two.
pub fn join(parts: &Vec<String>, sep: &str) -> (r: String)
    ensures
        r@ == join_text(views(parts@), sep@),
{
    let mut out = String::new();
    assert(views(parts@).take(0).len() == 0);
    for i in 0..parts.len()
        invariant
            out@ == join_text(views(parts@).take(i as int), sep@),
    {
        assert(views(parts@).take(i + 1).drop_last() =~= views(parts@).take(i as int));
        assert(views(parts@).take(i + 1).last() == parts@[i as int]@);
        if i > 0 {
            out.append(sep);
            out.append(parts[i].as_str());
        } else {
            out = parts[i].clone();
        }
    }
    assert(views(parts@).take(parts@.len() as int) =~= views(parts@));
    out
}

// ── searching ───────────────────────────────────────────────────────────
/// The index of the first occurrence of `c`.
pub open spec fn index_of(s: Seq<char>, c: char) -> Option<int> {
    first_where(s, is_char(c))
}

/// Find the first occurrence of `c` in `cs`.
pub fn find_char(cs: &Vec<char>, c: char) -> (r: Option<usize>)
    ensures
        match r {
            Some(i) => i < cs@.len() && index_of(cs@, c) == Some(i as int),
            None => index_of(cs@, c) is None,
        },
{
    let ghost p = is_char(c);
    for i in 0..cs.len()
        invariant
            p == is_char(c),
            forall|j: int| 0 <= j < i ==> !p(#[trigger] cs@[j]),
    {
        if cs[i] == c {
            proof {
                first_where_is(cs@, p, i as int);
            }
            return Some(i);
        }
    }
    proof {
        first_where_none(cs@, p);
    }
    None
}

pub open spec fn starts_with_text(s: Seq<char>, prefix: Seq<char>) -> bool {
    prefix.len() <= s.len() && s.take(prefix.len() as int) == prefix
}

pub open spec fn ends_with_text(s: Seq<char>, suffix: Seq<char>) -> bool {
    suffix.len() <= s.len() && s.skip(s.len() - suffix.len()) == suffix
}

/// Whether `s` begins with `prefix`.
pub fn starts_with(s: &str, prefix: &str) -> (r: bool)
    ensures
        r == starts_with_text(s@, prefix@),
{
    let a = chars_of(s);
    let b = chars_of(prefix);
    if b.len() > a.len() {
        return false;
    }
    for i in 0..b.len()
        invariant
            a@ == s@,
            b@ == prefix@,
            b@.len() <= a@.len(),
            forall|j: int| 0 <= j < i ==> a@[j] == b@[j],
    {
        if a[i] != b[i] {
            assert(s@.take(prefix@.len() as int)[i as int] != prefix@[i as int]);
            return false;
        }
    }
    assert(s@.take(prefix@.len() as int) =~= prefix@);
    true
}

/// Whether `s` ends with `suffix`.
pub fn ends_with(s: &str, suffix: &str) -> (r: bool)
    ensures
        r == ends_with_text(s@, suffix@),
{
    let a = chars_of(s);
    let b = chars_of(suffix);
    if b.len() > a.len() {
        return false;
    }
    let off: usize = a.len() - b.len();
    for i in 0..b.len()
        invariant
            a@ == s@,
            b@ == suffix@,
            b@.len() <= a@.len(),
            off + b@.len() == a@.len(),
            a@.len() <= usize::MAX,
            forall|j: int| 0 <= j < i ==> a@[j + off] == b@[j],
    {
        if a[i + off] != b[i] {
            assert(s@.skip(s@.len() - suffix@.len())[i as int] != suffix@[i as int]);
            return false;
        }
    }
    assert(s@.skip(s@.len() - suffix@.len()) =~= suffix@);
    true
}

// ── order ───────────────────────────────────────────────────────────────
/// Lexicographic order by character.
pub open spec fn text_less(a: Seq<char>, b: Seq<char>) -> bool
    decreases a.len(),
{
    if b.len() == 0 {
        false
    } else if a.len() == 0 {
        true
    } else if a[0] != b[0] {
        (a[0] as int) < (b[0] as int)
    } else {
        text_less(a.skip(1), b.skip(1))
    }
}

/// Whether `a` comes before `b`.
pub fn less(a: &str, b: &str) -> (r: bool)
    ensures
        r == text_less(a@, b@),
{
    let x = chars_of(a);
    let y = chars_of(b);
    let mut i: usize = 0;
    assert(a@.skip(0) =~= a@);
    assert(b@.skip(0) =~= b@);
    while i < x.len() && i < y.len()
        invariant
            x@ == a@,
            y@ == b@,
            i <= x@.len(),
            i <= y@.len(),
            text_less(a@, b@) == text_less(a@.skip(i as int), b@.skip(i as int)),
        decreases x@.len() - i,
    {
        assert(a@.skip(i as int)[0] == x@[i as int]);
        assert(b@.skip(i as int)[0] == y@[i as int]);
        if x[i] != y[i] {
            return x[i] < y[i];
        }
        assert(a@.skip(i as int).skip(1) =~= a@.skip(i + 1));
        assert(b@.skip(i as int).skip(1) =~= b@.skip(i + 1));
        i = i + 1;
    }
    i < y.len()
}

pub proof fn text_less_irreflexive(a: Seq<char>)
    ensures
        !text_less(a, a),
    decreases a.len(),
{
    if a.len() > 0 {
        text_less_irreflexive(a.skip(1));
    }
}

pub proof fn text_less_transitive(a: Seq<char>, b: Seq<char>, c: Seq<char>)
    requires
        text_less(a, b),
        text_less(b, c),
    ensures
        text_less(a, c),
    decreases a.len(),
{
    if a.len() > 0 && a[0] == b[0] && b[0] == c[0] {
        text_less_transitive(a.skip(1), b.skip(1), c.skip(1));
    }
}

pub proof fn text_less_total(a: Seq<char>, b: Seq<char>)
    ensures
        text_less(a, b) || text_less(b, a) || a == b,
    decreases a.len(),
{
    if a.len() > 0 && b.len() > 0 && a[0] == b[0] {
        text_less_total(a.skip(1), b.skip(1));
        if a.skip(1) == b.skip(1) {
            assert(a =~= seq![a[0]] + a.skip(1));
            assert(b =~= seq![b[0]] + b.skip(1));
        }
    } else if a.len() == 0 && b.len() == 0 {
        assert(a =~= b);
    }
}

} // verus!

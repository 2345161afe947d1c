//! What the page of all machines holds: one diagram of each, under its name and
//! in the order of registration.
use vstd::prelude::*;

use crate::docgen::{
    diagram, edge_line, edge_lines, machine_graph, page, sanitized, section, sections, state_line,
    state_lines, EdgeView, MachineGraphView, DIAGRAM_MARK, PAGE_HEAD, PAGE_TAIL,
};
use crate::model::ServiceDefView;

verus! {

/// The text ends with the mark of a diagram.
pub open spec fn ends_marked(s: Seq<char>) -> bool {
    let m = DIAGRAM_MARK@;
    s.len() >= m.len() && s.subrange(s.len() - m.len(), s.len() as int) == m
}

/// How many diagrams a text opens: how often the mark of one stands in it.
pub open spec fn diagrams(s: Seq<char>) -> nat
    decreases s.len(),
{
    if s.len() == 0 {
        0
    } else if ends_marked(s) {
        diagrams(s.drop_last()) + 1
    } else {
        diagrams(s.drop_last())
    }
}

/// Nothing of a machine's own making opens a diagram: neither its name, nor its
/// states, nor its labels as they are drawn.
pub open spec fn opens_nothing(g: MachineGraphView) -> bool {
    &&& diagrams(g.id) == 0
    &&& forall|i: int| 0 <= i < g.states.len() ==> diagrams(#[trigger] g.states[i]) == 0
    &&& forall|i: int|
        0 <= i < g.edges.len() ==> {
            &&& diagrams((#[trigger] g.edges[i]).from) == 0
            &&& diagrams(g.edges[i].to) == 0
            &&& diagrams(sanitized(g.edges[i].label)) == 0
        }
}

// ── the mark ────────────────────────────────────────────────────────────
/// The characters of the mark after its first.
spec fn inner(c: char) -> bool {
    c == 'p' || c == 'r' || c == 'e' || c == ' ' || c == 'c' || c == 'l' || c == 'a' || c == 's'
        || c == '=' || c == '"' || c == 'm' || c == 'i' || c == 'd' || c == '>'
}

/// The two may follow each other in the mark, after its first character.
spec fn goes_on(x: char, y: char) -> bool {
    inner(x) && (x == ' ' ==> y == 'c') && (x == 's' ==> y == 's' || y == '=')
}

/// A text that cannot go on with a mark begun before it.
spec fn breaks(b: Seq<char>) -> bool {
    b.len() > 0 && (!inner(b[0]) || (b.len() > 1 && b[0] != '>' && !goes_on(b[0], b[1])))
}

spec fn goes_on_upto(m: Seq<char>, n: nat) -> bool
    decreases n,
{
    n <= 1 || (goes_on(m[n - 1], m[n as int]) && goes_on_upto(m, (n - 1) as nat))
}

proof fn goes_on_within(m: Seq<char>, n: nat, k: int)
    requires
        goes_on_upto(m, n),
        1 <= k < n,
    ensures
        goes_on(m[k], m[k + 1]),
    decreases n,
{
    if k < n - 1 {
        goes_on_within(m, (n - 1) as nat, k);
    }
}

proof fn the_mark()
    ensures
        DIAGRAM_MARK@.len() == 21,
        DIAGRAM_MARK@[0] == '<',
        DIAGRAM_MARK@[1] == 'p',
        DIAGRAM_MARK@[18] == 'd',
        DIAGRAM_MARK@[19] == '"',
        DIAGRAM_MARK@[20] == '>',
        forall|k: int|
            1 <= k < 20 ==> goes_on(#[trigger] DIAGRAM_MARK@[k], DIAGRAM_MARK@[k + 1]),
{
    reveal_strlit("<pre class=\"mermaid\">");
    let m = DIAGRAM_MARK@;
    assert(goes_on_upto(m, 20)) by {
        reveal_with_fuel(goes_on_upto, 21);
    }
    assert forall|k: int| 1 <= k < 20 implies goes_on(#[trigger] m[k], m[k + 1]) by {
        goes_on_within(m, 20, k);
    }
}

// ── texts in a row ──────────────────────────────────────────────────────
proof fn nothing_opens_shortly(s: Seq<char>)
    requires
        s.len() < 21,
    ensures
        diagrams(s) == 0,
    decreases s.len(),
{
    the_mark();
    if s.len() > 0 {
        nothing_opens_shortly(s.drop_last());
    }
}

proof fn the_mark_opens_one()
    ensures
        diagrams(DIAGRAM_MARK@) == 1,
{
    the_mark();
    let m = DIAGRAM_MARK@;
    nothing_opens_shortly(m.drop_last());
    assert(m.subrange(0, 21) =~= m);
}

/// The diagrams of two texts in a row are those of each, where no mark spans the
/// two.
proof fn opened_apart(a: Seq<char>, b: Seq<char>, n: nat)
    requires
        breaks(b),
        n <= b.len(),
    ensures
        diagrams(a + b.take(n as int)) == diagrams(a) + diagrams(b.take(n as int)),
    decreases n,
{
    the_mark();
    let m = DIAGRAM_MARK@;
    let c = b.take(n as int);
    if n == 0 {
        assert(a + c =~= a);
    } else {
        let c0 = b.take(n - 1);
        assert((a + c).drop_last() =~= a + c0);
        assert(c.drop_last() =~= c0);
        opened_apart(a, b, (n - 1) as nat);
        if n >= 21 {
            assert((a + c).subrange(a.len() + n - 21, (a + c).len() as int) =~= c.subrange(
                n - 21,
                n as int,
            ));
        } else if ends_marked(a + c) {
            let k = 21 - n;
            let s = (a + c).subrange(a.len() + n - 21, (a + c).len() as int);
            assert(s[k] == b[0]);
            assert(m[k] == b[0]);
            if n > 1 {
                assert(s[k + 1] == b[1]);
                assert(goes_on(m[k], m[k + 1]));
            }
        }
    }
}

/// Two texts in a row, the second of which goes on with no mark.
proof fn opened_in_a_row(a: Seq<char>, b: Seq<char>)
    requires
        breaks(b),
    ensures
        diagrams(a + b) == diagrams(a) + diagrams(b),
{
    opened_apart(a, b, b.len());
    assert(b.take(b.len() as int) =~= b);
}

/// Nowhere in its first `n` characters does a mark begin that what follows could
/// go on with.
spec fn quiet(a: Seq<char>, n: nat) -> bool
    decreases n,
{
    n == 0 || ((a[n - 1] != '<' || (n < a.len() && a[n as int] != 'p')) && quiet(
        a,
        (n - 1) as nat,
    ))
}

proof fn quiet_within(a: Seq<char>, n: nat, i: int)
    requires
        quiet(a, n),
        0 <= i < n,
    ensures
        a[i] != '<' || (i + 1 < a.len() && a[i + 1] != 'p'),
    decreases n,
{
    if i < n - 1 {
        quiet_within(a, (n - 1) as nat, i);
    }
}

/// A text that begins no mark adds no diagram to what follows it.
proof fn opened_after(a: Seq<char>, b: Seq<char>)
    requires
        quiet(a, a.len()),
    ensures
        diagrams(a + b) == diagrams(b),
    decreases a.len() + b.len(),
{
    the_mark();
    let m = DIAGRAM_MARK@;
    let s = a + b;
    if s.len() > 0 {
        if s.len() >= 21 && s.len() - 21 < a.len() && ends_marked(s) {
            let i = s.len() - 21;
            quiet_within(a, a.len(), i);
            let t = s.subrange(i, s.len() as int);
            assert(t[0] == a[i]);
            assert(t[1] == s[i + 1]);
        }
        if b.len() > 0 {
            assert(s.drop_last() =~= a + b.drop_last());
            opened_after(a, b.drop_last());
            if b.len() >= 21 {
                assert(s.subrange(s.len() - 21, s.len() as int) =~= b.subrange(
                    b.len() - 21,
                    b.len() as int,
                ));
            }
        } else {
            opens_none_alone(a, a.len());
            assert(a.take(a.len() as int) =~= a);
            assert(s =~= a);
        }
    }
}

proof fn opens_none_alone(a: Seq<char>, n: nat)
    requires
        quiet(a, a.len()),
        n <= a.len(),
    ensures
        diagrams(a.take(n as int)) == 0,
    decreases n,
{
    the_mark();
    if n > 0 {
        let s = a.take(n as int);
        assert(s.drop_last() =~= a.take(n - 1));
        opens_none_alone(a, (n - 1) as nat);
        if ends_marked(s) {
            quiet_within(a, a.len(), n - 21);
            let t = s.subrange(n - 21, n as int);
            assert(t[0] == a[n - 21]);
            assert(t[1] == a[n - 20]);
        }
    } else {
        assert(a.take(0).len() == 0);
    }
}

/// The first `n` characters hold no end of a mark.
spec fn unmarked(s: Seq<char>, n: nat) -> bool
    decreases n,
{
    n < 3 || (!(s[n - 1] == '>' && s[n - 2] == '"' && s[n - 3] == 'd') && unmarked(
        s,
        (n - 1) as nat,
    ))
}

proof fn unmarked_opens_none(s: Seq<char>, n: nat)
    requires
        unmarked(s, n),
        n <= s.len(),
    ensures
        diagrams(s.take(n as int)) == 0,
    decreases n,
{
    the_mark();
    let t = s.take(n as int);
    if n < 3 {
        nothing_opens_shortly(t);
    } else {
        assert(t.drop_last() =~= s.take(n - 1));
        unmarked_opens_none(s, (n - 1) as nat);
        if ends_marked(t) {
            let u = t.subrange(n - 21, n as int);
            assert(u[20] == s[n - 1]);
            assert(u[19] == s[n - 2]);
            assert(u[18] == s[n - 3]);
        }
    }
}

// ── the diagrams ────────────────────────────────────────────────────────
/// A text of a machine's own on a line: after an indent, before what breaks.
proof fn set_between(a: Seq<char>, x: Seq<char>, b: Seq<char>)
    requires
        diagrams(x) == 0,
        quiet(a, a.len()),
        breaks(b),
        diagrams(b) == 0,
    ensures
        diagrams(a + x + b) == 0,
{
    opened_after(a, x);
    opened_in_a_row(a + x, b);
}

proof fn the_line_pieces()
    ensures
        quiet("    "@, "    "@.len()),
        breaks("    "@),
        breaks("\n"@),
        diagrams("\n"@) == 0,
        quiet(" --> "@, " --> "@.len()),
        breaks(" --> "@),
        diagrams(" --> "@) == 0,
        quiet(" : "@, " : "@.len()),
        breaks(" : "@),
        diagrams(" : "@) == 0,
{
    reveal_strlit("    ");
    reveal_strlit("\n");
    reveal_strlit(" --> ");
    reveal_strlit(" : ");
    reveal_with_fuel(quiet, 6);
    nothing_opens_shortly("\n"@);
    nothing_opens_shortly(" --> "@);
    nothing_opens_shortly(" : "@);
}

proof fn a_state_line_opens_nothing(s: Seq<char>)
    requires
        diagrams(s) == 0,
    ensures
        diagrams(state_line(s)) == 0,
        breaks(state_line(s)),
{
    the_line_pieces();
    set_between("    "@, s, "\n"@);
    reveal_strlit("    ");
}

proof fn an_edge_line_opens_nothing(e: EdgeView)
    requires
        diagrams(e.from) == 0,
        diagrams(e.to) == 0,
        diagrams(sanitized(e.label)) == 0,
    ensures
        diagrams(edge_line(e)) == 0,
        breaks(edge_line(e)),
{
    the_line_pieces();
    reveal_strlit("    ");
    let a = "    "@ + e.from;
    let b = " --> "@ + e.to;
    opened_after("    "@, e.from);
    opened_after(" --> "@, e.to);
    reveal_strlit(" --> ");
    assert(breaks(b));
    opened_in_a_row(a, b);
    assert(a + " --> "@ + e.to =~= a + b);
    if e.label.len() == 0 {
        opened_in_a_row(a + b, "\n"@);
    } else {
        let c = " : "@ + sanitized(e.label);
        opened_after(" : "@, sanitized(e.label));
        reveal_strlit(" : ");
        assert(breaks(c));
        opened_in_a_row(a + b, c);
        assert(a + b + " : "@ + sanitized(e.label) =~= a + b + c);
        opened_in_a_row(a + b + c, "\n"@);
    }
}

proof fn state_lines_open_nothing(a: Seq<char>, states: Seq<Seq<char>>)
    requires
        diagrams(a) == 0,
        forall|i: int| 0 <= i < states.len() ==> diagrams(#[trigger] states[i]) == 0,
    ensures
        diagrams(a + state_lines(states)) == 0,
    decreases states.len(),
{
    if states.len() == 0 {
        assert(a + state_lines(states) =~= a);
    } else {
        let rest = states.drop_last();
        assert forall|i: int| 0 <= i < rest.len() implies diagrams(#[trigger] rest[i]) == 0 by {
            assert(rest[i] == states[i]);
        }
        state_lines_open_nothing(a, rest);
        a_state_line_opens_nothing(states[states.len() - 1]);
        opened_in_a_row(a + state_lines(rest), state_line(states.last()));
        assert(a + state_lines(states) =~= a + state_lines(rest) + state_line(states.last()));
    }
}

proof fn edge_lines_open_nothing(a: Seq<char>, edges: Seq<EdgeView>)
    requires
        diagrams(a) == 0,
        forall|i: int|
            0 <= i < edges.len() ==> {
                &&& diagrams((#[trigger] edges[i]).from) == 0
                &&& diagrams(edges[i].to) == 0
                &&& diagrams(sanitized(edges[i].label)) == 0
            },
    ensures
        diagrams(a + edge_lines(edges)) == 0,
    decreases edges.len(),
{
    if edges.len() == 0 {
        assert(a + edge_lines(edges) =~= a);
    } else {
        let rest = edges.drop_last();
        assert forall|i: int| 0 <= i < rest.len() implies {
            &&& diagrams((#[trigger] rest[i]).from) == 0
            &&& diagrams(rest[i].to) == 0
            &&& diagrams(sanitized(rest[i].label)) == 0
        } by {
            assert(rest[i] == edges[i]);
        }
        edge_lines_open_nothing(a, rest);
        an_edge_line_opens_nothing(edges[edges.len() - 1]);
        opened_in_a_row(a + edge_lines(rest), edge_line(edges.last()));
        assert(a + edge_lines(edges) =~= a + edge_lines(rest) + edge_line(edges.last()));
    }
}

proof fn a_diagram_opens_nothing(g: MachineGraphView)
    requires
        opens_nothing(g),
    ensures
        diagrams(diagram(g)) == 0,
        breaks(diagram(g)),
{
    let a = "stateDiagram-v2\n"@;
    reveal_strlit("stateDiagram-v2\n");
    nothing_opens_shortly(a);
    state_lines_open_nothing(a, g.states);
    edge_lines_open_nothing(a + state_lines(g.states), g.edges);
    assert(diagram(g)[0] == 's');
    assert(diagram(g)[1] == 't');
}

/// The section of a machine opens one diagram, its own.
proof fn a_section_opens_one(g: MachineGraphView)
    requires
        opens_nothing(g),
    ensures
        diagrams(section(g)) == 1,
        breaks(section(g)),
{
    the_mark();
    let open = "  <section>\n    <h2><code>"@;
    let named = "</code></h2>\n    "@;
    let end = "    </pre>\n  </section>\n"@;
    reveal_strlit("  <section>\n    <h2><code>");
    reveal_strlit("</code></h2>\n    ");
    reveal_strlit("\n");
    reveal_strlit("    </pre>\n  </section>\n");
    assert(quiet(open, open.len())) by {
        reveal_with_fuel(quiet, 28);
    }
    assert(unmarked(end, end.len())) by {
        reveal_with_fuel(unmarked, 28);
    }
    unmarked_opens_none(end, end.len());
    assert(end.take(end.len() as int) =~= end);
    nothing_opens_shortly(named);
    nothing_opens_shortly("\n"@);
    the_mark_opens_one();
    a_diagram_opens_nothing(g);
    let s1 = open + g.id + named;
    set_between(open, g.id, named);
    let s2 = s1 + DIAGRAM_MARK@;
    opened_in_a_row(s1, DIAGRAM_MARK@);
    let s3 = s2 + "\n"@;
    opened_in_a_row(s2, "\n"@);
    let s4 = s3 + diagram(g);
    opened_in_a_row(s3, diagram(g));
    opened_in_a_row(s4, end);
    assert(section(g) == s4 + end);
    assert(section(g)[0] == ' ');
    assert(section(g)[1] == ' ');
}

proof fn sections_open_one_each(ds: Seq<ServiceDefView>)
    requires
        forall|i: int| 0 <= i < ds.len() ==> opens_nothing(machine_graph(#[trigger] ds[i])),
    ensures
        diagrams(sections(ds)) == ds.len(),
        ds.len() > 0 ==> breaks(sections(ds)),
    decreases ds.len(),
{
    if ds.len() > 0 {
        let rest = ds.drop_last();
        let last = section(machine_graph(ds.last()));
        assert forall|i: int| 0 <= i < rest.len() implies opens_nothing(
            machine_graph(#[trigger] rest[i]),
        ) by {
            assert(rest[i] == ds[i]);
        }
        sections_open_one_each(rest);
        assert(opens_nothing(machine_graph(ds[ds.len() - 1])));
        a_section_opens_one(machine_graph(ds.last()));
        opened_in_a_row(sections(rest), last);
        if rest.len() == 0 {
            assert(sections(ds) =~= last);
        } else {
            assert(sections(ds)[0] == sections(rest)[0]);
            if sections(rest).len() > 1 {
                assert(sections(ds)[1] == sections(rest)[1]);
            }
        }
    }
}

proof fn the_head_opens_nothing()
    ensures
        diagrams(PAGE_HEAD@) == 0,
        PAGE_HEAD@.len() >= "<!DOCTYPE html>\n"@.len(),
        PAGE_HEAD@.take("<!DOCTYPE html>\n"@.len() as int) == "<!DOCTYPE html>\n"@,
{
    reveal_strlit("<!DOCTYPE html>\n");
    reveal_strlit(
        "<!DOCTYPE html>\n\
<html lang=\"en\">\n\
<head>\n\
<meta charset=\"utf-8\">\n\
<title>Callflow state machines (ADR-0016)</title>\n\
<!-- GENERATED by `cargo run -p xtask -- state-machine-docs`. Do not edit by hand. -->\n\
<style>\n\
body{font-family:system-ui,sans-serif;max-width:1200px;margin:2rem auto;padding:0 1rem;color:#222}\n\
h1{margin-bottom:.25rem}\n\
section{margin:2.5rem 0}\n\
h2{border-bottom:1px solid #ddd;padding-bottom:.3rem}\n\
.mermaid{overflow-x:auto;border:1px solid #eee;padding:.5rem}\n\
.mermaid svg{height:auto}\n\
p.sub{color:#666;margin-top:0}\n\
</style>\n\
</head>\n\
<body>\n\
<h1>Callflow state machines</h1>\n\
<p class=\"sub\">ADR-0016 \u{2014} generated from the composed service registry. Edge labels read <em>input message [guards] \u{21d2} output side effects</em>; <code>[*]</code> is machine activation / deactivation.</p>\n",
    );
    let s = PAGE_HEAD@;
    // In steps that the unfolding reaches.
    assert(s.len() == 790);
    reveal_with_fuel(unmarked, 42);
    assert(unmarked(s, 40));
    assert(unmarked(s, 80));
    assert(unmarked(s, 120));
    assert(unmarked(s, 160));
    assert(unmarked(s, 200));
    assert(unmarked(s, 240));
    assert(unmarked(s, 280));
    assert(unmarked(s, 320));
    assert(unmarked(s, 360));
    assert(unmarked(s, 400));
    assert(unmarked(s, 440));
    assert(unmarked(s, 480));
    assert(unmarked(s, 520));
    assert(unmarked(s, 560));
    assert(unmarked(s, 600));
    assert(unmarked(s, 640));
    assert(unmarked(s, 680));
    assert(unmarked(s, 720));
    assert(unmarked(s, 760));
    unmarked_opens_none(s, 790);
    assert(s.take(790) =~= s);
}

proof fn the_tail_opens_nothing()
    ensures
        diagrams(PAGE_TAIL@) == 0,
        breaks(PAGE_TAIL@),
        PAGE_TAIL@.len() >= "</html>\n"@.len(),
        PAGE_TAIL@.skip(PAGE_TAIL@.len() - "</html>\n"@.len()) == "</html>\n"@,
{
    reveal_strlit("</html>\n");
    reveal_strlit(
        "<script type=\"module\">\n\
import mermaid from 'https://cdn.jsdelivr.net/npm/mermaid@10/dist/mermaid.esm.min.mjs';\n\
// useMaxWidth:false renders each diagram at its natural size (the wide\n\
// transfer machine then scrolls in its box instead of being shrunk to fit).\n\
mermaid.initialize({ startOnLoad: true, theme: 'neutral', state: { useMaxWidth: false } });\n\
</script>\n\
</body>\n\
</html>\n",
    );
    let s = PAGE_TAIL@;
    // In steps that the unfolding reaches.
    assert(s.len() == 378);
    reveal_with_fuel(unmarked, 42);
    assert(unmarked(s, 40));
    assert(unmarked(s, 80));
    assert(unmarked(s, 120));
    assert(unmarked(s, 160));
    assert(unmarked(s, 200));
    assert(unmarked(s, 240));
    assert(unmarked(s, 280));
    assert(unmarked(s, 320));
    assert(unmarked(s, 360));
    unmarked_opens_none(s, 378);
    assert(s.take(378) =~= s);
}

// ── laws ────────────────────────────────────────────────────────────────
/// The page is one document that opens exactly one diagram for each service.
pub proof fn the_page_draws_each_machine_once(ds: Seq<ServiceDefView>)
    requires
        forall|i: int| 0 <= i < ds.len() ==> opens_nothing(machine_graph(#[trigger] ds[i])),
    ensures
        diagrams(page(ds)) == ds.len(),
        "<!DOCTYPE html>\n"@.is_prefix_of(page(ds)),
        "</html>\n"@.is_suffix_of(page(ds)),
{
    the_head_opens_nothing();
    the_tail_opens_nothing();
    sections_open_one_each(ds);
    let a = PAGE_HEAD@ + sections(ds);
    if ds.len() > 0 {
        opened_in_a_row(PAGE_HEAD@, sections(ds));
    } else {
        assert(a =~= PAGE_HEAD@);
    }
    opened_in_a_row(a, PAGE_TAIL@);
    let head = "<!DOCTYPE html>\n"@;
    let tail = "</html>\n"@;
    assert(page(ds).subrange(0, head.len() as int) =~= PAGE_HEAD@.take(head.len() as int));
    assert(page(ds).subrange(page(ds).len() - tail.len(), page(ds).len() as int) =~= PAGE_TAIL@.skip(
        PAGE_TAIL@.len() - tail.len(),
    ));
}

/// The diagrams stand in the order of registration: what comes before the section
/// of a service draws exactly the services registered before it.
pub proof fn the_page_keeps_the_order(ds: Seq<ServiceDefView>, i: int)
    requires
        forall|j: int| 0 <= j < ds.len() ==> opens_nothing(machine_graph(#[trigger] ds[j])),
        0 <= i < ds.len(),
    ensures
        ({
            let before = PAGE_HEAD@ + sections(ds.take(i));
            let own = section(machine_graph(ds[i]));
            &&& diagrams(before) == i
            &&& diagrams(own) == 1
            &&& (before + own).is_prefix_of(page(ds))
        }),
{
    the_head_opens_nothing();
    let first = ds.take(i);
    assert forall|j: int| 0 <= j < first.len() implies opens_nothing(
        machine_graph(#[trigger] first[j]),
    ) by {
        assert(first[j] == ds[j]);
    }
    sections_open_one_each(first);
    if i > 0 {
        opened_in_a_row(PAGE_HEAD@, sections(first));
    } else {
        assert(PAGE_HEAD@ + sections(first) =~= PAGE_HEAD@);
    }
    a_section_opens_one(machine_graph(ds[i]));
    sections_go_on(ds, i + 1);
    let own = section(machine_graph(ds[i]));
    let next = ds.take(i + 1);
    assert(next.drop_last() =~= first);
    assert(sections(next) == sections(first) + own);
    let before = PAGE_HEAD@ + sections(first);
    assert(before + own =~= PAGE_HEAD@ + sections(next));
    let rest = sections(ds).skip(sections(next).len() as int);
    assert(sections(ds) =~= sections(next) + rest);
    assert(page(ds).subrange(0, (before + own).len() as int) =~= before + own);
}

proof fn sections_go_on(ds: Seq<ServiceDefView>, n: int)
    requires
        0 <= n <= ds.len(),
    ensures
        sections(ds.take(n)).len() <= sections(ds).len(),
        sections(ds).take(sections(ds.take(n)).len() as int) == sections(ds.take(n)),
    decreases ds.len(),
{
    if n == ds.len() {
        assert(ds.take(n) =~= ds);
        assert(sections(ds).take(sections(ds).len() as int) =~= sections(ds));
    } else {
        let rest = ds.drop_last();
        sections_go_on(rest, n);
        assert(rest.take(n) =~= ds.take(n));
        let k = sections(ds.take(n)).len() as int;
        assert(sections(ds).take(k) =~= sections(rest).take(k));
    }
}

} // verus!

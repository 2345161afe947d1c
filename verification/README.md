# b2bua_rules

The rule engine of a SIP back-to-back user agent, written in Verus: a call, an
event and an ordered set of rules go in; the changed call and the effects of the
turn come out.

    run_turn(rules, call, context, executor, ids) -> Turn { result, report }

## Layout

- `src/` is the library. Everything in it is verified.
  - `executor.rs`: which rules apply, in which order, and the turn.
  - `handling.rs`, `guards.rs`: what each handler answers, and when it is asked.
  - `actions/`: what each action does to the call and sends.
  - `invariants.rs`: what holds of a call at the end of every turn.
  - `defaults/`, `promote_pem.rs`, `refer_transfer/`: the rule sets.
  - `capabilities.rs`, `routes.rs`, `sdp.rs`, `headers.rs`: what messages state.
  - `lens.rs`, `state.rs`, `cursors.rs`, `books.rs`, `reliable.rs`: the parts of a call.
  - `docgen.rs`, `page.rs`: the state diagrams of the machines, and the page of them.
  - `json.rs`: reading a decision's JSON; the one place that calls `serde_json`.
- `tests/` runs the library.
- `app/` reads decisions, writes the questions put to the decision layer, and logs
  what a turn reports.

## How the contracts read

Every type `T` of the model has a `TView`, its mathematical value. A function
that changes a value says `final(x)@ == f(old(x)@, ..)` for an open spec function
`f`, so that a caller knows the whole outcome. The work of a turn is a `WorkView`:
the call, the effects so far, and the source of fresh identifiers.

The laws are public proof functions beside what they speak of: in `executor.rs`
the order of the rules, in `actions/aftermath.rs` what a teardown leaves, in
`actions/constant.rs` what no action changes, in
`actions/relay_response.rs` and `reliable.rs` how provisionals are shown and
acknowledged, in `invariants.rs` what ends with a call, in
`refer_transfer/machine/declared.rs` that a transfer does what it declares, in
`page.rs` that the page draws each machine once.

## What is trusted

`json.rs` states what nine calls of `serde_json` return, over the tree of a
value's nodes; `text.rs` states what `String::push` does. Everything else is
proved.

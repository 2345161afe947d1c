//! The rule engine of a SIP back-to-back user agent: which rule handles an event
//! of a call, and what the call becomes and sends as it is handled.
//!
//! A turn takes a call, an event and a set of rules. [`executor`] ranks the rules
//! that apply and takes the first that answers; [`handling`] is what each handler
//! answers; [`actions`] carries the answer out on a copy of the call; and
//! [`invariants`] holds the result to what every call owes. Messages leave as
//! plans, which state all that is decided of a message; the transport writes
//! them out.
//!
//! - the model: [`wire`], [`call`], [`effects`], [`action`], [`model`], and what
//!   an event is read by in [`context`] and [`guards`]
//! - the parts of a call: [`lens`], [`state`], [`cursors`], [`books`], [`reliable`]
//! - the rule sets: [`defaults`], [`promote_pem`], [`refer_transfer`]
//! - what is advertised and routed: [`capabilities`], [`routes`], [`sdp`]
//! - the diagrams of the machines: [`docgen`], [`page`]
//! - what holds of every rule, and of every text that is read: [`conduct`],
//!   [`readings`]
//!
//! Each type has a mathematical value, its view, and each function says over
//! those values what it returns or changes. The public proof functions state
//! what holds of the whole.
pub mod action;
pub mod actions;
pub mod books;
pub mod call;
pub mod capabilities;
pub mod conduct;
pub mod context;
pub mod cursors;
pub mod defaults;
pub mod docgen;
pub mod effects;
pub mod executor;
pub mod guards;
pub mod handling;
pub mod headers;
pub mod ids;
pub mod invariants;
pub mod json;
pub mod lens;
pub mod model;
pub mod page;
pub mod promote_pem;
pub mod readings;
pub mod refer_transfer;
pub mod reliable;
pub mod routes;
pub mod sdp;
pub mod seqs;
pub mod sorted;
pub mod state;
pub mod text;
pub mod verbs;
pub mod wire;

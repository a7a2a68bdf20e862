//! Answering one request: the decisions, step by step. The server does
//! what a step names (sends a request on, opens a file, writes a response)
//! and comes back with what happened.

use crate::redir::{
    first_match, lemma_no_rule_applies, resolution_of, resolve, rule_tail, Action, ActionView,
    RequestUri, RequestUriView, Resolution, RuleView, Rules, ToView,
};
use crate::uri::{ParsedUri, UriView};
use http::uri::InvalidUri;
use vstd::prelude::*;

verus! {

/// The status of a response that carries a file.
pub const OK: u16 = 200;

/// The status sent when neither the file nor its fallback can be opened.
pub const NOT_FOUND: u16 = 404;

/// The status sent when a rule makes an address that is no URI.
pub const INTERNAL_SERVER_ERROR: u16 = 500;

/// The status sent when no rule applies to the request.
pub const BAD_GATEWAY: u16 = 502;

/// What is shared by all requests: the rules, which never change.
#[derive(Debug)]
pub struct State {
    rules: Rules,
}

impl State {
    /// The rules as a mathematical value.
    pub closed spec fn rules_view(&self) -> Seq<RuleView> {
        self.rules@
    }

    /// Keeps the rules for the requests to come.
    pub fn new(rules: Rules) -> (state: State)
        ensures
            state.rules_view() == rules@,
    {
        State { rules }
    }

    /// The rules.
    pub fn rules(&self) -> (rules: &Rules)
        ensures
            rules@ == self.rules_view(),
    {
        &self.rules
    }
}

/// A file that the server has been asked to open, and what to do when it
/// cannot be opened.
#[derive(Debug)]
pub enum Lookup {
    /// The file at `path` is being opened.
    Primary { path: String, fallback: Option<String> },
    /// The fallback at `path` is being opened, since the file at `primary`
    /// could not be.
    Fallback { path: String, primary: String },
}

/// A lookup as a mathematical value.
pub enum LookupView {
    Primary { path: Seq<char>, fallback: Option<Seq<char>> },
    Fallback { path: Seq<char>, primary: Seq<char> },
}

impl View for Lookup {
    type V = LookupView;

    open spec fn view(&self) -> LookupView {
        match self {
            Lookup::Primary { path, fallback } => LookupView::Primary {
                path: path@,
                fallback: fallback.deep_view(),
            },
            Lookup::Fallback { path, primary } => LookupView::Fallback {
                path: path@,
                primary: primary@,
            },
        }
    }
}

/// What the server does next for a request.
#[derive(Debug)]
pub enum Step {
    /// Send the request to this address, with its method, headers and body
    /// as they are, and answer with the response that comes back.
    Forward(ParsedUri),
    /// Open the file that the lookup names, and go on with `Lookup::opened`
    /// or `Lookup::failed`.
    Open(Lookup),
    /// Answer with `status` and the content of the file just opened, which
    /// is the one at `path`.
    Stream { status: u16, path: String },
    /// Answer with `status` and no body.
    Empty { status: u16 },
}

/// A step as a mathematical value.
pub enum StepView {
    Forward(UriView),
    Open(LookupView),
    Stream { status: u16, path: Seq<char> },
    Empty { status: u16 },
}

impl View for Step {
    type V = StepView;

    open spec fn view(&self) -> StepView {
        match self {
            Step::Forward(uri) => StepView::Forward(uri@),
            Step::Open(lookup) => StepView::Open(lookup@),
            Step::Stream { status, path } => StepView::Stream { status: *status, path: path@ },
            Step::Empty { status } => StepView::Empty { status: *status },
        }
    }
}

/// The file that a lookup asks to open.
pub open spec fn target(lookup: LookupView) -> Seq<char> {
    match lookup {
        LookupView::Primary { path, fallback } => path,
        LookupView::Fallback { path, primary } => path,
    }
}

/// The first step for a request, given what looking it up came to.
pub open spec fn first_step(resolution: Resolution) -> StepView {
    match resolution {
        Resolution::NoMatch => StepView::Empty { status: BAD_GATEWAY },
        Resolution::InvalidUri => StepView::Empty { status: INTERNAL_SERVER_ERROR },
        Resolution::Action(ActionView::Http(uri)) => StepView::Forward(uri),
        Resolution::Action(ActionView::File { path, fallback }) => StepView::Open(
            LookupView::Primary { path, fallback },
        ),
        Resolution::Action(ActionView::Status(code)) => StepView::Empty { status: code },
    }
}

/// The step after the file of `lookup` was opened.
pub open spec fn step_opened(lookup: LookupView) -> StepView {
    StepView::Stream { status: OK, path: target(lookup) }
}

/// The step after the file of `lookup` could not be opened: the fallback
/// is tried once, and only after the file itself.
pub open spec fn step_failed(lookup: LookupView) -> StepView {
    match lookup {
        LookupView::Primary { path, fallback: Some(fallback) } => StepView::Open(
            LookupView::Fallback { path: fallback, primary: path },
        ),
        LookupView::Primary { path, fallback: None } => StepView::Empty { status: NOT_FOUND },
        LookupView::Fallback { path, primary } => StepView::Empty { status: NOT_FOUND },
    }
}

/// The step that ends the request when it starts at `step` and `opens`
/// says which files can be opened.
pub open spec fn last_step(step: StepView, opens: spec_fn(Seq<char>) -> bool) -> StepView {
    match step {
        StepView::Open(lookup) => {
            let second = if opens(target(lookup)) {
                step_opened(lookup)
            } else {
                step_failed(lookup)
            };
            match second {
                StepView::Open(retry) => if opens(target(retry)) {
                    step_opened(retry)
                } else {
                    step_failed(retry)
                },
                _ => second,
            }
        },
        _ => step,
    }
}

/// How a request is answered under `rules`, where `opens` says which
/// files can be opened.
pub open spec fn response(
    rules: Seq<RuleView>,
    uri: RequestUriView,
    opens: spec_fn(Seq<char>) -> bool,
) -> StepView {
    last_step(first_step(resolve(rules, uri)), opens)
}

/// A request that no rule applies to is answered with 502 and no body.
pub proof fn lemma_no_match_is_bad_gateway(
    rules: Seq<RuleView>,
    uri: RequestUriView,
    opens: spec_fn(Seq<char>) -> bool,
)
    requires
        forall|k: int| 0 <= k < rules.len() ==> rule_tail(rules[k], uri) is None,
    ensures
        response(rules, uri, opens) == (StepView::Empty { status: 502 }),
{
    lemma_no_rule_applies(rules, uri);
}

/// A request whose rule names a status is answered with that status and
/// no body. Nothing of the request but its target is looked at, and no
/// file is opened.
pub proof fn lemma_status_rule_answers_status(
    rules: Seq<RuleView>,
    uri: RequestUriView,
    opens: spec_fn(Seq<char>) -> bool,
    index: int,
    code: u16,
)
    requires
        0 <= index < rules.len(),
        first_match(rules, uri, 0) == index,
        rules[index].1 == ToView::Status(code),
    ensures
        response(rules, uri, opens) == (StepView::Empty { status: code }),
{
}

/// A request whose rule names a file is answered with the file at the
/// rule's prefix and the rest of the path, where it can be opened; else with
/// the fallback, where there is one and it can be opened; else with 404 and
/// no body.
pub proof fn lemma_file_rule_answers(
    rules: Seq<RuleView>,
    uri: RequestUriView,
    opens: spec_fn(Seq<char>) -> bool,
    index: int,
    prefix: Seq<char>,
    fallback: Option<Seq<char>>,
)
    requires
        0 <= index < rules.len(),
        first_match(rules, uri, 0) == index,
        rules[index].1 == ToView::File(prefix, fallback),
    ensures
        response(rules, uri, opens) == ({
            let path = prefix + rule_tail(rules[index], uri)->0;
            if opens(path) {
                StepView::Stream { status: 200, path }
            } else if fallback is Some && opens(fallback->0) {
                StepView::Stream { status: 200, path: fallback->0 }
            } else {
                StepView::Empty { status: 404 }
            }
        }),
{
}

impl Lookup {
    /// The path of the file to open.
    pub fn target(&self) -> (path: &str)
        ensures
            path@ == target(self@),
    {
        match self {
            Lookup::Primary { path, fallback } => path.as_str(),
            Lookup::Fallback { path, primary } => path.as_str(),
        }
    }

    /// The step after the file was opened: its content is the response.
    pub fn opened(self) -> (step: Step)
        ensures
            step@ == step_opened(self@),
    {
        match self {
            Lookup::Primary { path, fallback } => Step::Stream { status: OK, path },
            Lookup::Fallback { path, primary } => Step::Stream { status: OK, path },
        }
    }

    /// The step after the file could not be opened, whatever the reason:
    /// the fallback is tried if it has not been, else the file is reported as
    /// not found.
    pub fn failed(self) -> (step: Step)
        ensures
            step@ == step_failed(self@),
    {
        match self {
            Lookup::Primary { path, fallback: Some(fallback) } => Step::Open(
                Lookup::Fallback { path: fallback, primary: path },
            ),
            Lookup::Primary { path, fallback: None } => Step::Empty { status: NOT_FOUND },
            Lookup::Fallback { path, primary } => Step::Empty { status: NOT_FOUND },
        }
    }
}

impl Step {
    /// The first step for a request, given what looking it up came to.
    pub fn first(matched: Option<Result<Action, InvalidUri>>) -> (step: Step)
        ensures
            step@ == first_step(resolution_of(matched)),
    {
        match matched {
            Some(Ok(Action::Http(uri))) => Step::Forward(uri),
            Some(Ok(Action::File { path, fallback })) => Step::Open(
                Lookup::Primary { path, fallback },
            ),
            Some(Ok(Action::Status(status))) => Step::Empty { status },
            Some(Err(_)) => Step::Empty { status: INTERNAL_SERVER_ERROR },
            None => Step::Empty { status: BAD_GATEWAY },
        }
    }
}

/// Decides what to do with a request: the first rule that applies to its
/// target decides.
pub fn respond_to_request(req: &RequestUri, state: &State) -> (step: Step)
    ensures
        step@ == first_step(resolve(state.rules_view(), req@)),
{
    Step::first(state.rules().try_match(req))
}

} // verus!

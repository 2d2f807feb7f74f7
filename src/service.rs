use vstd::prelude::*;
use vstd::utf8::{decode_utf8, valid_utf8};

use crate::text::same_text;

verus! {

/// The one method the service answers.
pub const POST: &'static str = "POST";

pub const ONLY_POST: &'static str = "Only POST";

pub const BAD_REQUEST: &'static str = "Bad request";

pub const INVALID_JSON: &'static str = "Invalid JSON";

/// The evaluator program and the arguments that come before the code.
pub const EVALUATOR: &'static str = "nix";

pub const EVAL_ARG: &'static str = "eval";

pub const RAW_ARG: &'static str = "--raw";

pub const EXPR_ARG: &'static str = "--expr";

pub const LAUNCH_FAILED: &'static str = "Failed to run nix: ";

/// Sent in place of a response that could not be encoded.
pub const FALLBACK_JSON: &'static str = "{\"error\":\"internal serialization error\"}";

pub const STDOUT_KEY: &'static str = "\"stdout\":";

pub const ERROR_KEY: &'static str = "\"error\":";

/// What a reader's widget asks to have evaluated.
pub struct EvalRequest {
    pub code: String,
}

/// The result of one evaluation: its output, or a message saying why it failed.
pub struct EvalResponse {
    pub stdout: Option<String>,
    pub error: Option<String>,
}

impl EvalResponse {
    /// Exactly one of the two fields is present.
    pub open spec fn well_formed(&self) -> bool {
        (self.stdout is Some) != (self.error is Some)
    }
}

/// How a run of the evaluator went.
pub enum EvalOutcome {
    /// The evaluator ran and exited, successfully or not, with what it printed.
    Exited { success: bool, stdout: Vec<u8>, stderr: Vec<u8> },
    /// The evaluator could not be started; `reason` says why.
    LaunchFailed { reason: String },
}

/// An HTTP reply: status, body, and whether the body is JSON.
pub struct Reply {
    pub status: u16,
    pub body: String,
    pub json: bool,
}

/// What happened since the service last decided.
pub enum Event {
    /// A request arrived with this method.
    Received { method: String },
    /// The request body was read, or could not be (`None`).
    BodyRead { body: Option<String> },
    /// The body was decoded as a request, or was not one (`None`).
    Parsed { request: Option<EvalRequest> },
    /// The evaluator was run.
    Evaluated { outcome: EvalOutcome },
}

/// What the service does next.
pub enum Action {
    ReadBody,
    ParseBody { body: String },
    RunEvaluator { program: String, args: Vec<String> },
    Respond { reply: Reply },
}

/// The text that `String::from_utf8_lossy` makes of some bytes.
pub uninterp spec fn utf8_lossy(b: Seq<u8>) -> Seq<char>;

pub open spec fn hex_digit(n: int) -> char {
    seq!['0', '1', '2', '3', '4', '5', '6', '7', '8', '9', 'a', 'b', 'c', 'd', 'e', 'f'][n]
}

/// How one char stands inside a JSON string: the quote, the backslash and the control
/// chars are escaped, the rest is kept.
pub open spec fn json_escape_char(c: char) -> Seq<char> {
    if c == '"' {
        seq!['\\', '"']
    } else if c == '\\' {
        seq!['\\', '\\']
    } else if c == '\u{8}' {
        seq!['\\', 'b']
    } else if c == '\t' {
        seq!['\\', 't']
    } else if c == '\n' {
        seq!['\\', 'n']
    } else if c == '\u{c}' {
        seq!['\\', 'f']
    } else if c == '\r' {
        seq!['\\', 'r']
    } else if (c as u32) < 0x20 {
        seq![
            '\\',
            'u',
            '0',
            '0',
            hex_digit((c as u32) as int / 16),
            hex_digit((c as u32) as int % 16),
        ]
    } else {
        seq![c]
    }
}

pub open spec fn json_escape(s: Seq<char>) -> Seq<char>
    decreases s.len(),
{
    if s.len() == 0 {
        seq![]
    } else {
        json_escape_char(s[0]) + json_escape(s.drop_first())
    }
}

/// The JSON string literal for a text.
pub open spec fn json_quoted(s: Seq<char>) -> Seq<char> {
    seq!['"'] + json_escape(s) + seq!['"']
}

/// Relies on String::from_utf8_lossy: valid UTF-8 is decoded as it stands, and the
/// result depends on the bytes alone.
#[verifier::external_body]
fn decode_lossy(b: &Vec<u8>) -> (r: String)
    ensures
        r@ == utf8_lossy(b@),
        valid_utf8(b@) ==> r@ == decode_utf8(b@),
{
    String::from_utf8_lossy(b.as_slice()).into_owned()
}

#[verifier::external_type_specification]
#[verifier::external_body]
pub struct ExJsonError(serde_json::Error);

/// Relies on serde_json::to_string on a `str`: a `str` is written through
/// `serialize_str` into a `Vec`, which cannot fail, as a quote, each char escaped by
/// serde_json's table (`\"`, `\\`, `\b \t \n \f \r`, other controls as `\u00xx`),
/// and a quote.
#[verifier::external_body]
fn quote_json(s: &str) -> (r: Result<String, serde_json::Error>)
    ensures
        r is Ok,
        r->Ok_0@ == json_quoted(s@),
{
    serde_json::to_string(s)
}

pub open spec fn view_opt(o: Option<String>) -> Option<Seq<char>> {
    match o {
        Some(s) => Some(s@),
        None => None,
    }
}

pub open spec fn quote_opt(o: Option<Seq<char>>) -> Option<Seq<char>> {
    match o {
        Some(s) => Some(json_quoted(s)),
        None => None,
    }
}

/// The output that an outcome reports, if it succeeded.
pub open spec fn outcome_stdout(o: EvalOutcome) -> Option<Seq<char>> {
    match o {
        EvalOutcome::Exited { success, stdout, stderr } => if success {
            Some(utf8_lossy(stdout@))
        } else {
            None
        },
        EvalOutcome::LaunchFailed { reason } => None,
    }
}

/// The error that an outcome reports, if it failed.
pub open spec fn outcome_error(o: EvalOutcome) -> Option<Seq<char>> {
    match o {
        EvalOutcome::Exited { success, stdout, stderr } => if success {
            None
        } else {
            Some(utf8_lossy(stderr@))
        },
        EvalOutcome::LaunchFailed { reason } => Some(LAUNCH_FAILED@ + reason@),
    }
}

/// A JSON object of the fields present, given as JSON literals, `stdout` first.
pub open spec fn json_object(stdout: Option<Seq<char>>, error: Option<Seq<char>>) -> Seq<char> {
    let first = match stdout {
        Some(q) => STDOUT_KEY@ + q,
        None => seq![],
    };
    let sep = if stdout is Some && error is Some {
        seq![',']
    } else {
        seq![]
    };
    let second = match error {
        Some(q) => ERROR_KEY@ + q,
        None => seq![],
    };
    seq!['{'] + first + sep + second + seq!['}']
}

/// The JSON for a response, given how each of its fields was encoded.
pub open spec fn response_json(stdout: Option<Seq<char>>, error: Option<Seq<char>>) -> Seq<char> {
    json_object(quote_opt(stdout), quote_opt(error))
}

/// The arguments that hand `code` to the evaluator as one expression.
pub open spec fn evaluator_args(code: Seq<char>) -> Seq<Seq<char>> {
    seq![EVAL_ARG@, RAW_ARG@, EXPR_ARG@, code]
}

/// Shapes the evaluator's outcome into a response: its output when it exited
/// successfully, else its diagnostics, or why it could not be started.
pub fn response_for(outcome: &EvalOutcome) -> (r: EvalResponse)
    ensures
        r.well_formed(),
        (*outcome matches EvalOutcome::Exited { success: true, .. }) ==> r.stdout is Some
            && r.error is None,
        !(*outcome matches EvalOutcome::Exited { success: true, .. }) ==> r.error is Some
            && r.stdout is None,
        view_opt(r.stdout) == outcome_stdout(*outcome),
        view_opt(r.error) == outcome_error(*outcome),
{
    match outcome {
        EvalOutcome::Exited { success, stdout, stderr } => {
            if *success {
                EvalResponse { stdout: Some(decode_lossy(stdout)), error: None }
            } else {
                EvalResponse { stdout: None, error: Some(decode_lossy(stderr)) }
            }
        },
        EvalOutcome::LaunchFailed { reason } => {
            let mut message = LAUNCH_FAILED.to_owned();
            message.append(reason.as_str());
            EvalResponse { stdout: None, error: Some(message) }
        },
    }
}

/// Builds a JSON object from fields already encoded as JSON literals.
pub fn json_object_of(stdout: Option<&str>, error: Option<&str>) -> (r: String)
    ensures
        r@ == json_object(
            match stdout {
                Some(q) => Some(q@),
                None => None,
            },
            match error {
                Some(q) => Some(q@),
                None => None,
            },
        ),
{
    proof {
        reveal_strlit("{");
        reveal_strlit("}");
        reveal_strlit(",");
    }
    let mut out = "{".to_owned();
    if let Some(q) = stdout {
        out.append(STDOUT_KEY);
        out.append(q);
    }
    if stdout.is_some() && error.is_some() {
        out.append(",");
    }
    if let Some(q) = error {
        out.append(ERROR_KEY);
        out.append(q);
    }
    out.append("}");
    let ghost so = match stdout {
        Some(q) => Some(q@),
        None => None::<Seq<char>>,
    };
    let ghost eo = match error {
        Some(q) => Some(q@),
        None => None::<Seq<char>>,
    };
    assert(out@ =~= json_object(so, eo));
    out
}

/// Encodes a response as a JSON object holding each present field as a JSON string.
/// Should the encoder ever report an error, the fixed fallback object is sent instead.
pub fn encode_response(resp: &EvalResponse) -> (r: String)
    ensures
        r@ == response_json(view_opt(resp.stdout), view_opt(resp.error)),
{
    let stdout = match &resp.stdout {
        Some(s) => match quote_json(s.as_str()) {
            Ok(q) => Some(q),
            Err(_) => {
                return FALLBACK_JSON.to_owned();
            },
        },
        None => None,
    };
    let error = match &resp.error {
        Some(s) => match quote_json(s.as_str()) {
            Ok(q) => Some(q),
            Err(_) => {
                return FALLBACK_JSON.to_owned();
            },
        },
        None => None,
    };
    let so = match &stdout {
        Some(q) => Some(q.as_str()),
        None => None,
    };
    let eo = match &error {
        Some(q) => Some(q.as_str()),
        None => None,
    };
    json_object_of(so, eo)
}

fn text_reply(status: u16, body: &str) -> (r: Reply)
    ensures
        r.status == status,
        r.body@ == body@,
        !r.json,
{
    Reply { status, body: body.to_owned(), json: false }
}

/// Decides what the service does after `event`: refuse a method other than POST
/// (405), refuse an unreadable body or one that is no request (400), run the
/// evaluator on the request's code, and answer every evaluation with 200 and JSON.
pub fn next_action(event: Event) -> (r: Action)
    ensures
        match event {
            Event::Received { method } => if method@ == POST@ {
                r is ReadBody
            } else {
                r matches Action::Respond { reply } && reply.status == 405 && reply.body@
                    == ONLY_POST@ && !reply.json
            },
            Event::BodyRead { body } => match body {
                Some(b) => r matches Action::ParseBody { body } && body@ == b@,
                None => r matches Action::Respond { reply } && reply.status == 400 && reply.body@
                    == BAD_REQUEST@ && !reply.json,
            },
            Event::Parsed { request } => match request {
                Some(req) => r matches Action::RunEvaluator { program, args } && program@
                    == EVALUATOR@ && args@.len() == 4 && (forall|i: int|
                    0 <= i < 4 ==> #[trigger] args@[i]@ == evaluator_args(req.code@)[i]),
                None => r matches Action::Respond { reply } && reply.status == 400 && reply.body@
                    == INVALID_JSON@ && !reply.json,
            },
            Event::Evaluated { outcome } => r matches Action::Respond { reply } && reply.status
                == 200 && reply.json && reply.body@ == response_json(
                outcome_stdout(outcome),
                outcome_error(outcome),
            ),
        },
{
    match event {
        Event::Received { method } => {
            if same_text(method.as_str(), POST) {
                Action::ReadBody
            } else {
                Action::Respond { reply: text_reply(405, ONLY_POST) }
            }
        },
        Event::BodyRead { body } => match body {
            Some(b) => Action::ParseBody { body: b },
            None => Action::Respond { reply: text_reply(400, BAD_REQUEST) },
        },
        Event::Parsed { request } => match request {
            Some(req) => {
                let mut args: Vec<String> = Vec::new();
                args.push(EVAL_ARG.to_owned());
                args.push(RAW_ARG.to_owned());
                args.push(EXPR_ARG.to_owned());
                args.push(req.code);
                Action::RunEvaluator { program: EVALUATOR.to_owned(), args }
            },
            None => Action::Respond { reply: text_reply(400, INVALID_JSON) },
        },
        Event::Evaluated { outcome } => {
            let resp = response_for(&outcome);
            let body = encode_response(&resp);
            Action::Respond { reply: Reply { status: 200, body, json: true } }
        },
    }
}

} // verus!

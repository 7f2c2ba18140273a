//! What a tool call comes to.

use vstd::prelude::*;

use crate::json::{members, no_members, put, Json, JsonValue};
use crate::memos::{result_view, ClientError, Fault, Outgoing, OutgoingView};
use crate::text::concat2;

verus! {

/// What a tool call gives its caller. A failure is shown to the user; it is not
/// an error of the protocol.
#[derive(Debug, PartialEq, Eq)]
pub enum ToolOutcome {
    Structured(Json),
    Failure(String),
}

/// The mathematical value of a [`ToolOutcome`].
pub ghost enum Outcome {
    Structured(JsonValue),
    Failure(Seq<char>),
}

impl View for ToolOutcome {
    type V = Outcome;

    open spec fn view(&self) -> Outcome {
        match self {
            ToolOutcome::Structured(j) => Outcome::Structured(j@),
            ToolOutcome::Failure(s) => Outcome::Failure(s@),
        }
    }
}

/// The words for a request that failed.
pub open spec fn api_failure(fault: Fault) -> Seq<char> {
    "memos api error: "@ + fault.message()
}

/// The words for a request that failed.
pub fn api_failure_text(e: &ClientError) -> (r: String)
    ensures
        r@ == api_failure(e@),
{
    concat2("memos api error: ", e.message().as_str())
}

/// The outcome of a call whose request failed.
pub fn api_fail(e: ClientError) -> (r: ToolOutcome)
    ensures
        r@ == Outcome::Failure(api_failure(e@)),
{
    ToolOutcome::Failure(api_failure_text(&e))
}

/// The outcome of a call that gives a value.
pub fn ok_json(v: Json) -> (r: ToolOutcome)
    ensures
        r@ == Outcome::Structured(v@),
{
    ToolOutcome::Structured(v)
}

/// The value that says only that a call was carried out.
pub open spec fn acknowledgement() -> JsonValue {
    JsonValue::Object(seq![("ok"@, JsonValue::Bool(true))])
}

/// The value that says only that a call was carried out.
pub fn acknowledge() -> (r: Json)
    ensures
        r@ == acknowledgement(),
{
    let mut entry = no_members();
    put(&mut entry, "ok", Json::Bool(true));
    assert(members(entry@) =~= seq![("ok"@, JsonValue::Bool(true))]);
    Json::object(entry)
}

/// What a tool answers once its request has succeeded.
#[derive(Debug, Clone, Copy, PartialEq, Eq, Structural)]
pub enum Answer {
    /// What the API gave.
    Value,
    /// An acknowledgement, whatever the API gave.
    Acknowledge,
    /// What the API gave, or an acknowledgement where that is null.
    ValueOrAcknowledge,
}

/// A tool call that is one request.
#[derive(Debug, PartialEq, Eq)]
pub struct Call {
    pub request: Outgoing,
    pub answer: Answer,
}

/// The mathematical value of a [`Call`].
pub ghost struct CallView {
    pub request: OutgoingView,
    pub answer: Answer,
}

impl View for Call {
    type V = CallView;

    open spec fn view(&self) -> CallView {
        CallView { request: self.request@, answer: self.answer }
    }
}

impl Answer {
    /// The outcome of a call with this answer, given what its request gave.
    pub open spec fn outcome(self, reply: Result<JsonValue, Fault>) -> Outcome {
        match reply {
            Err(fault) => Outcome::Failure(api_failure(fault)),
            Ok(value) => Outcome::Structured(
                match self {
                    Answer::Value => value,
                    Answer::Acknowledge => acknowledgement(),
                    Answer::ValueOrAcknowledge => if value == JsonValue::Null {
                        acknowledgement()
                    } else {
                        value
                    },
                },
            ),
        }
    }

    /// The outcome of a call with this answer, given what its request gave.
    pub fn finish(self, reply: Result<Json, ClientError>) -> (r: ToolOutcome)
        ensures
            r@ == self.outcome(result_view(reply)),
    {
        match reply {
            Err(e) => api_fail(e),
            Ok(v) => match self {
                Answer::Value => ok_json(v),
                Answer::Acknowledge => ok_json(acknowledge()),
                Answer::ValueOrAcknowledge => if v.is_null() {
                    ok_json(acknowledge())
                } else {
                    ok_json(v)
                },
            },
        }
    }
}

/// A call fails exactly where its request does, and then says so.
pub proof fn outcome_fails_exactly(answer: Answer, reply: Result<JsonValue, Fault>)
    ensures
        answer.outcome(reply) is Failure <==> reply is Err,
        reply matches Err(fault) ==> answer.outcome(reply) == Outcome::Failure(api_failure(fault)),
{
}

/// A call whose request succeeds gives the very value that the API gave, or an
/// acknowledgement, as its tool answers.
pub proof fn outcomes_give_the_value(value: JsonValue)
    ensures
        Answer::Value.outcome(Ok(value)) == Outcome::Structured(value),
        !(value is Null) ==> Answer::ValueOrAcknowledge.outcome(Ok(value)) == Outcome::Structured(
            value,
        ),
        Answer::ValueOrAcknowledge.outcome(Ok(JsonValue::Null)) == Answer::Acknowledge.outcome(
            Ok(value),
        ),
        Answer::Acknowledge.outcome(Ok(value)) matches Outcome::Structured(JsonValue::Object(
            members,
        )) && members.len() == 1 && members[0] == ("ok"@, JsonValue::Bool(true)),
{
}

/// A call whose request fails says so in words that end in those for the failure,
/// whatever the tool answers otherwise.
pub proof fn failures_are_told(answer: Answer, fault: Fault)
    ensures
        answer.outcome(Err(fault)) == Outcome::Failure("memos api error: "@ + fault.message()),
{
}

} // verus!

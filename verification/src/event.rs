//! Decoding of the repository-event payload and the policy that decides,
//! from the decoded fields, whether the run proceeds, stops quietly, or
//! fails.

use vstd::prelude::*;
use crate::PipelineError;
use crate::text::str_eq;

verus! {

/// The fields of the event payload that the pipeline reads. Each field is
/// `None` where the payload lacks it (or holds a value of another type).
pub struct EventContext {
    pub event_name: Option<String>,
    pub action: Option<String>,
    pub issue_locked: Option<bool>,
    pub issue_state: Option<String>,
    pub issue_body: Option<String>,
    pub comment_body: Option<String>,
    pub issue_id: Option<u64>,
}

/// The fields that `parse_payload` reads out of a given payload text, or
/// `None` where the text is not a structured payload at all.
pub uninterp spec fn parsed_payload(raw: Seq<char>) -> Option<EventContext>;

/// Relies on json::parse and the JsonValue accessors `as_str`, `as_bool`
/// and `as_u64`: the decoded fields depend on the payload text alone;
/// indexing an absent member yields the null value, on which every
/// accessor answers `None`.
#[verifier::external_body]
fn parse_payload(raw: &str) -> (r: Option<EventContext>)
    ensures
        r == parsed_payload(raw@),
{
    let c = match json::parse(raw) {
        Ok(c) => c,
        Err(_) => return None,
    };
    Some(EventContext {
        event_name: c["event_name"].as_str().map(|s| s.to_string()),
        action: c["event"]["action"].as_str().map(|s| s.to_string()),
        issue_locked: c["event"]["issue"]["locked"].as_bool(),
        issue_state: c["event"]["issue"]["state"].as_str().map(|s| s.to_string()),
        issue_body: c["event"]["issue"]["body"].as_str().map(|s| s.to_string()),
        comment_body: c["event"]["comment"]["body"].as_str().map(|s| s.to_string()),
        issue_id: c["event"]["issue"]["id"].as_u64(),
    })
}

/// What one event asks of the pipeline.
pub enum EventDecision {
    /// The issue is locked or no longer open: end the run successfully,
    /// with no output.
    Skip,
    /// Work through `body`, publishing under a branch named after
    /// `issue_id`.
    Proceed { body: String, issue_id: u64 },
}

/// Whether the action routes the run to the comment body rather than the
/// issue body: comment creation always does, and so does an edit when the
/// event as a whole is a comment event.
pub open spec fn spec_uses_comment_body(ctx: EventContext, action: Seq<char>) -> bool {
    action == "created"@ || (action == "edited"@ && match ctx.event_name {
        Some(n) => n@ == "issue_comment"@,
        None => false,
    })
}

/// The text body the run must read, given the action; `None` where the
/// action is not one this pipeline handles.
pub open spec fn spec_resolved_body(ctx: EventContext, action: Seq<char>) -> Option<
    Option<String>,
> {
    if spec_uses_comment_body(ctx, action) {
        Some(ctx.comment_body)
    } else if action == "opened"@ || action == "edited"@ {
        Some(ctx.issue_body)
    } else {
        None
    }
}

/// Decide what the decoded event asks for.
///
/// A locked or non-open issue ends the run quietly, before anything else
/// is looked at. Then the action picks the body to read; an action this
/// pipeline does not know is fatal, as is a missing body or a payload too
/// bare to carry the fields every event has.
pub fn resolve_event(ctx: &EventContext) -> (r: Result<EventDecision, PipelineError>)
    ensures
        match r {
            Ok(EventDecision::Skip) => ctx.issue_locked == Some(true) || (
            ctx.issue_locked == Some(false) && match ctx.issue_state {
                Some(s) => s@ != "open"@,
                None => true,
            }),
            Ok(EventDecision::Proceed { body, issue_id }) => {
                &&& ctx.issue_locked == Some(false)
                &&& ctx.issue_state matches Some(s) && s@ == "open"@
                &&& ctx.action matches Some(a) && (spec_resolved_body(*ctx, a@) matches Some(
                    Some(b),
                ) && b@ == body@)
                &&& ctx.issue_id == Some(issue_id)
            },
            Err(PipelineError::MalformedPayload) => {
                ||| ctx.issue_locked is None
                ||| (ctx.issue_locked == Some(false) && (ctx.issue_state matches Some(s)
                    && s@ == "open"@) && ctx.action is None)
                ||| (ctx.issue_locked == Some(false) && (ctx.issue_state matches Some(s)
                    && s@ == "open"@) && (ctx.action matches Some(a)
                    && spec_resolved_body(*ctx, a@) matches Some(Some(_)))
                    && ctx.issue_id is None)
            },
            Err(PipelineError::UnhandledEvent { event_name, action }) => {
                &&& ctx.issue_locked == Some(false)
                &&& ctx.issue_state matches Some(s) && s@ == "open"@
                &&& ctx.action matches Some(a) && a@ == action@
                &&& spec_resolved_body(*ctx, action@) is None
                &&& match (event_name, ctx.event_name) {
                    (Some(e), Some(n)) => e@ == n@,
                    (None, None) => true,
                    _ => false,
                }
            },
            Err(PipelineError::MissingContent) => {
                &&& ctx.issue_locked == Some(false)
                &&& ctx.issue_state matches Some(s) && s@ == "open"@
                &&& ctx.action matches Some(a) && spec_resolved_body(*ctx, a@) == Some(
                    None::<String>,
                )
            },
            Err(_) => false,
        },
{
    let locked = match &ctx.issue_locked {
        Some(l) => *l,
        None => {
            return Err(PipelineError::MalformedPayload);
        },
    };
    if locked {
        return Ok(EventDecision::Skip);
    }
    let state_open = match &ctx.issue_state {
        Some(s) => str_eq(s.as_str(), "open"),
        None => false,
    };
    if !state_open {
        return Ok(EventDecision::Skip);
    }
    let action = match &ctx.action {
        Some(a) => a,
        None => {
            return Err(PipelineError::MalformedPayload);
        },
    };
    let uses_comment = str_eq(action.as_str(), "created") || (str_eq(action.as_str(), "edited")
        && match &ctx.event_name {
        Some(n) => str_eq(n.as_str(), "issue_comment"),
        None => false,
    });
    let body = if uses_comment {
        &ctx.comment_body
    } else if str_eq(action.as_str(), "opened") || str_eq(action.as_str(), "edited") {
        &ctx.issue_body
    } else {
        let event_name = match &ctx.event_name {
            Some(n) => Some(n.clone()),
            None => None,
        };
        return Err(PipelineError::UnhandledEvent { event_name, action: action.clone() });
    };
    let body = match body {
        Some(b) => b.clone(),
        None => {
            return Err(PipelineError::MissingContent);
        },
    };
    match &ctx.issue_id {
        Some(id) => Ok(EventDecision::Proceed { body, issue_id: *id }),
        None => Err(PipelineError::MalformedPayload),
    }
}

/// Decode a raw payload text into the fields the pipeline reads.
pub fn decode_payload(raw: &str) -> (r: Result<EventContext, PipelineError>)
    ensures
        match r {
            Ok(ctx) => parsed_payload(raw@) == Some(ctx),
            Err(PipelineError::MalformedPayload) => parsed_payload(raw@) is None,
            Err(_) => false,
        },
{
    match parse_payload(raw) {
        Some(c) => Ok(c),
        None => Err(PipelineError::MalformedPayload),
    }
}

} // verus!

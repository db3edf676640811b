//! The decisions taken for each incoming command: who may schedule, what
//! interval is asked for, and what is answered once the calendar service
//! has replied.
use crate::auth::AllowList;
use crate::event::{
    get_meet_link, is_ascii_alphanumeric, make_meet_event, meet_conference_type, meet_link,
    CreatedEvent, EventRequest, TOKEN_LEN,
};
use crate::time::{next_day, parse_time_to_utc, resolution, valid_date, LocalDateTime, TimeParseError};
use vstd::prelude::*;

verus! {

/// A command sent to the bot.
pub enum MeetCommand {
    Help,
    /// Summary, time text and optional duration text.
    Meet(String, String, Option<String>),
}

/// What to do about a command before the calendar service is called.
pub enum Plan {
    ShowHelp,
    /// The caller may not schedule events.
    Reject,
    /// The time text or duration did not resolve.
    ReportTimeError(TimeParseError),
    /// Ask the calendar service to create this event.
    Create(EventRequest),
}

pub open spec fn opt_string_view(s: Option<String>) -> Option<Seq<char>> {
    match s {
        Some(t) => Some(t@),
        None => None,
    }
}

pub open spec fn authorized(caller: Option<u64>, allowed: Set<u64>) -> bool {
    caller matches Some(id) && allowed.contains(id)
}

/// Decides what a command asks for. Help is always shown; a meeting is
/// rejected unless the caller is listed, whatever the command holds; then
/// its time text is resolved against `now`, and the event request built.
pub fn plan_command(
    cmd: MeetCommand,
    caller: Option<u64>,
    allowed: &AllowList,
    now: LocalDateTime,
) -> (r: Plan)
    requires
        now.wf(),
        valid_date(next_day(now.date)),
    ensures
        cmd is Help ==> r is ShowHelp,
        cmd is Meet ==> ((r is Reject) <==> !authorized(caller, allowed@)),
        cmd matches MeetCommand::Meet(summary, time, duration) ==> {
            let span = resolution(time@, opt_string_view(duration), now);
            &&& (r is ReportTimeError) <==> authorized(caller, allowed@) && span is None
            &&& (r is Create) <==> authorized(caller, allowed@) && span is Some
            &&& r matches Plan::Create(req) ==> {
                &&& req.summary@ == summary@
                &&& span == Some((req.start as int, req.end as int))
                &&& req.time_zone is None
                &&& req.conference_type@ == meet_conference_type()
                &&& req.request_id@.len() == TOKEN_LEN
                &&& forall|i: int|
                    0 <= i < TOKEN_LEN ==> is_ascii_alphanumeric(#[trigger] req.request_id@[i])
            }
        },
{
    match cmd {
        MeetCommand::Help => Plan::ShowHelp,
        MeetCommand::Meet(summary, time, duration) => {
            let ok = match caller {
                Some(id) => allowed.is_admin(id),
                None => false,
            };
            if !ok {
                return Plan::Reject;
            }
            let d = match &duration {
                Some(t) => Some(t.as_str()),
                None => None,
            };
            match parse_time_to_utc(time.as_str(), d, now) {
                Ok((start, end)) => Plan::Create(make_meet_event(summary.as_str(), start, end, None)),
                Err(e) => Plan::ReportTimeError(e),
            }
        },
    }
}

/// What the calendar service answered to a creation request.
pub enum RemoteOutcome {
    /// The call itself failed; the error as text.
    CallFailed(String),
    /// The service answered with this HTTP status and event.
    Answered(u16, CreatedEvent),
}

/// How a scheduling attempt ends.
pub enum Outcome {
    /// The event was created with this meeting link.
    Linked(String),
    /// Creation failed; the text to report.
    Failed(String),
    /// The service reported success but no meeting link came with it.
    NoLink,
}

pub open spec fn is_success_status(status: u16) -> bool {
    200 <= status <= 299
}

pub open spec fn request_error_text() -> Seq<char> {
    "request error"@
}

/// Decides how an attempt ends from what the calendar service answered.
pub fn conclude(outcome: &RemoteOutcome) -> (r: Outcome)
    ensures
        *outcome matches RemoteOutcome::CallFailed(e) ==> r matches Outcome::Failed(t) && t@ == e@,
        *outcome matches RemoteOutcome::Answered(status, event) ==> {
            if !is_success_status(status) {
                r matches Outcome::Failed(t) && t@ == request_error_text()
            } else if meet_link(&event) is Some {
                r matches Outcome::Linked(l) && l@ == meet_link(&event)->0
            } else {
                r is NoLink
            }
        },
{
    match outcome {
        RemoteOutcome::CallFailed(e) => Outcome::Failed(e.clone()),
        RemoteOutcome::Answered(status, event) => {
            if !(200 <= *status && *status <= 299) {
                Outcome::Failed("request error".to_owned())
            } else {
                match get_meet_link(event) {
                    Some(l) => Outcome::Linked(l.to_owned()),
                    None => Outcome::NoLink,
                }
            }
        },
    }
}

} // verus!

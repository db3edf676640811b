//! Event-creation requests with a fresh idempotency token, and reading the
//! meeting link out of a created event.
use rand::distributions::Distribution;
use vstd::prelude::*;

verus! {

/// Length of the idempotency token of each request.
pub const TOKEN_LEN: usize = 32;

pub open spec fn is_ascii_alphanumeric(c: char) -> bool {
    ('A' <= c <= 'Z') || ('a' <= c <= 'z') || ('0' <= c <= '9')
}

/// Relies on rand's `Alphanumeric` distribution, sampled with
/// `thread_rng`: each sample is one of `A-Z`, `a-z`, `0-9`.
#[verifier::external_body]
fn random_alphanumeric() -> (c: char)
    ensures
        is_ascii_alphanumeric(c),
{
    char::from(rand::distributions::Alphanumeric.sample(&mut rand::thread_rng()))
}

/// Relies on `String::push`: appends one character.
#[verifier::external_body]
fn push_char(s: &mut String, c: char)
    ensures
        final(s)@ == old(s)@.push(c),
{
    s.push(c)
}

/// A fresh random string of `len` ASCII letters and digits.
pub fn unique_id(len: usize) -> (r: String)
    ensures
        r@.len() == len,
        forall|i: int| 0 <= i < len ==> is_ascii_alphanumeric(#[trigger] r@[i]),
{
    let mut r = String::new();
    let mut i: usize = 0;
    while i < len
        invariant
            i <= len,
            r@.len() == i,
            forall|j: int| 0 <= j < i ==> is_ascii_alphanumeric(#[trigger] r@[j]),
        decreases len - i,
    {
        let c = random_alphanumeric();
        push_char(&mut r, c);
        i = i + 1;
    }
    r
}

/// A request to create a calendar event with a video meeting attached.
/// Instants are nanoseconds since the Unix epoch, UTC.
pub struct EventRequest {
    pub summary: String,
    pub start: i128,
    pub end: i128,
    pub time_zone: Option<String>,
    /// The kind of meeting the calendar service is asked to attach.
    pub conference_type: String,
    /// Token by which the service recognises resubmissions of this request.
    pub request_id: String,
}

/// The kind of meeting every request asks for.
pub open spec fn meet_conference_type() -> Seq<char> {
    "hangoutsMeet"@
}

/// Builds the request for an event from `start_time` to `end_time`, with a
/// fresh idempotency token.
pub fn make_meet_event(
    summary: &str,
    start_time: i128,
    end_time: i128,
    timezone: Option<&str>,
) -> (r: EventRequest)
    ensures
        r.summary@ == summary@,
        r.start == start_time,
        r.end == end_time,
        r.time_zone is Some <==> timezone is Some,
        r.time_zone matches Some(z) ==> z@ == timezone->0@,
        r.conference_type@ == meet_conference_type(),
        r.request_id@.len() == TOKEN_LEN,
        forall|i: int| 0 <= i < TOKEN_LEN ==> is_ascii_alphanumeric(#[trigger] r.request_id@[i]),
{
    let time_zone = match timezone {
        Some(z) => Some(z.to_owned()),
        None => None,
    };
    EventRequest {
        summary: summary.to_owned(),
        start: start_time,
        end: end_time,
        time_zone,
        conference_type: "hangoutsMeet".to_owned(),
        request_id: unique_id(TOKEN_LEN),
    }
}

/// One conference entry point of a created event.
pub struct EntryPoint {
    pub uri: Option<String>,
}

/// What the calendar service returned for a created event, as far as the
/// meeting link goes.
pub struct CreatedEvent {
    pub entry_points: Option<Vec<EntryPoint>>,
}

/// The URI of the first entry point, if there is one and it has a URI.
pub open spec fn meet_link(e: &CreatedEvent) -> Option<Seq<char>> {
    match e.entry_points {
        Some(v) => if v@.len() > 0 {
            match v@[0].uri {
                Some(u) => Some(u@),
                None => None,
            }
        } else {
            None
        },
        None => None,
    }
}

/// The meeting link of a created event: the URI of its first entry point.
pub fn get_meet_link(event: &CreatedEvent) -> (r: Option<&str>)
    ensures
        r is Some <==> meet_link(event) is Some,
        r matches Some(l) ==> l@ == meet_link(event)->0,
{
    match &event.entry_points {
        Some(v) => {
            if v.len() > 0 {
                match &v[0].uri {
                    Some(u) => Some(u.as_str()),
                    None => None,
                }
            } else {
                None
            }
        },
        None => None,
    }
}

} // verus!

//! One exchange with the service, as a machine that the caller drives.
//!
//! The machine never sleeps or sends itself. It says what is to be done
//! next (an [`Action`]), the caller does it and reports what came of it (an
//! [`Event`]). An exchange sleeps first, sends once, and sleeps again before
//! it reports that the service asked for fewer requests.

use vstd::prelude::*;
use vstd::string::*;
use crate::error::{ErrorView, GlobleError};
use crate::json::{member_or_null, parsed, unreadable, Json, JsonView};
use crate::text::join4;
use crate::wire::opt_text_view;

verus! {

/// How long an exchange sleeps before it sends, in milliseconds.
pub const PACING_MILLIS: u64 = 1000;

/// How long an exchange sleeps after a 429 before it reports it, in
/// milliseconds.
pub const COOLDOWN_MILLIS: u64 = 3000;

/// The verb of a request.
#[derive(Clone, Copy, Debug, PartialEq, Eq, Structural)]
pub enum Method {
    Get,
    Post,
    Put,
    Delete,
}

/// A request as it goes out: the full address, the two headers, and the
/// body as JSON text.
#[derive(Debug, PartialEq)]
pub struct Outgoing {
    pub method: Method,
    pub url: String,
    pub authorization: String,
    pub language: String,
    pub body: Option<String>,
}

/// What an [`Outgoing`] holds.
pub struct OutgoingView {
    pub method: Method,
    pub url: Seq<char>,
    pub authorization: Seq<char>,
    pub language: Seq<char>,
    pub body: Option<Seq<char>>,
}

impl View for Outgoing {
    type V = OutgoingView;

    open spec fn view(&self) -> OutgoingView {
        OutgoingView {
            method: self.method,
            url: self.url@,
            authorization: self.authorization@,
            language: self.language@,
            body: opt_text_view(self.body),
        }
    }
}

/// The views of a sequence of headers: name and value.
pub open spec fn header_views(headers: Seq<(String, String)>) -> Seq<(Seq<char>, Seq<char>)> {
    Seq::new(headers.len(), |i: int| (headers[i].0@, headers[i].1@))
}

/// An answer of the service as it was read: status, headers with their
/// names in lower case, and the body as text.
#[derive(Debug, PartialEq)]
pub struct Response {
    pub status: u16,
    pub headers: Vec<(String, String)>,
    pub body: String,
}

/// What the caller reports.
#[derive(Debug, PartialEq)]
pub enum Event {
    /// The sleep that was asked for is over.
    Slept,
    /// The request got no answer; the text says why.
    Failed(String),
    /// The service answered.
    Answered(Response),
}

/// The outcome of an exchange that went well: the part of the payload that
/// was asked for, and the headers of the answer.
#[derive(Debug, PartialEq)]
pub struct Reply {
    pub payload: Json,
    pub headers: Vec<(String, String)>,
}

/// What the caller is to do next.
#[derive(Debug, PartialEq)]
pub enum Action {
    /// Sleep for so many milliseconds, then report [`Event::Slept`].
    Sleep(u64),
    /// Send this, then report [`Event::Answered`] or [`Event::Failed`].
    Send(Outgoing),
    /// The exchange is over, with this outcome.
    Finish(Result<Reply, GlobleError>),
}

/// Where an exchange stands.
#[derive(Clone, Copy, Debug, PartialEq, Eq, Structural)]
pub enum Phase {
    /// Sleeping before the request goes out.
    Pacing,
    /// The request is out.
    Sending,
    /// Sleeping after a 429.
    Cooling,
    /// Over.
    Done,
}

/// An event, reduced to what decides the course of an exchange.
pub enum Signal {
    Slept,
    Failed,
    Answered { status: u16, readable: bool },
}

/// How an exchange ends.
pub enum Verdict {
    /// With the payload.
    Payload,
    /// The request got no answer.
    Transport,
    /// The service answered 429.
    RateLimited,
    /// The service answered with another status than 200.
    Status,
    /// The body of the answer is no JSON.
    Unreadable,
    /// The caller reported what the exchange was not waiting for.
    OutOfTurn,
}

/// An action, reduced to its kind.
pub enum Move {
    Sleep(u64),
    Send,
    Finish(Verdict),
}

/// The course of an exchange: where it goes from a phase on a signal, and
/// what it asks for.
pub open spec fn transition(phase: Phase, signal: Signal) -> (Phase, Move) {
    match (phase, signal) {
        (Phase::Pacing, Signal::Slept) => (Phase::Sending, Move::Send),
        (Phase::Sending, Signal::Failed) => (Phase::Done, Move::Finish(Verdict::Transport)),
        (Phase::Sending, Signal::Answered { status, readable }) => if status == 429 {
            (Phase::Cooling, Move::Sleep(COOLDOWN_MILLIS))
        } else if status != 200 {
            (Phase::Done, Move::Finish(Verdict::Status))
        } else if readable {
            (Phase::Done, Move::Finish(Verdict::Payload))
        } else {
            (Phase::Done, Move::Finish(Verdict::Unreadable))
        },
        (Phase::Cooling, Signal::Slept) => (Phase::Done, Move::Finish(Verdict::RateLimited)),
        _ => (Phase::Done, Move::Finish(Verdict::OutOfTurn)),
    }
}

/// The moves that an exchange in `phase` makes on a sequence of signals.
pub open spec fn run(phase: Phase, signals: Seq<Signal>) -> Seq<Move>
    decreases signals.len(),
{
    if signals.len() == 0 {
        Seq::empty()
    } else {
        seq![transition(phase, signals[0]).1] + run(transition(phase, signals[0]).0, signals.drop_first())
    }
}

/// All moves of an exchange: the sleep it starts with, then its moves on
/// the signals.
pub open spec fn course(signals: Seq<Signal>) -> Seq<Move> {
    seq![Move::Sleep(PACING_MILLIS)] + run(Phase::Pacing, signals)
}

proof fn lemma_run(phase: Phase, signals: Seq<Signal>)
    ensures
        run(phase, signals).len() == signals.len(),
        forall|i: int|
            0 <= i < signals.len() && (#[trigger] run(phase, signals)[i]) is Send ==> phase == Phase::Pacing
                && i == 0,
        forall|i: int|
            0 <= i < signals.len() && (#[trigger] run(phase, signals)[i]) == Move::Finish(
                Verdict::RateLimited,
            ) ==> (i == 0 && phase == Phase::Cooling) || (i >= 1 && run(phase, signals)[i - 1] == Move::Sleep(
                COOLDOWN_MILLIS,
            )),
    decreases signals.len(),
{
    if signals.len() > 0 {
        let next = transition(phase, signals[0]).0;
        let rest = signals.drop_first();
        lemma_run(next, rest);
        let all = run(phase, signals);
        assert forall|i: int| 0 <= i < signals.len() && (#[trigger] all[i]) is Send implies phase
            == Phase::Pacing && i == 0 by {
            if i > 0 {
                assert(all[i] == run(next, rest)[i - 1]);
            }
        }
        assert forall|i: int|
            0 <= i < signals.len() && (#[trigger] all[i]) == Move::Finish(Verdict::RateLimited) implies (i
                == 0 && phase == Phase::Cooling) || (i >= 1 && all[i - 1] == Move::Sleep(
            COOLDOWN_MILLIS,
        )) by {
            if i > 0 {
                assert(all[i] == run(next, rest)[i - 1]);
                if i > 1 {
                    assert(all[i - 1] == run(next, rest)[i - 2]);
                }
            }
        }
    }
}

/// Whatever the caller reports, an exchange begins with the pacing sleep of
/// at least a second, sends at most once and only right after that sleep,
/// and reports a 429 only right after the cooldown sleep of at least three
/// seconds.
pub proof fn lemma_pacing(signals: Seq<Signal>)
    ensures
        PACING_MILLIS >= 1000,
        COOLDOWN_MILLIS >= 3000,
        course(signals).len() == signals.len() + 1,
        course(signals)[0] == Move::Sleep(PACING_MILLIS),
        forall|i: int| 0 <= i < course(signals).len() && (#[trigger] course(signals)[i]) is Send ==> i == 1,
        forall|i: int|
            0 <= i < course(signals).len() && (#[trigger] course(signals)[i]) == Move::Finish(
                Verdict::RateLimited,
            ) ==> i >= 1 && course(signals)[i - 1] == Move::Sleep(COOLDOWN_MILLIS),
{
    lemma_run(Phase::Pacing, signals);
    let all = course(signals);
    let tail = run(Phase::Pacing, signals);
    assert forall|i: int| 0 <= i < all.len() && (#[trigger] all[i]) is Send implies i == 1 by {
        if i > 0 {
            assert(all[i] == tail[i - 1]);
        }
    }
    assert forall|i: int|
        0 <= i < all.len() && (#[trigger] all[i]) == Move::Finish(Verdict::RateLimited) implies i >= 1
            && all[i - 1] == Move::Sleep(COOLDOWN_MILLIS) by {
        if i > 0 {
            assert(all[i] == tail[i - 1]);
            if i > 1 {
                assert(all[i - 1] == tail[i - 2]);
            }
        }
    }
}

/// What decides the course, of an event.
pub open spec fn signal_of(event: Event) -> Signal {
    match event {
        Event::Slept => Signal::Slept,
        Event::Failed(_) => Signal::Failed,
        Event::Answered(response) => Signal::Answered {
            status: response.status,
            readable: parsed(response.body@) is Some,
        },
    }
}

/// The verdict that an error stands for.
pub open spec fn verdict_of(e: ErrorView) -> Verdict {
    match e {
        ErrorView::ReqwestError(_) => Verdict::Transport,
        ErrorView::TooManyRequests(_) => Verdict::RateLimited,
        ErrorView::HttpError(_, _, _) => Verdict::Status,
        ErrorView::SerdeError(_, _, _) => Verdict::Unreadable,
        _ => Verdict::OutOfTurn,
    }
}

/// The kind of an action.
pub open spec fn move_of(action: Action) -> Move {
    match action {
        Action::Sleep(millis) => Move::Sleep(millis),
        Action::Send(_) => Move::Send,
        Action::Finish(Ok(_)) => Move::Finish(Verdict::Payload),
        Action::Finish(Err(e)) => Move::Finish(verdict_of(e@)),
    }
}

/// The part of an answer that an operation asked for: the member `payload`
/// of the body, or the member of that under the key. What is not there is
/// null.
pub open spec fn payload_of(body: JsonView, key: Option<Seq<char>>) -> JsonView {
    match key {
        None => member_or_null(body, "payload"@),
        Some(k) => member_or_null(member_or_null(body, "payload"@), k),
    }
}

/// The description of a request that an `HttpError` carries: the address
/// and the body, `{}` standing for no body.
pub open spec fn request_context(outgoing: OutgoingView) -> Seq<char> {
    "URL: "@ + outgoing.url + ", Body: "@ + (match outgoing.body {
        Some(text) => text,
        None => "{}"@,
    })
}

/// One exchange with the service.
#[derive(Debug, PartialEq)]
pub struct Exchange {
    phase: Phase,
    outgoing: Outgoing,
    payload_key: Option<String>,
}

impl Exchange {
    /// Where the exchange stands.
    pub closed spec fn phase(&self) -> Phase {
        self.phase
    }

    /// The request of the exchange.
    pub closed spec fn outgoing(&self) -> OutgoingView {
        self.outgoing@
    }

    /// The member of the payload that the exchange is to hand out.
    pub closed spec fn payload_key(&self) -> Option<Seq<char>> {
        opt_text_view(self.payload_key)
    }

    /// Begins an exchange: it is in [`Phase::Pacing`], and the caller is to
    /// sleep for the pacing interval.
    pub fn begin(outgoing: Outgoing, payload_key: Option<String>) -> (r: (Exchange, Action))
        ensures
            r.0.phase() == Phase::Pacing,
            r.0.outgoing() == outgoing@,
            r.0.payload_key() == opt_text_view(payload_key),
            r.1 == Action::Sleep(PACING_MILLIS),
    {
        (Exchange { phase: Phase::Pacing, outgoing, payload_key }, Action::Sleep(PACING_MILLIS))
    }

    /// Whether the exchange is over.
    pub fn is_done(&self) -> (r: bool)
        ensures
            r == (self.phase() == Phase::Done),
    {
        match self.phase {
            Phase::Done => true,
            _ => false,
        }
    }

    /// Takes what the caller reports and says what is to be done next.
    ///
    /// The course is that of [`transition`]. After the pacing sleep the
    /// request goes out as it was made. An answer is classified in this
    /// order: no answer at all is a `ReqwestError` with the cause; status
    /// 429 asks for the cooldown sleep, after which the exchange ends with
    /// `TooManyRequests`; any other status than 200 ends it with
    /// `HttpError`, which holds the status, the request and the body; with
    /// status 200 a body that is no JSON ends it with `SerdeError`, which
    /// holds the body and the place of the fault, and any other body ends
    /// it with the payload asked for and the headers. An event that the
    /// exchange was not waiting for ends it with `OtherError`.
    pub fn step(self, event: Event) -> (r: (Exchange, Action))
        ensures
            (r.0.phase(), move_of(r.1)) == transition(self.phase(), signal_of(event)),
            r.0.outgoing() == self.outgoing(),
            r.0.payload_key() == self.payload_key(),
            r.1 matches Action::Send(outgoing) ==> outgoing@ == self.outgoing(),
            r.1 matches Action::Finish(Ok(reply)) ==> event matches Event::Answered(response) && reply.payload@
                == payload_of(parsed(response.body@).unwrap(), self.payload_key()) && header_views(
                reply.headers@,
            ) == header_views(response.headers@),
            r.1 matches Action::Finish(Err(e)) ==> match transition(self.phase(), signal_of(event)).1 {
                Move::Finish(Verdict::Transport) => event matches Event::Failed(cause) && e@
                    == ErrorView::ReqwestError(cause@),
                Move::Finish(Verdict::RateLimited) => e@ == ErrorView::TooManyRequests("Too Many Requests"@),
                Move::Finish(Verdict::Status) => event matches Event::Answered(response) && e@
                    == ErrorView::HttpError(response.status, request_context(self.outgoing()), response.body@),
                Move::Finish(Verdict::Unreadable) => event matches Event::Answered(response) && e@
                    == unreadable(response.body@),
                _ => e@ == ErrorView::OtherError("the exchange was not waiting for this event"@),
            },
    {
        let Exchange { phase, outgoing, payload_key } = self;
        match (phase, event) {
            (Phase::Pacing, Event::Slept) => {
                let copy = Outgoing {
                    method: outgoing.method,
                    url: outgoing.url.clone(),
                    authorization: outgoing.authorization.clone(),
                    language: outgoing.language.clone(),
                    body: match &outgoing.body {
                        Some(text) => Some(text.clone()),
                        None => None,
                    },
                };
                (Exchange { phase: Phase::Sending, outgoing, payload_key }, Action::Send(copy))
            },
            (Phase::Sending, Event::Failed(cause)) => {
                (
                    Exchange { phase: Phase::Done, outgoing, payload_key },
                    Action::Finish(Err(GlobleError::ReqwestError(cause))),
                )
            },
            (Phase::Sending, Event::Answered(response)) => {
                if response.status == 429 {
                    (Exchange { phase: Phase::Cooling, outgoing, payload_key }, Action::Sleep(COOLDOWN_MILLIS))
                } else if response.status != 200 {
                    let context = match &outgoing.body {
                        Some(text) => join4("URL: ", outgoing.url.as_str(), ", Body: ", text.as_str()),
                        None => join4("URL: ", outgoing.url.as_str(), ", Body: ", "{}"),
                    };
                    let e = GlobleError::HttpError(response.status, context, response.body);
                    (Exchange { phase: Phase::Done, outgoing, payload_key }, Action::Finish(Err(e)))
                } else {
                    match Json::parse(response.body.as_str()) {
                        Ok(body) => {
                            let payload = body.field("payload");
                            let wanted = match &payload_key {
                                Some(key) => payload.field(key.as_str()),
                                None => payload,
                            };
                            let reply = Reply { payload: wanted, headers: response.headers };
                            (
                                Exchange { phase: Phase::Done, outgoing, payload_key },
                                Action::Finish(Ok(reply)),
                            )
                        },
                        Err(e) => {
                            (Exchange { phase: Phase::Done, outgoing, payload_key }, Action::Finish(Err(e)))
                        },
                    }
                }
            },
            (Phase::Cooling, Event::Slept) => {
                let e = GlobleError::TooManyRequests(String::from_str("Too Many Requests"));
                (Exchange { phase: Phase::Done, outgoing, payload_key }, Action::Finish(Err(e)))
            },
            _ => {
                let e = GlobleError::OtherError(String::from_str("the exchange was not waiting for this event"));
                (Exchange { phase: Phase::Done, outgoing, payload_key }, Action::Finish(Err(e)))
            },
        }
    }
}

/// The value of the first header of that name, if there is one.
pub open spec fn header_value(headers: Seq<(Seq<char>, Seq<char>)>, name: Seq<char>) -> Option<Seq<char>>
    decreases headers.len(),
{
    if headers.len() == 0 {
        None
    } else if headers[0].0 == name {
        Some(headers[0].1)
    } else {
        header_value(headers.drop_first(), name)
    }
}

/// Looks a header up by its name, which is compared as it stands.
pub fn find_header<'a>(headers: &'a Vec<(String, String)>, name: &str) -> (r: Option<&'a String>)
    ensures
        opt_str_view(r) == header_value(header_views(headers@), name@),
{
    let wanted = String::from_str(name);
    let ghost all = header_views(headers@);
    let mut i: usize = 0;
    assert(all.skip(0) =~= all);
    while i < headers.len()
        invariant
            i <= headers.len(),
            wanted@ == name@,
            all == header_views(headers@),
            header_value(all, name@) == header_value(all.skip(i as int), name@),
        decreases headers.len() - i,
    {
        proof {
            assert(all.skip(i as int).drop_first() =~= all.skip(i + 1));
            assert(all.skip(i as int)[0] == all[i as int]);
        }
        if headers[i].0 == wanted {
            return Some(&headers[i].1);
        }
        i += 1;
    }
    None
}

/// The view of an optional borrowed text.
pub open spec fn opt_str_view(text: Option<&String>) -> Option<Seq<char>> {
    match text {
        Some(s) => Some(s@),
        None => None,
    }
}

} // verus!

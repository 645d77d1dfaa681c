//! The fetch handler: a state machine for one HTTP exchange, driven by readiness
//! events. It decides what to wait for next and finishes with exactly one result.
use vstd::prelude::*;
use vstd::string::*;

use crate::request::Request;
use crate::response::{declares_html, is_html, Response, STATUS_OK};

verus! {

/// Where an exchange stands.
#[derive(Debug, Clone, Copy, PartialEq, Eq, Structural)]
pub enum Stage {
    AwaitingRequestWrite,
    AwaitingResponse,
    ReadingBody,
    Done,
}

/// What the handler asks of the event loop next.
#[derive(Debug, Clone, Copy, PartialEq, Eq, Structural)]
pub enum Next {
    /// Wait until the exchange can be read, at most this many seconds.
    Read(u64),
    /// Wait until the exchange can be read again, with no timeout.
    ReadAgain,
    /// The exchange is over and its result is ready.
    End,
    /// The exchange failed; its result is ready and the connection is to be dropped.
    Remove,
}

/// The outcome of reading a readable body.
#[derive(Debug, Clone, PartialEq, Eq)]
pub enum ReadEvent {
    /// Some bytes arrived.
    Data(Vec<u8>),
    /// The stream ended.
    Eof,
    /// Nothing can be read now.
    WouldBlock,
    /// The read failed.
    Failed,
}

/// The state of a handler.
pub struct HandlerView {
    pub request: Request,
    pub response: Option<Response>,
    pub timeout: u64,
    pub user_agent: Seq<char>,
    pub stage: Stage,
}

/// The handler of one exchange.
#[derive(Debug)]
pub struct Handler {
    request: Request,
    response: Option<Response>,
    timeout: u64,
    user_agent: String,
    stage: Stage,
}

impl View for Handler {
    type V = HandlerView;

    closed spec fn view(&self) -> HandlerView {
        HandlerView {
            request: self.request,
            response: self.response,
            timeout: self.timeout,
            user_agent: self.user_agent@,
            stage: self.stage,
        }
    }
}

/// The headers that every request carries: `Connection: close` and the user agent.
pub open spec fn request_headers_of(user_agent: Seq<char>) -> Seq<(Seq<char>, Seq<char>)> {
    seq![("Connection"@, "close"@), ("User-Agent"@, user_agent)]
}

/// The body after a read: it exists from the first readable event on, and new
/// bytes go at its end.
pub open spec fn body_after(body: Option<Vec<u8>>, event: ReadEvent) -> Seq<u8> {
    let before = match body {
        Some(b) => b@,
        None => Seq::empty(),
    };
    match event {
        ReadEvent::Data(bytes) => before + bytes@,
        _ => before,
    }
}

/// Starts the handler of a request.
pub fn make_request(request: Request, timeout: u64, user_agent: &str) -> (r: Handler)
    ensures
        r@.request == request,
        r@.response.is_none(),
        r@.timeout == timeout,
        r@.user_agent == user_agent@,
        r@.stage == Stage::AwaitingRequestWrite,
{
    Handler {
        request,
        response: None,
        timeout,
        user_agent: String::from_str(user_agent),
        stage: Stage::AwaitingRequestWrite,
    }
}

impl Handler {
    /// The request this handler fetches.
    pub fn request(&self) -> (r: &Request)
        ensures
            *r == self@.request,
    {
        &self.request
    }

    pub fn stage(&self) -> (r: Stage)
        ensures
            r == self@.stage,
    {
        self.stage
    }

    fn read(&self) -> (r: Next)
        ensures
            r == Next::Read(self@.timeout),
    {
        Next::Read(self.timeout)
    }

    /// The request may be written: the headers to add to it, and what to wait for.
    pub fn on_request(&mut self) -> (r: (Vec<(String, String)>, Next))
        requires
            old(self)@.stage != Stage::Done,
        ensures
            r.0.deep_view() == request_headers_of(old(self)@.user_agent),
            r.1 == Next::Read(old(self)@.timeout),
            final(self)@ == (HandlerView { stage: Stage::AwaitingResponse, ..old(self)@ }),
    {
        let mut headers: Vec<(String, String)> = Vec::new();
        headers.push((String::from_str("Connection"), String::from_str("close")));
        headers.push((String::from_str("User-Agent"), self.user_agent.clone()));
        self.stage = Stage::AwaitingResponse;
        assert(headers.deep_view() =~= request_headers_of(old(self)@.user_agent));
        (headers, self.read())
    }

    /// More of the request may be written: wait for the response.
    pub fn on_request_writable(&mut self) -> (r: Next)
        requires
            old(self)@.stage != Stage::Done,
        ensures
            r == Next::Read(old(self)@.timeout),
            final(self)@ == old(self)@,
    {
        self.read()
    }

    /// The status and headers have arrived. They are kept, with no body yet. A 200
    /// response that declares HTML goes on to read its body; any other ends here.
    pub fn on_response(&mut self, status: u16, headers: Vec<(String, String)>) -> (r: Next)
        requires
            old(self)@.stage != Stage::Done,
        ensures
            final(self)@.response == Some(Response { status, headers, body: None }),
            final(self)@.request == old(self)@.request,
            final(self)@.timeout == old(self)@.timeout,
            final(self)@.user_agent == old(self)@.user_agent,
            status == STATUS_OK && declares_html(headers.deep_view()) ==> final(self)@.stage
                == Stage::ReadingBody && r == Next::Read(old(self)@.timeout),
            !(status == STATUS_OK && declares_html(headers.deep_view())) ==> final(self)@.stage
                == Stage::Done && r == Next::End,
    {
        let html = is_html(&headers);
        self.response = Some(Response { status, headers, body: None });
        if status == STATUS_OK && html {
            self.stage = Stage::ReadingBody;
            self.read()
        } else {
            self.stage = Stage::Done;
            Next::End
        }
    }

    /// The body is readable. Bytes that arrived go at the end of the body, which
    /// exists from the first such event on. The end of the stream, or a failed read,
    /// ends the exchange with what was read; nothing to read waits again.
    pub fn on_response_readable(&mut self, event: ReadEvent) -> (r: Next)
        requires
            old(self)@.stage == Stage::ReadingBody,
            old(self)@.response.is_some(),
        ensures
            final(self)@.request == old(self)@.request,
            final(self)@.timeout == old(self)@.timeout,
            final(self)@.user_agent == old(self)@.user_agent,
            final(self)@.response.is_some(),
            final(self)@.response.unwrap().status == old(self)@.response.unwrap().status,
            final(self)@.response.unwrap().headers == old(self)@.response.unwrap().headers,
            final(self)@.response.unwrap().body.is_some(),
            final(self)@.response.unwrap().body.unwrap()@ == body_after(
                old(self)@.response.unwrap().body,
                event,
            ),
            r == match event {
                ReadEvent::Data(_) => Next::Read(old(self)@.timeout),
                ReadEvent::WouldBlock => Next::ReadAgain,
                _ => Next::End,
            },
            final(self)@.stage == match event {
                ReadEvent::Data(_) | ReadEvent::WouldBlock => Stage::ReadingBody,
                _ => Stage::Done,
            },
    {
        let timeout = self.timeout;
        let ghost old_body = self.response.unwrap().body;
        let mut response = self.response.take().unwrap();
        let mut body = match response.body {
            Some(b) => b,
            None => Vec::new(),
        };
        assert(body@ == body_after(old_body, ReadEvent::Eof));
        let next = match event {
            ReadEvent::Data(mut bytes) => {
                body.append(&mut bytes);
                Next::Read(timeout)
            },
            ReadEvent::Eof => Next::End,
            ReadEvent::WouldBlock => Next::ReadAgain,
            ReadEvent::Failed => Next::End,
        };
        response.body = Some(body);
        self.response = Some(response);
        if next == Next::End {
            self.stage = Stage::Done;
        }
        next
    }

    /// The exchange failed below HTTP (connection, name lookup, timeout): it ends with
    /// no response at all.
    pub fn on_error(&mut self) -> (r: Next)
        requires
            old(self)@.stage != Stage::Done,
        ensures
            r == Next::Remove,
            final(self)@ == (HandlerView { response: None, stage: Stage::Done, ..old(self)@ }),
    {
        self.response = None;
        self.stage = Stage::Done;
        Next::Remove
    }

    /// The result of a finished exchange, handed out once: the request and its
    /// response, if there was one.
    pub fn into_result(self) -> (r: (Request, Option<Response>))
        requires
            self@.stage == Stage::Done,
        ensures
            r.0 == self@.request,
            r.1 == self@.response,
    {
        (self.request, self.response)
    }
}

} // verus!

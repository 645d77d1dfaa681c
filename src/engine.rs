//! Routing of completed fetches: pages are handed on for link extraction, redirects are
//! followed by enqueueing their target, and everything else is dropped.
use vstd::prelude::*;
use vstd::string::*;
use vstd::utf8::valid_utf8;

use crate::address::{joined_url, opt_url_view, Url, UrlView};
use crate::queue::{QueueView, RequestQueue};
use crate::stats::CrawlStats;
use crate::request::Request;
use crate::response::{body_text, decode_body, header_value, Response, STATUS_OK};
use crate::text::same_text;

verus! {

/// A fetched page whose body is text: what the output sink records.
#[derive(Debug, Clone, PartialEq, Eq)]
pub struct CrawlResult {
    pub body: String,
    pub url: String,
}

/// The statuses of the redirect family: 301, 302, 303, 307 and 308.
pub open spec fn is_redirect(status: u16) -> bool {
    status == 301 || status == 302 || status == 303 || status == 307 || status == 308
}

/// The page that a response yields: a 200 response whose body is present and valid
/// UTF-8, as that text.
pub open spec fn page_text(response: Response) -> Option<Seq<char>> {
    if response.status == STATUS_OK && response.body.is_some() {
        body_text(response.body.unwrap()@)
    } else {
        None
    }
}

/// Where a redirect leads: its first `Location` header, resolved against the URL that
/// was requested.
pub open spec fn redirect_target(request_url: UrlView, response: Response) -> Option<UrlView> {
    match header_value(response.headers.deep_view(), "location"@) {
        Some(loc) => joined_url(request_url.serialization, loc),
        None => None,
    }
}

/// Whether a URL uses a scheme that the crawler fetches.
pub open spec fn is_fetchable(u: UrlView) -> bool {
    u.scheme == "http"@ || u.scheme == "https"@
}

/// A link target resolved against a base URL, kept only where it is fetchable.
pub open spec fn resolved_link(base: Seq<char>, href: Seq<char>) -> Option<UrlView> {
    match joined_url(base, href) {
        Some(u) => if is_fetchable(u) {
            Some(u)
        } else {
            None
        },
        None => None,
    }
}

/// The fetchable links among link targets, resolved against a base URL, in order.
pub open spec fn resolved_links(base: Seq<char>, hrefs: Seq<Seq<char>>) -> Seq<UrlView>
    decreases hrefs.len(),
{
    if hrefs.len() == 0 {
        Seq::empty()
    } else {
        let prev = resolved_links(base, hrefs.drop_last());
        match resolved_link(base, hrefs.last()) {
            Some(u) => prev.push(u),
            None => prev,
        }
    }
}

impl QueueView {
    /// The queue after routing a response to a request for `request_url`, where
    /// `hrefs` are the link targets that extraction found in the page's text: a page
    /// enqueues its fetchable links, a redirect its target where it has one, and
    /// nothing else changes the queue.
    pub open spec fn after_route(
        self,
        request_url: UrlView,
        response: Response,
        hrefs: Seq<Seq<char>>,
    ) -> QueueView {
        if page_text(response).is_some() {
            self.after_push_all(resolved_links(request_url.serialization, hrefs))
        } else if is_redirect(response.status) {
            match redirect_target(request_url, response) {
                Some(u) => self.after_push(u),
                None => self,
            }
        } else {
            self
        }
    }

    /// The queue after pushing each URL in turn.
    pub open spec fn after_push_all(self, us: Seq<UrlView>) -> QueueView
        decreases us.len(),
    {
        if us.len() == 0 {
            self
        } else {
            self.after_push_all(us.drop_last()).after_push(us.last())
        }
    }
}

/// Where a redirect leads, if it names a target that parses.
pub fn redirect_url(request: &Request, response: &Response) -> (r: Option<Url>)
    ensures
        opt_url_view(r) == redirect_target(request.url@, *response),
{
    match response.header("location") {
        Some(location) => request.url.join(location),
        None => None,
    }
}

/// A link target resolved against `base`, where it is fetchable.
pub fn resolve_link(base: &Url, href: &str) -> (r: Option<Url>)
    ensures
        opt_url_view(r) == resolved_link(base@.serialization, href@),
{
    match base.join(href) {
        Some(u) => {
            let scheme = u.scheme();
            if same_text(scheme, "http") || same_text(scheme, "https") {
                Some(u)
            } else {
                None
            }
        },
        None => None,
    }
}

/// The fetchable links among link targets, resolved against `base`, in order.
pub fn resolve_links(hrefs: &Vec<String>, base: &Url) -> (r: Vec<Url>)
    ensures
        r@.map_values(|u: Url| u@) == resolved_links(base@.serialization, hrefs.deep_view()),
{
    let ghost b = base@.serialization;
    let mut links: Vec<Url> = Vec::new();
    let mut i: usize = 0;
    while i < hrefs.len()
        invariant
            b == base@.serialization,
            i <= hrefs@.len(),
            links@.map_values(|u: Url| u@) == resolved_links(
                b,
                hrefs.deep_view().subrange(0, i as int),
            ),
        decreases hrefs@.len() - i,
    {
        let ghost prefix = hrefs.deep_view().subrange(0, i + 1);
        assert(prefix.drop_last() =~= hrefs.deep_view().subrange(0, i as int));
        assert(prefix.last() == hrefs@[i as int]@);
        assert(resolved_links(b, prefix) == match resolved_link(b, prefix.last()) {
            Some(u) => resolved_links(b, prefix.drop_last()).push(u),
            None => resolved_links(b, prefix.drop_last()),
        });
        match resolve_link(base, hrefs[i].as_str()) {
            Some(u) => {
                let ghost before = links@;
                links.push(u);
                assert(links@.map_values(|u: Url| u@) =~= before.map_values(|u: Url| u@).push(
                    u@,
                ));
            },
            None => {},
        }
        i = i + 1;
    }
    assert(hrefs.deep_view().subrange(0, hrefs@.len() as int) =~= hrefs.deep_view());
    links
}

/// Enqueues the fetchable links among the link targets of a page, resolved against the
/// URL of the request that fetched it, in order.
pub fn enqueue_links(request: &Request, hrefs: &Vec<String>, request_queue: &mut RequestQueue)
    requires
        old(request_queue).wf(),
    ensures
        final(request_queue).wf(),
        final(request_queue)@ == old(request_queue)@.after_push_all(
            resolved_links(request.url@.serialization, hrefs.deep_view()),
        ),
{
    let ghost b = request.url@.serialization;
    let ghost start = request_queue@;
    let mut i: usize = 0;
    while i < hrefs.len()
        invariant
            b == request.url@.serialization,
            i <= hrefs@.len(),
            request_queue.wf(),
            request_queue@ == start.after_push_all(
                resolved_links(b, hrefs.deep_view().subrange(0, i as int)),
            ),
        decreases hrefs@.len() - i,
    {
        let ghost prefix = hrefs.deep_view().subrange(0, i + 1);
        assert(prefix.drop_last() =~= hrefs.deep_view().subrange(0, i as int));
        assert(prefix.last() == hrefs@[i as int]@);
        assert(resolved_links(b, prefix) == match resolved_link(b, prefix.last()) {
            Some(u) => resolved_links(b, prefix.drop_last()).push(u),
            None => resolved_links(b, prefix.drop_last()),
        });
        match resolve_link(&request.url, hrefs[i].as_str()) {
            Some(u) => {
                let ghost uv = u@;
                let ghost links = resolved_links(b, hrefs.deep_view().subrange(0, i as int));
                request_queue.push(Request::new(u));
                assert(links.push(uv).drop_last() =~= links);
            },
            None => {},
        }
        i = i + 1;
    }
    assert(hrefs.deep_view().subrange(0, hrefs@.len() as int) =~= hrefs.deep_view());
}

/// The text of the page that a response yields: a 200 response whose body is present
/// and valid UTF-8.
pub fn page_body(response: &Response) -> (r: Option<&str>)
    ensures
        r.is_some() == page_text(*response).is_some(),
        r.is_some() ==> r.unwrap()@ == page_text(*response).unwrap(),
{
    if response.status == STATUS_OK {
        match &response.body {
            Some(body) => decode_body(body),
            None => None,
        }
    } else {
        None
    }
}

/// Routes a completed fetch. A 200 response whose body is valid UTF-8 is a page: the
/// fetchable links among `hrefs`, the link targets that extraction found in its text,
/// are enqueued in order, and the page is returned for the output sink. A redirect
/// enqueues its target where it has one that parses; anything else is dropped.
pub fn handle_response(
    request: &Request,
    response: &Response,
    hrefs: &Vec<String>,
    request_queue: &mut RequestQueue,
) -> (r: Option<CrawlResult>)
    requires
        old(request_queue).wf(),
    ensures
        final(request_queue).wf(),
        r.is_some() == page_text(*response).is_some(),
        r.is_some() ==> r.unwrap().body@ == page_text(*response).unwrap() && r.unwrap().url@
            == request.url@.serialization,
        final(request_queue)@ == old(request_queue)@.after_route(
            request.url@,
            *response,
            hrefs.deep_view(),
        ),
{
    match page_body(response) {
        Some(text) => {
            enqueue_links(request, hrefs, request_queue);
            Some(
                CrawlResult {
                    body: String::from_str(text),
                    url: String::from_str(request.url.as_str()),
                },
            )
        },
        None => {
            let status = response.status;
            if status == 301 || status == 302 || status == 303 || status == 307 || status
                == 308 {
                match redirect_url(request, response) {
                    Some(url) => request_queue.push(Request::new(url)),
                    None => {},
                }
            }
            None
        },
    }
}

/// Takes in one completed fetch: the request's slot is freed, the completion is
/// counted, and a response, if there is one, is routed with `hrefs`, the link targets
/// that extraction found in its page. What comes back is the page to record, if any.
pub fn on_completion(
    request_queue: &mut RequestQueue,
    stats: &mut CrawlStats,
    request: &Request,
    response: &Option<Response>,
    hrefs: &Vec<String>,
) -> (r: Option<CrawlResult>)
    requires
        old(request_queue).wf(),
        old(request_queue)@.pending_for(request.url@.host) > 0,
        old(stats).wf(),
        old(stats)@.all_stats.n_requests < u64::MAX,
    ensures
        final(request_queue).wf(),
        final(stats).wf(),
        final(stats)@.all_stats == old(stats)@.all_stats.after_record(*response),
        final(stats)@.last_stats == old(stats)@.last_stats.after_record(*response),
        match response {
            Some(resp) => {
                &&& final(request_queue)@ == old(request_queue)@.after_decr(
                    request.url@.host,
                ).after_route(request.url@, *resp, hrefs.deep_view())
                &&& r.is_some() == page_text(*resp).is_some()
                &&& r.is_some() ==> r.unwrap().body@ == page_text(*resp).unwrap()
                    && r.unwrap().url@ == request.url@.serialization
            },
            None => {
                &&& final(request_queue)@ == old(request_queue)@.after_decr(request.url@.host)
                &&& r.is_none()
            },
        },
{
    request_queue.decr_pending(request);
    stats.record_response(response);
    match response {
        Some(resp) => handle_response(request, resp, hrefs, request_queue),
        None => None,
    }
}

/// A 200 response whose body is not valid UTF-8 yields no page, so nothing is
/// recorded, and routing it leaves the queue as it was: no link is enqueued, whatever
/// link targets are offered.
pub proof fn lemma_non_utf8_dropped(
    v: QueueView,
    request_url: UrlView,
    response: Response,
    hrefs: Seq<Seq<char>>,
)
    requires
        response.status == STATUS_OK,
        response.body.is_some(),
        !valid_utf8(response.body.unwrap()@),
    ensures
        page_text(response).is_none(),
        v.after_route(request_url, response, hrefs) == v,
{
}

} // verus!

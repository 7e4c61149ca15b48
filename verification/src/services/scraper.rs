//! Talking to the social profile scraper: what is asked, when a request is
//! repeated, and what an answer means.

use vstd::prelude::*;
use crate::json;
use crate::json::{Json, JsonView};
use crate::json_text;
use crate::models;
use crate::reading;
use crate::search;
use crate::text;
use crate::text::CharClass;

verus! {

/// How often a request is tried.
pub const SCRAPER_REQUEST_ATTEMPTS: usize = 3;

/// The pause after the first failure; it grows with each failure.
pub const SCRAPER_RETRY_BASE_DELAY_MS: u64 = 500;

// ---------------------------------------------------------------------------
// Errors
// ---------------------------------------------------------------------------
/// What an error says when the list of followed accounts cannot be had, though
/// the rest of the profile can.
pub open spec fn nonfatal_words() -> Seq<Seq<char>> {
    seq![
        "operation timed out"@,
        "request timed out"@,
        "timed out"@,
        "deadline has elapsed"@,
        "private profile"@,
        "private account"@,
        "following list is private"@,
        "followers list is private"@,
        "returned no tiktok following users"@,
        "returned no tiktok followers"@,
    ]
}

/// What an error says when the same request may succeed a moment later.
pub open spec fn transient_words() -> Seq<Seq<char>> {
    seq![
        "operation timed out"@,
        "request timed out"@,
        "deadline has elapsed"@,
        "error sending request"@,
        "connection closed"@,
        "connection reset"@,
        "connection refused"@,
        "tcp connect"@,
        "dns error"@,
    ]
}

/// The message speaks of one of the words, in upper or lower case.
pub open spec fn speaks_of(message: Seq<char>, words: Seq<Seq<char>>) -> bool {
    search::contains_any(text::lower(message), words)
}

/// Whether a crawl goes on without the list of followed accounts.
pub fn is_nonfatal_following_error(message: &str) -> (r: bool)
    ensures
        r == speaks_of(message@, nonfatal_words()),
{
    let lower: String = text::to_lower(message);
    let words: Vec<&str> = vec![
        "operation timed out",
        "request timed out",
        "timed out",
        "deadline has elapsed",
        "private profile",
        "private account",
        "following list is private",
        "followers list is private",
        "returned no tiktok following users",
        "returned no tiktok followers",
    ];
    assert(words@.map_values(|n: &str| n@) =~= nonfatal_words());
    search::has_any_text(lower.as_str(), words.as_slice())
}

/// Whether the same request may succeed a moment later.
pub fn is_transient_scraper_request_error(message: &str) -> (r: bool)
    ensures
        r == speaks_of(message@, transient_words()),
{
    let lower: String = text::to_lower(message);
    let words: Vec<&str> = vec![
        "operation timed out",
        "request timed out",
        "deadline has elapsed",
        "error sending request",
        "connection closed",
        "connection reset",
        "connection refused",
        "tcp connect",
        "dns error",
    ];
    assert(words@.map_values(|n: &str| n@) =~= transient_words());
    search::has_any_text(lower.as_str(), words.as_slice())
}

// ---------------------------------------------------------------------------
// Requests
// ---------------------------------------------------------------------------
/// The address of a request: the base and the path, with one slash between.
pub open spec fn endpoint(base_url: Seq<char>, path: Seq<char>) -> Seq<char> {
    text::trim_end(base_url, CharClass::Only('/')) + "/"@ + text::trim_start(
        path,
        CharClass::Only('/'),
    )
}

/// The address of a request.
pub fn request_endpoint(base_url: &str, path: &str) -> (r: String)
    ensures
        r@ == endpoint(base_url@, path@),
{
    let mut r: String = text::trim_end_of(base_url, CharClass::Only('/'));
    let tail: String = text::trim_start_of(path, CharClass::Only('/'));
    r.append("/");
    r.append(tail.as_str());
    r
}

/// The views of request parameters.
pub open spec fn params_view(params: Seq<(String, String)>) -> Seq<(Seq<char>, Seq<char>)> {
    params.map_values(|p: (String, String)| (p.0@, p.1@))
}

/// The parameters with the region behind them, where one is set.
pub fn with_region(params: Vec<(String, String)>, region: &Option<String>) -> (r: Vec<
    (String, String),
>)
    ensures
        params_view(r@) == match region {
            Some(region) => params_view(params@).push(("region"@, region@)),
            None => params_view(params@),
        },
{
    let mut r: Vec<(String, String)> = params;
    if let Some(region) = region {
        r.push(("region".to_string(), region.clone()));
        assert(params_view(r@) =~= params_view(params@).push(("region"@, region@)));
    }
    r
}

/// The parameters of a question about one creator.
pub fn handle_params(handle: &str) -> (r: Vec<(String, String)>)
    ensures
        params_view(r@) == seq![("handle"@, handle@)],
{
    let r: Vec<(String, String)> = vec![("handle".to_string(), handle.to_string())];
    assert(params_view(r@) =~= seq![("handle"@, handle@)]);
    r
}

/// The parameters of the question for a creator's posts.
pub fn posts_params(handle: &str) -> (r: Vec<(String, String)>)
    ensures
        params_view(r@) == seq![
            ("handle"@, handle@),
            ("trim"@, "true"@),
            ("count"@, "30"@),
            ("include_download_headers"@, "true"@),
        ],
{
    let r: Vec<(String, String)> = vec![
        ("handle".to_string(), handle.to_string()),
        ("trim".to_string(), "true".to_string()),
        ("count".to_string(), "30".to_string()),
        ("include_download_headers".to_string(), "true".to_string()),
    ];
    assert(params_view(r@) =~= seq![
        ("handle"@, handle@),
        ("trim"@, "true"@),
        ("count"@, "30"@),
        ("include_download_headers"@, "true"@),
    ]);
    r
}

// ---------------------------------------------------------------------------
// Answers
// ---------------------------------------------------------------------------
/// Why an answer of the scraper is no use.
pub enum ScraperError {
    /// The request was refused; with the status and the body of the answer.
    Status { status: String, body: String },
    /// The body is not valid JSON; with the reason.
    InvalidJson(String),
    /// The scraper reports a failure of its own; with what it says.
    Application(String),
}

/// The mathematical reading of a `ScraperError`.
pub enum ScraperErrorView {
    Status { status: Seq<char>, body: Seq<char> },
    InvalidJson(Seq<char>),
    Application(Seq<char>),
}

impl View for ScraperError {
    type V = ScraperErrorView;

    open spec fn view(&self) -> ScraperErrorView {
        match self {
            ScraperError::Status { status, body } => ScraperErrorView::Status {
                status: status@,
                body: body@,
            },
            ScraperError::InvalidJson(reason) => ScraperErrorView::InvalidJson(reason@),
            ScraperError::Application(message) => ScraperErrorView::Application(message@),
        }
    }
}

/// The error in words.
pub open spec fn error_text(error: ScraperErrorView) -> Seq<char> {
    match error {
        ScraperErrorView::Status { status, body } => "social profile scraper returned "@ + status
            + ": "@ + body,
        ScraperErrorView::InvalidJson(reason) =>
            "social profile scraper returned invalid JSON: "@ + reason,
        ScraperErrorView::Application(message) =>
            "social profile scraper returned an application error: "@ + message,
    }
}

impl ScraperError {
    /// The error in words.
    pub fn message(&self) -> (r: String)
        ensures
            r@ == error_text(self@),
    {
        match self {
            ScraperError::Status { status, body } => {
                let mut r: String = "social profile scraper returned ".to_string();
                r.append(status.as_str());
                r.append(": ");
                r.append(body.as_str());
                r
            },
            ScraperError::InvalidJson(reason) => text::concat(
                "social profile scraper returned invalid JSON: ",
                reason.as_str(),
            ),
            ScraperError::Application(message) => text::concat(
                "social profile scraper returned an application error: ",
                message.as_str(),
            ),
        }
    }
}

/// What the scraper says about a failure, else the whole body.
pub open spec fn failure_text(
    json: JsonView,
    keys: Seq<Seq<char>>,
    body: Seq<char>,
) -> Seq<char> {
    match reading::string_at(json, keys) {
        Some(t) => t,
        None => body,
    }
}

/// The failure that an answer reports, if it reports one.
pub open spec fn reported_failure(json: JsonView, body: Seq<char>) -> Option<Seq<char>> {
    if json::field(json, "success"@) == Some(JsonView::Bool(false)) {
        Some(failure_text(json, seq!["message"@, "error"@], body))
    } else {
        match json::text_field(json, "status"@) {
            Some(status) => if text::same_ignoring_case(status, "error"@) {
                Some(failure_text(json, seq!["message"@, "error"@, "error.message"@], body))
            } else {
                None
            },
            None => None,
        }
    }
}

/// What an answer with the given status and body means.
pub open spec fn reply(success: bool, status: Seq<char>, body: Seq<char>) -> Result<
    JsonView,
    ScraperErrorView,
> {
    if !success {
        Err(ScraperErrorView::Status { status: status, body: body })
    } else {
        match json_text::parsed(body) {
            Err(reason) => Err(ScraperErrorView::InvalidJson(reason)),
            Ok(json) => match reported_failure(json, body) {
                Some(message) => Err(ScraperErrorView::Application(message)),
                None => Ok(json),
            },
        }
    }
}

fn find_failure_text(value: &Json, keys: &[&str], body: &str) -> (r: String)
    ensures
        r@ == failure_text(value@, reading::names(keys@), body@),
{
    match reading::first_string(value, keys) {
        Some(t) => t,
        None => body.to_string(),
    }
}

/// The failure that an answer reports, if it reports one.
pub fn find_reported_failure(value: &Json, body: &str) -> (r: Option<String>)
    ensures
        models::opt_text(r) == reported_failure(value@, body@),
{
    if let Some(Json::Bool(false)) = value.get("success") {
        let keys: Vec<&str> = vec!["message", "error"];
        assert(reading::names(keys@) =~= seq!["message"@, "error"@]);
        return Some(find_failure_text(value, keys.as_slice(), body));
    }
    match value.get_text("status") {
        Some(status) => if text::eq_ignoring_case(status.as_str(), "error") {
            let keys: Vec<&str> = vec!["message", "error", "error.message"];
            assert(reading::names(keys@) =~= seq!["message"@, "error"@, "error.message"@]);
            Some(find_failure_text(value, keys.as_slice(), body))
        } else {
            None
        },
        None => None,
    }
}

/// What an answer with the given status and body means.
pub fn check_reply(success: bool, status: &str, body: &str) -> (r: Result<Json, ScraperError>)
    ensures
        match (r, reply(success, status@, body@)) {
            (Ok(json), Ok(want)) => json@ == want,
            (Err(error), Err(want)) => error@ == want,
            _ => false,
        },
{
    if !success {
        return Err(ScraperError::Status { status: status.to_string(), body: body.to_string() });
    }
    match json_text::parse_json(body) {
        Err(reason) => Err(ScraperError::InvalidJson(reason)),
        Ok(json) => match find_reported_failure(&json, body) {
            Some(message) => Err(ScraperError::Application(message)),
            None => Ok(json),
        },
    }
}

// ---------------------------------------------------------------------------
// Repeating a request
// ---------------------------------------------------------------------------
/// The attempts at one request that have failed.
pub struct Attempts {
    pub failed: usize,
}

impl Attempts {
    /// No attempt has failed yet.
    pub fn new() -> (r: Attempts)
        ensures
            r.failed == 0,
    {
        Attempts { failed: 0 }
    }

    /// Counts a failure. The request is tried again after the pause that is
    /// returned, as long as attempts are left and the error may pass.
    pub fn fail(&mut self, message: &str) -> (pause_ms: Option<u64>)
        requires
            old(self).failed < SCRAPER_REQUEST_ATTEMPTS,
        ensures
            final(self).failed == old(self).failed + 1,
            pause_ms == if final(self).failed < SCRAPER_REQUEST_ATTEMPTS && speaks_of(
                message@,
                transient_words(),
            ) {
                Some((SCRAPER_RETRY_BASE_DELAY_MS * final(self).failed) as u64)
            } else {
                None
            },
            pause_ms is Some <==> final(self).failed < 3 && speaks_of(message@, transient_words()),
            pause_ms is Some ==> pause_ms->0 == 500 * final(self).failed,
    {
        self.failed = self.failed + 1;
        if self.failed < SCRAPER_REQUEST_ATTEMPTS && is_transient_scraper_request_error(message) {
            Some(SCRAPER_RETRY_BASE_DELAY_MS * self.failed as u64)
        } else {
            None
        }
    }
}

// ---------------------------------------------------------------------------
// Pages of followed accounts
// ---------------------------------------------------------------------------
/// The pages of followed accounts that have been fetched, and where the next
/// page begins.
pub struct FollowingPages {
    pub pages: Vec<Json>,
    pub cursor: Option<String>,
    pub left: usize,
    pub done: bool,
}

/// The mathematical reading of `FollowingPages`.
pub struct FollowingView {
    pub pages: Seq<JsonView>,
    pub cursor: Option<Seq<char>>,
    pub left: nat,
    pub done: bool,
}

impl View for FollowingPages {
    type V = FollowingView;

    open spec fn view(&self) -> FollowingView {
        FollowingView {
            pages: json::views(self.pages@),
            cursor: models::opt_text(self.cursor),
            left: self.left as nat,
            done: self.done,
        }
    }
}

/// Another page is wanted only while pages are left.
pub open spec fn paging_wf(s: FollowingView) -> bool {
    !s.done ==> s.left > 0
}

/// There are more pages behind this one.
pub open spec fn has_more(page: JsonView) -> bool {
    reading::bool_at(page, seq!["hasMore"@, "has_more"@]) == Some(true)
}

/// Where the page after this one begins, if the page says so.
pub open spec fn next_cursor(page: JsonView) -> Option<Seq<char>> {
    match reading::string_at(page, seq!["min_time"@, "minTime"@]) {
        Some(cursor) => if cursor != "0"@ && text::trim(cursor).len() > 0 {
            Some(cursor)
        } else {
            None
        },
        None => None,
    }
}

/// The state after a page has come.
pub open spec fn after_page(s: FollowingView, page: JsonView) -> FollowingView {
    FollowingView {
        pages: s.pages.push(page),
        cursor: next_cursor(page),
        left: (s.left - 1) as nat,
        done: !has_more(page) || next_cursor(page) is None || s.left == 1,
    }
}

/// The parameters of the question for the next page.
pub open spec fn page_params(s: FollowingView, handle: Seq<char>) -> Seq<
    (Seq<char>, Seq<char>),
> {
    let base = seq![("handle"@, handle), ("trim"@, "true"@)];
    match s.cursor {
        Some(cursor) => base.push(("min_time"@, cursor)),
        None => base,
    }
}

fn find_next_cursor(page: &Json) -> (r: Option<String>)
    ensures
        models::opt_text(r) == next_cursor(page@),
{
    let keys: Vec<&str> = vec!["min_time", "minTime"];
    assert(reading::names(keys@) =~= seq!["min_time"@, "minTime"@]);
    match reading::first_string(page, keys.as_slice()) {
        Some(cursor) => {
            let trimmed: String = text::trim_of(cursor.as_str());
            if !text::same(cursor.as_str(), "0") && !text::empty(trimmed.as_str()) {
                Some(cursor)
            } else {
                None
            }
        },
        None => None,
    }
}

impl FollowingPages {
    /// No page has been fetched, and at most `max_pages` will be.
    pub fn new(max_pages: usize) -> (r: FollowingPages)
        ensures
            r@ == (FollowingView {
                pages: Seq::empty(),
                cursor: None,
                left: max_pages as nat,
                done: max_pages == 0,
            }),
            paging_wf(r@),
    {
        let r = FollowingPages {
            pages: Vec::new(),
            cursor: None,
            left: max_pages,
            done: max_pages == 0,
        };
        assert(json::views(r.pages@) =~= Seq::<JsonView>::empty());
        r
    }

    /// The parameters of the question for the next page.
    pub fn params(&self, handle: &str) -> (r: Vec<(String, String)>)
        ensures
            params_view(r@) == page_params(self@, handle@),
    {
        let mut r: Vec<(String, String)> = vec![
            ("handle".to_string(), handle.to_string()),
            ("trim".to_string(), "true".to_string()),
        ];
        let ghost base = seq![("handle"@, handle@), ("trim"@, "true"@)];
        assert(params_view(r@) =~= base);
        if let Some(cursor) = &self.cursor {
            r.push(("min_time".to_string(), cursor.clone()));
            assert(params_view(r@) =~= base.push(("min_time"@, cursor@)));
        }
        r
    }

    /// Takes the next page.
    pub fn got_page(&mut self, page: Json)
        requires
            !old(self).done,
            paging_wf(old(self)@),
        ensures
            final(self)@ == after_page(old(self)@, page@),
            paging_wf(final(self)@),
    {
        let keys: Vec<&str> = vec!["hasMore", "has_more"];
        assert(reading::names(keys@) =~= seq!["hasMore"@, "has_more"@]);
        let more: bool = match reading::first_bool(&page, keys.as_slice()) {
            Some(b) => b,
            None => false,
        };
        let cursor: Option<String> = find_next_cursor(&page);
        let ghost before = self.pages@;
        self.done = !more || cursor.is_none() || self.left == 1;
        self.cursor = cursor;
        self.left = self.left - 1;
        self.pages.push(page);
        assert(json::views(self.pages@) =~= json::views(before).push(page@));
    }

    /// Takes a failure: where the crawl can go on without the list of followed
    /// accounts, no further page is wanted. Returns whether the failure is
    /// final.
    pub fn got_error(&mut self, message: &str) -> (fatal: bool)
        ensures
            fatal == !speaks_of(message@, nonfatal_words()),
            final(self)@ == if fatal {
                old(self)@
            } else {
                (FollowingView { done: true, ..old(self)@ })
            },
    {
        if is_nonfatal_following_error(message) {
            self.done = true;
            false
        } else {
            true
        }
    }
}

/// The state after all of `pages` have come, as long as they are wanted.
pub open spec fn after_pages(s: FollowingView, pages: Seq<JsonView>) -> FollowingView
    decreases pages.len(),
{
    if pages.len() == 0 || s.done {
        s
    } else {
        after_pages(after_page(s, pages[0]), pages.skip(1))
    }
}

/// Whatever the pages say, no more of them are taken than the limit, and they
/// are kept in the order in which they came.
pub proof fn law_paging_bounded(s: FollowingView, pages: Seq<JsonView>)
    requires
        paging_wf(s),
    ensures
        after_pages(s, pages).pages.len() <= s.pages.len() + s.left,
        after_pages(s, pages).pages.len() <= s.pages.len() + pages.len(),
        after_pages(s, pages).pages == s.pages + pages.take(
            after_pages(s, pages).pages.len() - s.pages.len(),
        ),
        s.pages.len() <= after_pages(s, pages).pages.len(),
        paging_wf(after_pages(s, pages)),
    decreases pages.len(),
{
    if pages.len() == 0 || s.done {
        assert(s.pages + pages.take(0) =~= s.pages);
    } else {
        let next = after_page(s, pages[0]);
        let rest = pages.skip(1);
        law_paging_bounded(next, rest);
        let n = after_pages(next, rest).pages.len() - next.pages.len();
        assert(pages.take(n + 1) =~= seq![pages[0]] + rest.take(n));
        assert(s.pages.push(pages[0]) + rest.take(n) =~= s.pages + pages.take(n + 1));
    }
}

} // verus!

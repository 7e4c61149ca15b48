//! What the crawler knows about creators, their posts and their queue.

use vstd::prelude::*;
use crate::json::{Json, JsonView};
use crate::moment::Timestamp;
use crate::floating::{Real, ZERO_BITS};
use crate::search;
use crate::text;

verus! {

/// The language code of content whose language is not known.
pub const UNKNOWN_LANGUAGE: &'static str = "UNKNOWN";

/// The text of an optional string.
pub open spec fn opt_text(o: Option<String>) -> Option<Seq<char>> {
    match o {
        Some(s) => Some(s@),
        None => None,
    }
}

/// A copy of an optional string.
pub fn copy_opt(o: &Option<String>) -> (r: Option<String>)
    ensures
        opt_text(r) == opt_text(*o),
        r == *o,
{
    match o {
        Some(s) => Some(s.clone()),
        None => None,
    }
}

/// A copy of a list of strings.
pub fn copy_texts(v: &Vec<String>) -> (r: Vec<String>)
    ensures
        r@ == v@,
{
    let mut r: Vec<String> = Vec::new();
    let mut i: usize = 0;
    while i < v.len()
        invariant
            i <= v@.len(),
            r@ == v@.take(i as int),
        decreases v@.len() - i,
    {
        r.push(v[i].clone());
        i = i + 1;
        assert(v@.take(i as int) =~= v@.take(i - 1).push(v@[i - 1]));
    }
    assert(v@.take(i as int) =~= v@);
    r
}

// ---------------------------------------------------------------------------
// Posts and profiles
// ---------------------------------------------------------------------------
/// What a post is made of.
#[derive(Debug, Clone, Copy, PartialEq, Eq, Structural)]
pub enum TiktokPostKind {
    Video,
    Photo,
}

/// A post is a photo post if its type or its address says so.
pub open spec fn kind_of(url: Seq<char>, hint: Option<Seq<char>>) -> TiktokPostKind {
    let lower_hint = match hint {
        Some(h) => text::lower(h),
        None => Seq::empty(),
    };
    if search::contains_any(lower_hint, seq!["photo"@, "slideshow"@, "image"@])
        || search::contains(text::lower(url), "/photo/"@) {
        TiktokPostKind::Photo
    } else {
        TiktokPostKind::Video
    }
}

impl TiktokPostKind {
    /// The word for the kind.
    pub open spec fn text(self) -> Seq<char> {
        match self {
            TiktokPostKind::Video => "video"@,
            TiktokPostKind::Photo => "photo"@,
        }
    }

    /// The word for the kind.
    pub fn name(self) -> (r: &'static str)
        ensures
            r@ == self.text(),
    {
        match self {
            TiktokPostKind::Video => "video",
            TiktokPostKind::Photo => "photo",
        }
    }

    /// The kind of a post, from its address and from what the service calls it.
    pub fn from_url_and_type(url: &str, kind_hint: Option<&str>) -> (r: TiktokPostKind)
        ensures
            r == kind_of(
                url@,
                match kind_hint {
                    Some(h) => Some(h@),
                    None => None,
                },
            ),
    {
        let hint: String = match kind_hint {
            Some(h) => text::to_lower(h),
            None => String::new(),
        };
        let lower_url: String = text::to_lower(url);
        let words: Vec<&str> = vec!["photo", "slideshow", "image"];
        assert(words@.map_values(|n: &str| n@) =~= seq!["photo"@, "slideshow"@, "image"@]);
        assert(hint@ =~= match kind_hint {
            Some(h) => text::lower(h@),
            None => Seq::empty(),
        });
        if search::has_any_text(hint.as_str(), words.as_slice()) || search::has_text(
            lower_url.as_str(),
            "/photo/",
        ) {
            TiktokPostKind::Photo
        } else {
            TiktokPostKind::Video
        }
    }
}

/// One post of a creator.
pub struct TiktokPost {
    pub id: Option<String>,
    pub url: String,
    pub caption: Option<String>,
    pub views: u64,
    pub published_at: Option<Timestamp>,
    pub kind: TiktokPostKind,
    pub is_pinned: bool,
    pub source_url: Option<String>,
    pub slide_image_urls: Vec<String>,
    pub visual_image_urls: Vec<String>,
    pub raw: Json,
}

/// The mathematical reading of a `TiktokPost`.
pub struct PostView {
    pub id: Option<Seq<char>>,
    pub url: Seq<char>,
    pub caption: Option<Seq<char>>,
    pub views: u64,
    pub published_at: Option<Timestamp>,
    pub kind: TiktokPostKind,
    pub is_pinned: bool,
    pub source_url: Option<Seq<char>>,
    pub slide_image_urls: Seq<Seq<char>>,
    pub visual_image_urls: Seq<Seq<char>>,
    pub raw: JsonView,
}

impl View for TiktokPost {
    type V = PostView;

    open spec fn view(&self) -> PostView {
        PostView {
            id: opt_text(self.id),
            url: self.url@,
            caption: opt_text(self.caption),
            views: self.views,
            published_at: self.published_at,
            kind: self.kind,
            is_pinned: self.is_pinned,
            source_url: opt_text(self.source_url),
            slide_image_urls: search::texts(self.slide_image_urls@),
            visual_image_urls: search::texts(self.visual_image_urls@),
            raw: self.raw@,
        }
    }
}

/// The views of a list of posts.
pub open spec fn post_views(posts: Seq<TiktokPost>) -> Seq<PostView> {
    posts.map_values(|p: TiktokPost| p@)
}

/// Every date among the posts is one that can be written down.
pub open spec fn dates_wf(posts: Seq<PostView>) -> bool {
    forall|i: int|
        0 <= i < posts.len() ==> match (#[trigger] posts[i]).published_at {
            Some(at) => at.wf(),
            None => true,
        }
}

/// A creator's profile, posts and followed accounts at one moment.
pub struct CreatorSnapshot {
    pub handle: String,
    pub display_name: Option<String>,
    pub country_code: Option<String>,
    pub bio: String,
    pub follower_count: Option<u64>,
    pub following_count: Option<u64>,
    pub following: Vec<String>,
    pub videos: Vec<TiktokPost>,
    pub raw: Json,
}

/// The mathematical reading of a `CreatorSnapshot`.
pub struct SnapshotView {
    pub handle: Seq<char>,
    pub display_name: Option<Seq<char>>,
    pub country_code: Option<Seq<char>>,
    pub bio: Seq<char>,
    pub follower_count: Option<u64>,
    pub following_count: Option<u64>,
    pub following: Seq<Seq<char>>,
    pub videos: Seq<PostView>,
    pub raw: JsonView,
}

impl View for CreatorSnapshot {
    type V = SnapshotView;

    open spec fn view(&self) -> SnapshotView {
        SnapshotView {
            handle: self.handle@,
            display_name: opt_text(self.display_name),
            country_code: opt_text(self.country_code),
            bio: self.bio@,
            follower_count: self.follower_count,
            following_count: self.following_count,
            following: search::texts(self.following@),
            videos: post_views(self.videos@),
            raw: self.raw@,
        }
    }
}

// ---------------------------------------------------------------------------
// Content and classifications
// ---------------------------------------------------------------------------
/// A language code in the form in which it is kept: trimmed, in upper case, and
/// never empty.
pub open spec fn language(code: Seq<char>) -> Seq<char> {
    let normal = text::upper(text::trim(code));
    if normal.len() == 0 {
        UNKNOWN_LANGUAGE@
    } else {
        normal
    }
}

/// A language code in the form in which it is kept.
pub fn normalize_language_code(language_code: &str) -> (r: String)
    ensures
        r@ == language(language_code@),
{
    let trimmed: String = text::trim_of(language_code);
    let normal: String = text::to_upper(trimmed.as_str());
    if text::empty(normal.as_str()) {
        UNKNOWN_LANGUAGE.to_string()
    } else {
        normal
    }
}

/// A language code in the form in which it is kept is never empty, and bringing
/// it into that form again changes nothing.
pub proof fn law_language_idempotent(code: Seq<char>)
    ensures
        language(code).len() > 0,
        language(language(code)) == language(code),
{
    reveal_strlit("UNKNOWN");
    let unknown = UNKNOWN_LANGUAGE@;
    assert(unknown.len() == 7);
    text::lemma_trimmed(unknown, text::CharClass::White);
    assert(text::upper(unknown) =~= unknown);
    let trimmed = text::trim(code);
    text::law_trim_idempotent(code, text::CharClass::White);
    text::lemma_upper_trim(trimmed);
    text::lemma_upper_idempotent(trimmed);
}

/// The text of a post, and its language.
pub struct ExtractedContent {
    pub text: String,
    pub language_code: String,
}

/// The mathematical reading of an `ExtractedContent`.
pub struct ContentView {
    pub text: Seq<char>,
    pub language_code: Seq<char>,
}

impl View for ExtractedContent {
    type V = ContentView;

    open spec fn view(&self) -> ContentView {
        ContentView { text: self.text@, language_code: self.language_code@ }
    }
}

/// Content with its language code in the form in which it is kept.
pub open spec fn normal_content(content: ContentView) -> ContentView {
    ContentView { text: content.text, language_code: language(content.language_code) }
}

impl ExtractedContent {
    /// No text, in no known language.
    pub fn empty() -> (r: ExtractedContent)
        ensures
            r.text@.len() == 0,
            r.language_code@ == UNKNOWN_LANGUAGE@,
    {
        ExtractedContent { text: String::new(), language_code: UNKNOWN_LANGUAGE.to_string() }
    }

    /// The content with its language code in the form in which it is kept.
    pub fn normalized(self) -> (r: ExtractedContent)
        ensures
            r@ == normal_content(self@),
    {
        let code: String = normalize_language_code(self.language_code.as_str());
        ExtractedContent { text: self.text, language_code: code }
    }
}

/// Normalizing content twice is normalizing it once.
pub proof fn law_content_idempotent(content: ContentView)
    ensures
        normal_content(normal_content(content)) == normal_content(content),
        normal_content(content).text == content.text,
        normal_content(content).language_code.len() > 0,
{
    law_language_idempotent(content.language_code);
}

/// Whether a creator promotes an app, and which.
pub struct AppClassification {
    pub promotes_app: bool,
    pub app_name: Option<String>,
    pub is_existing_app: bool,
    pub existing_app_name: Option<String>,
    pub is_new_app: bool,
    pub supporting_post_count: u8,
    pub language_code: String,
    pub creator_name: Option<String>,
    pub creator_email: Option<String>,
    pub confidence: Real,
    pub evidence: String,
}

/// The mathematical reading of an `AppClassification`.
pub struct ClassificationView {
    pub promotes_app: bool,
    pub app_name: Option<Seq<char>>,
    pub is_existing_app: bool,
    pub existing_app_name: Option<Seq<char>>,
    pub is_new_app: bool,
    pub supporting_post_count: u8,
    pub language_code: Seq<char>,
    pub creator_name: Option<Seq<char>>,
    pub creator_email: Option<Seq<char>>,
    pub confidence: Real,
    pub evidence: Seq<char>,
}

impl View for AppClassification {
    type V = ClassificationView;

    open spec fn view(&self) -> ClassificationView {
        ClassificationView {
            promotes_app: self.promotes_app,
            app_name: opt_text(self.app_name),
            is_existing_app: self.is_existing_app,
            existing_app_name: opt_text(self.existing_app_name),
            is_new_app: self.is_new_app,
            supporting_post_count: self.supporting_post_count,
            language_code: self.language_code@,
            creator_name: opt_text(self.creator_name),
            creator_email: opt_text(self.creator_email),
            confidence: self.confidence,
            evidence: self.evidence@,
        }
    }
}

/// A classification that finds no app.
pub open spec fn no_app_view() -> ClassificationView {
    ClassificationView {
        promotes_app: false,
        app_name: None,
        is_existing_app: false,
        existing_app_name: None,
        is_new_app: false,
        supporting_post_count: 0,
        language_code: UNKNOWN_LANGUAGE@,
        creator_name: None,
        creator_email: None,
        confidence: Real { bits: ZERO_BITS },
        evidence: Seq::empty(),
    }
}

/// The trimmed text, where something is left of it.
pub open spec fn non_blank(s: Option<Seq<char>>) -> Option<Seq<char>> {
    match s {
        Some(t) => if text::trim(t).len() > 0 {
            Some(text::trim(t))
        } else {
            None
        },
        None => None,
    }
}

/// The name of the app that a classification speaks of: the known name, else
/// the name that was found.
pub open spec fn app_candidate(c: ClassificationView) -> Option<Seq<char>> {
    non_blank(
        if c.existing_app_name is Some {
            c.existing_app_name
        } else {
            c.app_name
        },
    )
}

impl AppClassification {
    /// A classification that finds no app.
    pub fn no_app() -> (r: AppClassification)
        ensures
            r@ == no_app_view(),
    {
        let r = AppClassification {
            promotes_app: false,
            app_name: None,
            is_existing_app: false,
            existing_app_name: None,
            is_new_app: false,
            supporting_post_count: 0,
            language_code: UNKNOWN_LANGUAGE.to_string(),
            creator_name: None,
            creator_email: None,
            confidence: Real { bits: ZERO_BITS },
            evidence: String::new(),
        };
        assert(r.evidence@ =~= Seq::<char>::empty());
        r
    }

    /// The name of the app that the classification speaks of.
    pub fn canonical_app_name(&self) -> (r: Option<String>)
        ensures
            opt_text(r) == app_candidate(self@),
    {
        let name: &Option<String> = if self.existing_app_name.is_some() {
            &self.existing_app_name
        } else {
            &self.app_name
        };
        trimmed_opt(name)
    }
}

/// The trimmed text, where something is left of it.
pub fn trimmed_opt(value: &Option<String>) -> (r: Option<String>)
    ensures
        opt_text(r) == non_blank(opt_text(*value)),
{
    match value {
        Some(t) => {
            let trimmed: String = text::trim_of(t.as_str());
            if text::empty(trimmed.as_str()) {
                None
            } else {
                Some(trimmed)
            }
        },
        None => None,
    }
}

/// The dominant language of a creator's content.
pub struct LanguageClassification {
    pub language_code: String,
    pub confidence: Real,
    pub evidence: String,
}

/// The mathematical reading of a `LanguageClassification`.
pub struct LanguageView {
    pub language_code: Seq<char>,
    pub confidence: Real,
    pub evidence: Seq<char>,
}

impl View for LanguageClassification {
    type V = LanguageView;

    open spec fn view(&self) -> LanguageView {
        LanguageView {
            language_code: self.language_code@,
            confidence: self.confidence,
            evidence: self.evidence@,
        }
    }
}

/// A language classification in the form in which it is kept.
pub open spec fn normal_language(c: LanguageView) -> LanguageView {
    LanguageView {
        language_code: language(c.language_code),
        confidence: c.confidence.clamped(),
        evidence: c.evidence,
    }
}

impl LanguageClassification {
    /// The classification in the form in which it is kept.
    pub fn normalized(self) -> (r: LanguageClassification)
        ensures
            r@ == normal_language(self@),
    {
        let code: String = normalize_language_code(self.language_code.as_str());
        LanguageClassification {
            language_code: code,
            confidence: self.confidence.clamp_unit(),
            evidence: self.evidence,
        }
    }
}

/// Normalizing a language classification twice is normalizing it once.
pub proof fn law_language_classification_idempotent(c: LanguageView)
    ensures
        normal_language(normal_language(c)) == normal_language(c),
{
    law_language_idempotent(c.language_code);
}

// ---------------------------------------------------------------------------
// Statistics and results
// ---------------------------------------------------------------------------
/// An average: the total over the count, and zero where nothing is counted.
#[derive(Debug, Clone, Copy, PartialEq, Eq, Structural)]
pub struct Average {
    pub total: u64,
    pub count: usize,
}

/// The middle of an ordered list: half of the sum of its two middle values,
/// which are the same one where the list has an odd length.
#[derive(Debug, Clone, Copy, PartialEq, Eq, Structural)]
pub struct Middle {
    pub low: u64,
    pub high: u64,
}

/// How often the posts of a creator are seen.
pub struct CreatorStats {
    pub avg_views: Average,
    pub median_views: Middle,
    pub most_viral_video_url: Option<String>,
    pub most_viral_video_views: Option<u64>,
}

/// All that one crawl of a creator finds.
pub struct CrawledCreator {
    pub snapshot: CreatorSnapshot,
    pub stats: CreatorStats,
    /// The average of the statistics, as a number.
    pub avg_views: Real,
    /// The median of the statistics, as a number.
    pub median_views: Real,
    pub latest_content: ExtractedContent,
    pub classification: AppClassification,
    /// The confidence of the classification, as a document.
    pub confidence_json: Json,
    pub scraped_at: Timestamp,
}

/// The mathematical reading of a `CrawledCreator`, as far as it is kept.
pub struct CrawlView {
    pub snapshot: SnapshotView,
    pub avg_views: Real,
    pub median_views: Real,
    pub most_viral_video_url: Option<Seq<char>>,
    pub most_viral_video_views: Option<u64>,
    pub latest_content: ContentView,
    pub classification: ClassificationView,
    pub confidence_json: JsonView,
    pub scraped_at: Timestamp,
}

impl View for CrawledCreator {
    type V = CrawlView;

    open spec fn view(&self) -> CrawlView {
        CrawlView {
            snapshot: self.snapshot@,
            avg_views: self.avg_views,
            median_views: self.median_views,
            most_viral_video_url: opt_text(self.stats.most_viral_video_url),
            most_viral_video_views: self.stats.most_viral_video_views,
            latest_content: self.latest_content@,
            classification: self.classification@,
            confidence_json: self.confidence_json@,
            scraped_at: self.scraped_at,
        }
    }
}

/// A creator that is to be crawled next.
pub struct QueueJob {
    pub handle: String,
    pub attempts: u32,
}

/// One row of the crawl queue, as it is shown.
pub struct QueueItem {
    pub handle: String,
    pub discovered_from: Option<String>,
    pub found_at: String,
    pub status: String,
    pub attempts: u32,
    pub last_error: Option<String>,
}

/// The mathematical reading of a `QueueItem`.
pub struct QueueItemView {
    pub handle: Seq<char>,
    pub discovered_from: Option<Seq<char>>,
    pub found_at: Seq<char>,
    pub status: Seq<char>,
    pub attempts: u32,
    pub last_error: Option<Seq<char>>,
}

impl View for QueueItem {
    type V = QueueItemView;

    open spec fn view(&self) -> QueueItemView {
        QueueItemView {
            handle: self.handle@,
            discovered_from: opt_text(self.discovered_from),
            found_at: self.found_at@,
            status: self.status@,
            attempts: self.attempts,
            last_error: opt_text(self.last_error),
        }
    }
}

} // verus!

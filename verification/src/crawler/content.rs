//! What is read of a creator's posts before the creator is classified.

use vstd::prelude::*;
use crate::models;
use crate::models::{
    AppClassification, ContentView, CreatorSnapshot, ExtractedContent, PostView, TiktokPost,
    TiktokPostKind, UNKNOWN_LANGUAGE,
};
use crate::lists;
use crate::numbers;
use crate::search;
use crate::services::openai::SECTION_BREAK;
use crate::text;

verus! {

/// How many posts a classification looks at.
pub const CLASSIFICATION_VIDEO_LIMIT: usize = 3;

// ---------------------------------------------------------------------------
// Which posts
// ---------------------------------------------------------------------------
/// The post is a video that is not pinned.
pub open spec fn is_fresh_video() -> spec_fn(PostView) -> bool {
    |p: PostView| p.kind == TiktokPostKind::Video && !p.is_pinned
}

/// The first posts that meet the condition, at most three.
pub open spec fn selected(posts: Seq<PostView>) -> Seq<PostView> {
    let fresh = posts.filter(is_fresh_video());
    if fresh.len() <= CLASSIFICATION_VIDEO_LIMIT {
        fresh
    } else {
        fresh.take(CLASSIFICATION_VIDEO_LIMIT as int)
    }
}

/// The views of posts that are held by reference.
pub open spec fn post_refs(posts: Seq<&TiktokPost>) -> Seq<PostView> {
    posts.map_values(|p: &TiktokPost| p@)
}

/// The posts that a classification looks at.
pub fn select_classification_posts(snapshot: &CreatorSnapshot) -> (r: Vec<&TiktokPost>)
    ensures
        post_refs(r@) == selected(snapshot@.videos),
        r@.len() <= CLASSIFICATION_VIDEO_LIMIT,
{
    let ghost all = snapshot@.videos;
    let ghost p = is_fresh_video();
    let mut r: Vec<&TiktokPost> = Vec::new();
    let mut i: usize = 0;
    proof {
        reveal(Seq::filter);
        assert(post_refs(r@) =~= all.take(0).filter(p));
    }
    while i < snapshot.videos.len() && r.len() < CLASSIFICATION_VIDEO_LIMIT
        invariant
            i <= snapshot.videos@.len(),
            all == snapshot@.videos,
            p == is_fresh_video(),
            r@.len() <= CLASSIFICATION_VIDEO_LIMIT,
            post_refs(r@) == all.take(i as int).filter(p),
        decreases snapshot.videos@.len() - i,
    {
        let ghost before = r@;
        let post: &TiktokPost = &snapshot.videos[i];
        proof {
            assert(all[i as int] == post@);
            assert(all.take(i + 1) =~= all.take(i as int).push(post@));
            search::lemma_filter_push(all.take(i as int), p, post@);
        }
        let video: bool = match post.kind {
            TiktokPostKind::Video => true,
            TiktokPostKind::Photo => false,
        };
        if video && !post.is_pinned {
            r.push(post);
            assert(post_refs(r@) =~= post_refs(before).push(post@));
        }
        i = i + 1;
    }
    proof {
        let seen = all.take(i as int).filter(p);
        lemma_filter_prefix(all, p, i as int);
        if i == all.len() {
            assert(all.take(i as int) =~= all);
        } else {
            assert(seen.len() == CLASSIFICATION_VIDEO_LIMIT);
        }
        assert(post_refs(r@) =~= selected(all));
    }
    r
}

/// What a filter keeps of a prefix is a prefix of what it keeps.
proof fn lemma_filter_prefix(s: Seq<PostView>, p: spec_fn(PostView) -> bool, n: int)
    requires
        0 <= n <= s.len(),
    ensures
        s.take(n).filter(p).len() <= s.filter(p).len(),
        s.filter(p).take(s.take(n).filter(p).len() as int) == s.take(n).filter(p),
    decreases s.len(),
{
    if n == s.len() {
        assert(s.take(n) =~= s);
        assert(s.filter(p).take(s.filter(p).len() as int) =~= s.filter(p));
    } else {
        let rest = s.drop_last();
        lemma_filter_prefix(rest, p, n);
        assert(rest.take(n) =~= s.take(n));
        assert(s =~= rest.push(s.last()));
        search::lemma_filter_push(rest, p, s.last());
        let k = s.take(n).filter(p).len() as int;
        assert(s.filter(p).take(k) =~= rest.filter(p).take(k));
    }
}

/// A classification looks at no pinned post and at no photo post, and at no
/// more posts than the limit.
pub proof fn law_selected_posts_are_fresh_videos(posts: Seq<PostView>, i: int)
    requires
        0 <= i < selected(posts).len(),
    ensures
        selected(posts)[i].kind == TiktokPostKind::Video,
        !selected(posts)[i].is_pinned,
        posts.contains(selected(posts)[i]),
        selected(posts).len() <= CLASSIFICATION_VIDEO_LIMIT,
{
    let fresh = posts.filter(is_fresh_video());
    crate::db::table::lemma_filter_members(posts, is_fresh_video());
    assert(selected(posts)[i] == fresh[i]);
}

// ---------------------------------------------------------------------------
// Images
// ---------------------------------------------------------------------------
/// The images of all posts, in the order of the posts.
pub open spec fn all_images(posts: Seq<PostView>) -> Seq<Seq<char>>
    decreases posts.len(),
{
    if posts.len() == 0 {
        Seq::empty()
    } else {
        all_images(posts.drop_last()) + posts.last().visual_image_urls
    }
}

/// The images of all posts.
pub fn collect_images(posts: &Vec<&TiktokPost>) -> (r: Vec<String>)
    ensures
        search::texts(r@) == all_images(post_refs(posts@)),
{
    let ghost all = post_refs(posts@);
    let mut r: Vec<String> = Vec::new();
    let mut i: usize = 0;
    assert(search::texts(r@) =~= all_images(all.take(0)));
    while i < posts.len()
        invariant
            i <= posts@.len(),
            all == post_refs(posts@),
            search::texts(r@) == all_images(all.take(i as int)),
        decreases posts@.len() - i,
    {
        proof {
            assert(all.take(i + 1).drop_last() =~= all.take(i as int));
            assert(all.take(i + 1).last() == posts@[i as int]@);
        }
        let ghost before = r@;
        let mut more: Vec<String> = models::copy_texts(&posts[i].visual_image_urls);
        let ghost added = more@;
        r.append(&mut more);
        assert(search::texts(r@) =~= search::texts(before) + search::texts(added));
        i = i + 1;
    }
    assert(all.take(i as int) =~= all);
    r
}

// ---------------------------------------------------------------------------
// One post
// ---------------------------------------------------------------------------
/// How a post is read.
pub enum PostReading {
    /// The speech at this address is written down.
    Transcribe(String),
    /// The text on the slides is read.
    ReadSlides,
}

/// Where the video of a post is found.
pub open spec fn video_source(post: PostView) -> Seq<char> {
    match post.source_url {
        Some(url) => url,
        None => post.url,
    }
}

/// How a post is read: a photo post by its slides, a video by its speech.
pub fn reading_of(post: &TiktokPost) -> (r: PostReading)
    ensures
        match r {
            PostReading::ReadSlides => post@.kind == TiktokPostKind::Photo,
            PostReading::Transcribe(url) => post@.kind == TiktokPostKind::Video && url@
                == video_source(post@),
        },
{
    match post.kind {
        TiktokPostKind::Photo => PostReading::ReadSlides,
        TiktokPostKind::Video => match &post.source_url {
            Some(url) => PostReading::Transcribe(url.clone()),
            None => PostReading::Transcribe(post.url.clone()),
        },
    }
}

/// The speech of a video together with its caption.
pub open spec fn spoken(transcript: ContentView, caption: Option<Seq<char>>) -> ContentView {
    models::normal_content(
        match models::non_blank(caption) {
            Some(_) => ContentView {
                text: "Transcript:\n"@ + transcript.text + "\n\nCaption:\n"@ + caption->0,
                language_code: transcript.language_code,
            },
            None => transcript,
        },
    )
}

/// The speech of a video together with its caption.
pub fn video_content(transcript: ExtractedContent, caption: &Option<String>) -> (r:
    ExtractedContent)
    ensures
        r@ == spoken(transcript@, models::opt_text(*caption)),
{
    let content: ExtractedContent = match caption {
        Some(c) => {
            let trimmed: String = text::trim_of(c.as_str());
            if text::empty(trimmed.as_str()) {
                transcript
            } else {
                let mut t: String = "Transcript:\n".to_string();
                t.append(transcript.text.as_str());
                t.append("\n\nCaption:\n");
                t.append(c.as_str());
                ExtractedContent { text: t, language_code: transcript.language_code }
            }
        },
        None => transcript,
    };
    content.normalized()
}

pub open spec fn bool_word(b: bool) -> Seq<char> {
    if b {
        "true"@
    } else {
        "false"@
    }
}

/// A post as a section of the content.
pub open spec fn section(index: nat, total: nat, post: PostView, t: Seq<char>) -> Seq<char> {
    "Post "@ + numbers::decimal(index + 1) + " of "@ + numbers::decimal(total) + "\nURL: "@
        + post.url + "\nViews: "@ + numbers::decimal(post.views as nat) + "\nPinned: "@
        + bool_word(post.is_pinned) + "\n"@ + t
}

/// A post as a section of the content.
pub fn format_post_content_section(index: usize, total: usize, post: &TiktokPost, content: &str) -> (r:
    String)
    requires
        index < usize::MAX,
    ensures
        r@ == section(index as nat, total as nat, post@, content@),
{
    let mut r: String = "Post ".to_string();
    r.append(numbers::decimal_of((index + 1) as u64).as_str());
    r.append(" of ");
    r.append(numbers::decimal_of(total as u64).as_str());
    r.append("\nURL: ");
    r.append(post.url.as_str());
    r.append("\nViews: ");
    r.append(numbers::decimal_of(post.views).as_str());
    r.append("\nPinned: ");
    r.append(
        if post.is_pinned {
            "true"
        } else {
            "false"
        },
    );
    r.append("\n");
    r.append(content);
    r
}

/// What stands for a post that could not be read: its caption, if it has one.
pub open spec fn fallback_section(index: nat, total: nat, post: PostView) -> Option<Seq<char>> {
    match models::non_blank(post.caption) {
        Some(caption) => Some(
            section(index, total, post, "Transcript unavailable.\n\nCaption:\n"@ + caption),
        ),
        None => None,
    }
}

/// What stands for a post that could not be read.
pub fn format_caption_fallback_section(index: usize, total: usize, post: &TiktokPost) -> (r: Option<
    String,
>)
    requires
        index < usize::MAX,
    ensures
        models::opt_text(r) == fallback_section(index as nat, total as nat, post@),
{
    match models::trimmed_opt(&post.caption) {
        Some(caption) => {
            let t: String = text::concat(
                "Transcript unavailable.\n\nCaption:\n",
                caption.as_str(),
            );
            Some(format_post_content_section(index, total, post, t.as_str()))
        },
        None => None,
    }
}

// ---------------------------------------------------------------------------
// All posts
// ---------------------------------------------------------------------------
/// What reading the posts gave; nothing where a post could not be read.
pub open spec fn reading_views(read: Seq<Option<ExtractedContent>>) -> Seq<Option<ContentView>> {
    read.map_values(
        |c: Option<ExtractedContent>|
            match c {
                Some(c) => Some(c@),
                None => None,
            },
    )
}

/// The section for the post at `i`.
pub open spec fn section_at(
    posts: Seq<PostView>,
    read: Seq<Option<ContentView>>,
    i: int,
) -> Option<Seq<char>> {
    match read[i] {
        Some(content) => Some(section(i as nat, posts.len(), posts[i], content.text)),
        None => fallback_section(i as nat, posts.len(), posts[i]),
    }
}

/// The sections for all posts.
pub open spec fn sections(posts: Seq<PostView>, read: Seq<Option<ContentView>>) -> Seq<
    Option<Seq<char>>,
> {
    Seq::new(posts.len(), |i: int| section_at(posts, read, i))
}

/// The first language that is known.
pub open spec fn first_language(read: Seq<Option<ContentView>>) -> Seq<char>
    decreases read.len(),
{
    if read.len() == 0 {
        UNKNOWN_LANGUAGE@
    } else {
        let earlier = first_language(read.drop_last());
        match read.last() {
            Some(content) => if earlier == UNKNOWN_LANGUAGE@ {
                content.language_code
            } else {
                earlier
            },
            None => earlier,
        }
    }
}

/// The content of all posts together.
pub open spec fn content_of(posts: Seq<PostView>, read: Seq<Option<ContentView>>) -> ContentView {
    if posts.len() == 0 {
        ContentView { text: Seq::empty(), language_code: UNKNOWN_LANGUAGE@ }
    } else {
        models::normal_content(
            ContentView {
                text: search::join(
                    lists::present(sections(posts, read)),
                    SECTION_BREAK@,
                ),
                language_code: first_language(read),
            },
        )
    }
}

/// Puts together what reading the posts gave. A post that could not be read is
/// stood for by its caption, and one without a caption is left out.
pub fn assemble_content(posts: &Vec<&TiktokPost>, read: &Vec<Option<ExtractedContent>>) -> (r:
    ExtractedContent)
    requires
        posts@.len() == read@.len(),
    ensures
        r@ == content_of(post_refs(posts@), reading_views(read@)),
{
    let ghost all = post_refs(posts@);
    let ghost outcomes = reading_views(read@);
    let ghost want = sections(all, outcomes);
    if posts.len() == 0 {
        let r: ExtractedContent = ExtractedContent::empty();
        assert(r.text@ =~= Seq::<char>::empty());
        return r;
    }
    let mut parts: Vec<String> = Vec::new();
    let mut language: String = UNKNOWN_LANGUAGE.to_string();
    let mut i: usize = 0;
    assert(search::texts(parts@) =~= lists::present(want.take(0)));
    while i < posts.len()
        invariant
            i <= posts@.len(),
            posts@.len() == read@.len(),
            all == post_refs(posts@),
            outcomes == reading_views(read@),
            want == sections(all, outcomes),
            search::texts(parts@) == lists::present(want.take(i as int)),
            language@ == first_language(outcomes.take(i as int)),
        decreases posts@.len() - i,
    {
        let ghost before = parts@;
        proof {
            assert(want.take(i + 1) =~= want.take(i as int).push(want[i as int]));
            lists::lemma_present_push(want.take(i as int), want[i as int]);
            assert(outcomes.take(i + 1).drop_last() =~= outcomes.take(i as int));
            assert(outcomes.take(i + 1).last() == outcomes[i as int]);
            assert(all[i as int] == posts@[i as int]@);
        }
        match &read[i] {
            Some(content) => {
                if text::same(language.as_str(), UNKNOWN_LANGUAGE) {
                    language = content.language_code.clone();
                }
                let part: String = format_post_content_section(
                    i,
                    posts.len(),
                    posts[i],
                    content.text.as_str(),
                );
                parts.push(part);
                assert(search::texts(parts@) =~= search::texts(before).push(part@));
            },
            None => {
                if let Some(part) = format_caption_fallback_section(i, posts.len(), posts[i]) {
                    parts.push(part);
                    assert(search::texts(parts@) =~= search::texts(before).push(part@));
                }
            },
        }
        i = i + 1;
    }
    proof {
        assert(want.take(i as int) =~= want);
        assert(outcomes.take(i as int) =~= outcomes);
    }
    let joined: ExtractedContent = ExtractedContent {
        text: search::join_with(&parts, SECTION_BREAK),
        language_code: language,
    };
    joined.normalized()
}

/// Where no post could be read and none has a caption, nothing is known of the
/// content.
pub proof fn law_unread_posts_give_nothing(posts: Seq<PostView>, read: Seq<Option<ContentView>>)
    requires
        posts.len() == read.len(),
        forall|i: int| 0 <= i < read.len() ==> #[trigger] read[i] is None,
        forall|i: int|
            0 <= i < posts.len() ==> models::non_blank((#[trigger] posts[i]).caption) is None,
    ensures
        content_of(posts, read).text.len() == 0,
        content_of(posts, read).language_code == UNKNOWN_LANGUAGE@,
{
    let want = sections(posts, read);
    lemma_nothing_present(want);
    lemma_no_language(read);
    models::law_language_idempotent(UNKNOWN_LANGUAGE@);
    reveal_strlit("UNKNOWN");
    let unknown = UNKNOWN_LANGUAGE@;
    text::lemma_trimmed(unknown, text::CharClass::White);
    assert(text::upper(unknown) =~= unknown);
}

proof fn lemma_nothing_present(s: Seq<Option<Seq<char>>>)
    requires
        forall|i: int| 0 <= i < s.len() ==> #[trigger] s[i] is None,
    ensures
        lists::present(s).len() == 0,
    decreases s.len(),
{
    if s.len() > 0 {
        let rest = s.drop_last();
        assert forall|i: int| 0 <= i < rest.len() implies #[trigger] rest[i] is None by {
            assert(rest[i] == s[i]);
        }
        lemma_nothing_present(rest);
        assert(s[s.len() - 1] is None);
    }
}

proof fn lemma_no_language(read: Seq<Option<ContentView>>)
    requires
        forall|i: int| 0 <= i < read.len() ==> #[trigger] read[i] is None,
    ensures
        first_language(read) == UNKNOWN_LANGUAGE@,
    decreases read.len(),
{
    if read.len() > 0 {
        let rest = read.drop_last();
        assert forall|i: int| 0 <= i < rest.len() implies #[trigger] rest[i] is None by {
            assert(rest[i] == read[i]);
        }
        lemma_no_language(rest);
        assert(read[read.len() - 1] is None);
    }
}

/// The content with the language that the classification found, where it found
/// one.
pub open spec fn in_language(content: ContentView, found: Seq<char>) -> ContentView {
    if found == UNKNOWN_LANGUAGE@ {
        content
    } else {
        ContentView { text: content.text, language_code: found }
    }
}

/// The content with the language that the classification found.
pub fn with_found_language(content: ExtractedContent, c: &AppClassification) -> (r:
    ExtractedContent)
    ensures
        r@ == in_language(content@, c@.language_code),
{
    if text::same(c.language_code.as_str(), UNKNOWN_LANGUAGE) {
        content
    } else {
        ExtractedContent { text: content.text, language_code: c.language_code.clone() }
    }
}

} // verus!

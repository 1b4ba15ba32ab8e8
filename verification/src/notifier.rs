//! Announcements: what is posted to a Discord webhook for an item, and when
//! a delivery is retried.

use vstd::prelude::*;

use crate::config::non_empty_of;
use crate::feed::{EmbedField, FeedItem, SourceKind};
use crate::text::{concat, trim, trimmed};
use crate::time::Timestamp;

verus! {

/// The embed colour of note.com items.
pub const NOTE_COLOR: u32 = 0x41c9b4;

/// The embed colour of YouTube items.
pub const YOUTUBE_COLOR: u32 = 0xff0000;

/// How many times a delivery is tried at most.
pub const MAX_ATTEMPTS: u32 = 3;

/// Where and as whom an item is announced.
pub struct NotifyTarget<'a> {
    pub webhook_url: &'a str,
    pub username: Option<&'a str>,
    pub mention: Option<&'a str>,
}

/// The author line of an embed.
pub struct EmbedAuthor {
    pub name: String,
    pub url: Option<String>,
    pub icon_url: Option<String>,
}

/// A Discord embed. Absent options are left out of the posted JSON, and so
/// is an empty list of fields.
pub struct Embed {
    pub title: String,
    pub url: String,
    pub color: u32,
    pub author: EmbedAuthor,
    pub footer: String,
    pub description: Option<String>,
    pub image: Option<String>,
    pub timestamp: Option<String>,
    pub fields: Vec<EmbedField>,
}

/// What is posted to the webhook: the embeds, and the user name and message
/// text where they are set.
pub struct WebhookPayload {
    pub embeds: Vec<Embed>,
    pub username: Option<String>,
    pub content: Option<String>,
}

/// Why an item cannot be announced.
#[derive(Debug)]
pub enum NotifyError {
    /// The target has no webhook.
    EmptyWebhookUrl,
}

/// What to do after the webhook answered with a status.
#[derive(Debug, Clone, Copy, PartialEq, Eq, Structural)]
pub enum Delivery {
    /// The item was delivered.
    Delivered,
    /// Rate limited: wait, then post again.
    RetryAfterWait,
    /// Give up and report the status.
    Failed,
}

/// The text cut to at most `max` characters: where it is longer, its first
/// `max - 1` characters and an ellipsis.
pub open spec fn truncated(s: Seq<char>, max: nat) -> Seq<char> {
    if s.len() <= max {
        s
    } else if max == 0 {
        seq!['\u{2026}']
    } else {
        s.take(max - 1) + seq!['\u{2026}']
    }
}

/// Cuts a text to at most `max` characters, marking the cut with `…`.
pub fn truncate(s: &str, max: usize) -> (r: String)
    ensures
        r@ == truncated(s@, max as nat),
{
    let n = s.unicode_len();
    if n <= max {
        return s.to_owned();
    }
    let keep = max.saturating_sub(1);
    let head = s.substring_char(0, keep);
    proof {
        reveal_strlit("\u{2026}");
    }
    concat(head, "\u{2026}")
}

/// A shown text stays within its limit whenever the limit allows any text.
pub proof fn lemma_truncated_fits(s: Seq<char>, max: nat)
    requires
        max >= 1,
    ensures
        truncated(s, max).len() <= max,
        s.len() <= max ==> truncated(s, max) == s,
        s.len() > max ==> truncated(s, max).take(max - 1) == s.take(max - 1),
        s.len() > max ==> truncated(s, max).len() == max && truncated(s, max)[max - 1] == '\u{2026}',
{
    if s.len() > max {
        assert((s.take(max - 1) + seq!['\u{2026}']).take(max - 1) =~= s.take(max - 1));
    }
}

/// The colour and footer of an item's source.
pub open spec fn source_style(source: SourceKind) -> (u32, Seq<char>) {
    match source {
        SourceKind::Note => (NOTE_COLOR, "note"@),
        SourceKind::Youtube => (YOUTUBE_COLOR, "YouTube"@),
    }
}

/// An optional text as its characters.
pub open spec fn opt_view(s: Option<String>) -> Option<Seq<char>> {
    match s {
        Some(v) => Some(v@),
        None => None,
    }
}

/// The description shown for an item: trimmed, where anything is left, and cut to 400 characters.
pub open spec fn shown_description(d: Option<String>) -> Option<Seq<char>> {
    match d {
        Some(v) => if trimmed(v@).len() > 0 {
            Some(truncated(trimmed(v@), 400))
        } else {
            None
        },
        None => None,
    }
}

/// The instant shown for an item, in RFC 3339.
pub open spec fn shown_timestamp(t: Option<Timestamp>) -> Option<Seq<char>> {
    match t {
        Some(t) => Some(t.rfc3339@),
        None => None,
    }
}

/// Whether an embed is the one announced for an item.
pub open spec fn embed_for(e: Embed, item: FeedItem) -> bool {
    &&& e.title@ == truncated(item.title@, 256)
    &&& e.url@ == item.url@
    &&& (e.color, e.footer@) == source_style(item.source)
    &&& e.author.name@ == item.author_name@
    &&& opt_view(e.author.url) == non_empty_of(item.author_url)
    &&& opt_view(e.author.icon_url) == non_empty_of(item.author_icon)
    &&& opt_view(e.description) == shown_description(item.description)
    &&& opt_view(e.image) == non_empty_of(item.thumbnail)
    &&& opt_view(e.timestamp) == shown_timestamp(item.published_at)
    &&& e.fields@ == item.fields@
}

/// An optional text, where it is present and not empty, copied.
fn copy_non_empty(s: &Option<String>) -> (r: Option<String>)
    ensures
        opt_view(r) == non_empty_of(*s),
{
    match s {
        Some(v) => if v.as_str().is_empty() {
            None
        } else {
            Some(v.clone())
        },
        None => None,
    }
}

/// A copy of the name/value lines.
fn copy_fields(fields: &Vec<EmbedField>) -> (r: Vec<EmbedField>)
    ensures
        r@ == fields@,
{
    let mut out: Vec<EmbedField> = Vec::new();
    let mut i: usize = 0;
    while i < fields.len()
        invariant
            i <= fields@.len(),
            out@ == fields@.take(i as int),
        decreases fields@.len() - i,
    {
        let f = &fields[i];
        out.push(EmbedField { name: f.name.clone(), value: f.value.clone() });
        assert(fields@.take(i + 1) =~= fields@.take(i as int).push(fields@[i as int]));
        i = i + 1;
    }
    assert(fields@.take(i as int) =~= fields@);
    out
}

/// The embed that announces an item.
pub fn build_embed(item: &FeedItem) -> (e: Embed)
    ensures
        embed_for(e, *item),
        e.url@ == item.url@,
        e.author.name@ == item.author_name@,
        e.fields@ == item.fields@,
        item.title@.len() <= 256 ==> e.title@ == item.title@,
        item.title@.len() > 256 ==> e.title@ == item.title@.take(255).push('\u{2026}'),
        item.source == SourceKind::Note ==> e.color == 0x41c9b4 && e.footer@ == "note"@,
        item.source == SourceKind::Youtube ==> e.color == 0xff0000 && e.footer@ == "YouTube"@,
        match item.published_at {
            Some(t) => e.timestamp matches Some(ts) && ts@ == t.rfc3339@,
            None => e.timestamp is None,
        },
        match item.thumbnail {
            Some(t) => if t@.len() > 0 {
                e.image matches Some(i) && i@ == t@
            } else {
                e.image is None
            },
            None => e.image is None,
        },
        match item.author_url {
            Some(u) => if u@.len() > 0 {
                e.author.url matches Some(x) && x@ == u@
            } else {
                e.author.url is None
            },
            None => e.author.url is None,
        },
        match item.author_icon {
            Some(u) => if u@.len() > 0 {
                e.author.icon_url matches Some(x) && x@ == u@
            } else {
                e.author.icon_url is None
            },
            None => e.author.icon_url is None,
        },
        match item.description {
            Some(d) => if trimmed(d@).len() > 0 {
                e.description matches Some(x) && x@.len() <= 400 && (trimmed(d@).len() <= 400 ==> x@
                    == trimmed(d@))
            } else {
                e.description is None
            },
            None => e.description is None,
        },
{
    proof {
        lemma_truncated_fits(item.title@, 256);
        if item.title@.len() > 256 {
            assert(item.title@.take(255) + seq!['\u{2026}'] =~= item.title@.take(255).push('\u{2026}'));
        }
        if item.description is Some {
            let d = item.description->0;
            lemma_truncated_fits(trimmed(d@), 400);
        }
    }
    let (color, footer) = match item.source {
        SourceKind::Note => (NOTE_COLOR, "note".to_owned()),
        SourceKind::Youtube => (YOUTUBE_COLOR, "YouTube".to_owned()),
    };
    let author = EmbedAuthor {
        name: item.author_name.clone(),
        url: copy_non_empty(&item.author_url),
        icon_url: copy_non_empty(&item.author_icon),
    };
    let description = match &item.description {
        Some(d) => {
            let t = trim(d.as_str());
            if t.is_empty() {
                None
            } else {
                Some(truncate(t, 400))
            }
        },
        None => None,
    };
    let timestamp = match &item.published_at {
        Some(t) => Some(t.rfc3339.clone()),
        None => None,
    };
    Embed {
        title: truncate(item.title.as_str(), 256),
        url: item.url.clone(),
        color,
        author,
        footer,
        description,
        image: copy_non_empty(&item.thumbnail),
        timestamp,
        fields: copy_fields(&item.fields),
    }
}

/// An optional borrowed text, copied.
fn own_opt(s: Option<&str>) -> (r: Option<String>)
    ensures
        match s {
            Some(v) => r matches Some(o) && o@ == v@,
            None => r is None,
        },
{
    match s {
        Some(v) => Some(v.to_owned()),
        None => None,
    }
}

/// The payload that announces an item to a target, or the reason it cannot:
/// a target without a webhook.
pub fn build_payload(target: &NotifyTarget, item: &FeedItem) -> (r: Result<WebhookPayload, NotifyError>)
    ensures
        target.webhook_url@.len() == 0 <==> r is Err,
        r matches Ok(p) ==> {
            &&& p.embeds@.len() == 1
            &&& embed_for(p.embeds@[0], *item)
            &&& match target.username {
                Some(v) => p.username matches Some(o) && o@ == v@,
                None => p.username is None,
            }
            &&& match target.mention {
                Some(v) => p.content matches Some(o) && o@ == v@,
                None => p.content is None,
            }
        },
{
    if target.webhook_url.is_empty() {
        return Err(NotifyError::EmptyWebhookUrl);
    }
    let mut embeds: Vec<Embed> = Vec::new();
    embeds.push(build_embed(item));
    Ok(WebhookPayload { embeds, username: own_opt(target.username), content: own_opt(target.mention) })
}

/// What to do after attempt number `attempt` (counted from 1) was answered
/// with HTTP status `status`: stop on success; post again after a rate limit
/// while attempts remain; give up otherwise.
pub fn after_response(attempt: u32, status: u16) -> (r: Delivery)
    ensures
        200 <= status <= 299 ==> r == Delivery::Delivered,
        status == 429 && attempt < MAX_ATTEMPTS ==> r == Delivery::RetryAfterWait,
        !(200 <= status <= 299) && !(status == 429 && attempt < MAX_ATTEMPTS) ==> r == Delivery::Failed,
{
    if 200 <= status && status <= 299 {
        Delivery::Delivered
    } else if status == 429 && attempt < MAX_ATTEMPTS {
        Delivery::RetryAfterWait
    } else {
        Delivery::Failed
    }
}

} // verus!

//! note.com creators: the posts that their contents API lists, and what of
//! them is announced.

use vstd::prelude::*;

use crate::feed::{FeedItem, SourceKind};
use crate::text::{concat, same_text};
use crate::time::{Timestamp, parsed_parts, relaxed_instant};

verus! {

/// The author of a post, as the contents API lists it.
pub struct NoteUser {
    pub nickname: String,
    pub urlname: String,
    pub profile_image: Option<String>,
}

/// A post, as the contents API lists it.
pub struct Note {
    pub key: String,
    pub name: String,
    pub note_url: String,
    pub status: String,
    pub description: Option<String>,
    pub eyecatch: Option<String>,
    pub publish_at: Option<Timestamp>,
    pub like_count: u64,
    pub comment_count: u64,
    pub user: NoteUser,
}

/// A `publishAt` value that is not a date-time.
#[derive(Debug)]
pub struct BadTimestamp;

/// Whether a post is public: its status is absent (empty) or `published`.
pub open spec fn is_public(n: Note) -> bool {
    n.status@.len() == 0 || n.status@ == "published"@
}

/// The page of a note.com creator.
pub open spec fn creator_page(urlname: Seq<char>) -> Seq<char> {
    "https://note.com/"@ + urlname
}

/// Whether an item is the one announced for a post.
pub open spec fn note_item(item: FeedItem, n: Note) -> bool {
    &&& item.id@ == n.key@
    &&& item.title@ == n.name@
    &&& item.url@ == n.note_url@
    &&& item.published_at == n.publish_at
    &&& item.author_name@ == n.user.nickname@
    &&& (if n.user.urlname@.len() > 0 {
        item.author_url matches Some(u) && u@ == creator_page(n.user.urlname@)
    } else {
        item.author_url is None
    })
    &&& item.author_icon == n.user.profile_image
    &&& item.description == n.description
    &&& item.thumbnail == n.eyecatch
    &&& item.source == SourceKind::Note
    &&& item.fields@.len() == 0
}

/// The public posts among a list, in the same order.
pub open spec fn public_notes(s: Seq<Note>) -> Seq<Note>
    decreases s.len(),
{
    if s.len() == 0 {
        s
    } else if is_public(s.last()) {
        public_notes(s.drop_last()).push(s.last())
    } else {
        public_notes(s.drop_last())
    }
}

/// The public posts are exactly the posts whose status is empty or
/// `published`, kept in their order.
pub proof fn lemma_public_notes_filter(s: Seq<Note>)
    ensures
        public_notes(s) == s.filter(|n: Note| n.status@.len() == 0 || n.status@ == "published"@),
    decreases s.len(),
{
    let pred = |n: Note| n.status@.len() == 0 || n.status@ == "published"@;
    reveal_with_fuel(Seq::filter, 1);
    if s.len() > 0 {
        lemma_public_notes_filter(s.drop_last());
        assert(pred(s.last()) == is_public(s.last()));
        assert(s.filter(pred) == (if pred(s.last()) {
            s.drop_last().filter(pred).push(s.last())
        } else {
            s.drop_last().filter(pred)
        }));
    } else {
        assert(s.filter(pred) == s);
    }
}

/// Reads a `publishAt` value as serde reads an optional `DateTime<FixedOffset>`:
/// absent stays absent, a date-time is parsed, anything else is refused.
pub fn read_publish_at(raw: Option<&str>) -> (r: Result<Option<Timestamp>, BadTimestamp>)
    ensures
        match raw {
            None => r matches Ok(t) && t is None,
            Some(s) => match relaxed_instant(s@) {
                Some(p) => r matches Ok(t) && parsed_parts(t) == Some(p),
                None => r is Err,
            },
        },
{
    match raw {
        None => Ok(None),
        Some(s) => match Timestamp::parse_relaxed(s) {
            Some(t) => Ok(Some(t)),
            None => Err(BadTimestamp),
        },
    }
}

impl Note {
    /// Whether the post is public.
    pub fn is_published(&self) -> (r: bool)
        ensures
            r == is_public(*self),
            r == (self.status@.len() == 0 || self.status@ == "published"@),
    {
        self.status.as_str().is_empty() || same_text(self.status.as_str(), "published")
    }

    /// The item that announces the post.
    pub fn into_item(self) -> (r: FeedItem)
        ensures
            note_item(r, self),
    {
        let author_url = if self.user.urlname.as_str().is_empty() {
            None
        } else {
            Some(concat("https://note.com/", self.user.urlname.as_str()))
        };
        FeedItem {
            id: self.key,
            title: self.name,
            url: self.note_url,
            published_at: self.publish_at,
            author_name: self.user.nickname,
            author_url,
            author_icon: self.user.profile_image,
            description: self.description,
            thumbnail: self.eyecatch,
            source: SourceKind::Note,
            fields: Vec::new(),
        }
    }
}

/// The items that announce the public posts of a list, in the list's order.
pub fn published_items(notes: Vec<Note>) -> (r: Vec<FeedItem>)
    ensures
        r@.len() == public_notes(notes@).len(),
        forall|i: int| 0 <= i < r@.len() ==> note_item(#[trigger] r@[i], public_notes(notes@)[i]),
        forall|i: int|
            0 <= i < r@.len() ==> {
                let item = #[trigger] r@[i];
                let n = public_notes(notes@)[i];
                &&& item.id@ == n.key@
                &&& item.title@ == n.name@
                &&& item.url@ == n.note_url@
                &&& item.published_at == n.publish_at
                &&& item.author_name@ == n.user.nickname@
                &&& item.description == n.description
                &&& item.thumbnail == n.eyecatch
                &&& item.source == SourceKind::Note
            },
        public_notes(notes@) == notes@.filter(|n: Note| n.status@.len() == 0 || n.status@ == "published"@),
{
    proof {
        lemma_public_notes_filter(notes@);
    }
    let ghost all = notes@;
    let n: usize = notes.len();
    let mut rest = notes;
    let mut out: Vec<FeedItem> = Vec::new();
    let mut k: usize = 0;
    assert(all.take(0) =~= Seq::<Note>::empty());
    assert(all.skip(0) =~= all);
    while rest.len() > 0
        invariant
            all.len() == n,
            k + rest@.len() == n,
            rest@ == all.skip(k as int),
            out@.len() == public_notes(all.take(k as int)).len(),
            forall|i: int|
                0 <= i < out@.len() ==> note_item(#[trigger] out@[i], public_notes(all.take(k as int))[i]),
        decreases rest.len(),
    {
        let note = rest.remove(0);
        proof {
            assert(all.take(k + 1).drop_last() =~= all.take(k as int));
            assert(all.take(k + 1).last() == all[k as int]);
            assert(rest@ =~= all.skip(k + 1));
        }
        if note.is_published() {
            out.push(note.into_item());
        }
        k = k + 1;
    }
    assert(all.take(k as int) =~= all);
    out
}

/// The contents API page that lists a creator's latest posts.
pub fn contents_url(urlname: &str) -> (r: String)
    ensures
        r@ == "https://note.com/api/v2/creators/"@ + urlname@ + "/contents?kind=note&page=1"@,
{
    let head = concat("https://note.com/api/v2/creators/", urlname);
    concat(head.as_str(), "/contents?kind=note&page=1")
}

} // verus!

//! YouTube channels: recognising and finding channel ids, and turning a
//! channel's Atom feed into feed items.

use vstd::prelude::*;

use crate::feed::{FeedItem, SourceKind};
use crate::text::{concat, same_text, chars_of, find_chars, first_occurrence, first_occurrence_from, has_prefix, occurs_at, strip_prefix};
use crate::time::{Timestamp, parsed_parts, rfc3339_instant};

verus! {

/// `char::is_ascii_alphanumeric`, or `-`, or `_`: the characters of a channel id.
pub open spec fn is_id_char(c: char) -> bool {
    ('0' <= c && c <= '9') || ('a' <= c && c <= 'z') || ('A' <= c && c <= 'Z') || c == '-' || c == '_'
}

fn id_char(c: char) -> (r: bool)
    ensures
        r == is_id_char(c),
{
    ('0' <= c && c <= '9') || ('a' <= c && c <= 'z') || ('A' <= c && c <= 'Z') || c == '-' || c == '_'
}

/// A channel id: `UC` and 22 more id characters.
pub open spec fn is_channel_id(s: Seq<char>) -> bool {
    &&& s.len() == 24
    &&& s[0] == 'U'
    &&& s[1] == 'C'
    &&& forall|k: int| 0 <= k < s.len() ==> is_id_char(#[trigger] s[k])
}

/// Every channel id that the resolver accepts, named directly or found on a
/// page, is `UC` followed by 22 id characters.
pub proof fn lemma_found_ids_are_channel_ids(input: Seq<char>, page: Seq<char>)
    ensures
        direct_channel_id_of(input) matches Some(id) ==> is_channel_id(id),
        page_channel_id(page) matches Some(id) ==> is_channel_id(id),
{
}

/// The id characters are exactly the ASCII letters and digits, `-` and `_`.
pub proof fn lemma_id_char_classes()
    ensures
        forall|c: char|
            #[trigger] is_id_char(c) <==> ('0' <= c <= '9') || ('a' <= c <= 'z') || ('A' <= c <= 'Z')
                || c == '-' || c == '_',
{
}

/// A bare channel id (`UC` and 22 ASCII letters, digits, `-` or `_`) is
/// recognised as itself, and so is one behind `https://www.youtube.com/channel/`
/// or `channel/`.
pub proof fn lemma_direct_forms(id: Seq<char>)
    ensures
        (id.len() == 24 && id[0] == 'U' && id[1] == 'C' && forall|k: int|
            0 <= k < 24 ==> ('0' <= #[trigger] id[k] <= '9') || ('a' <= id[k] <= 'z') || ('A' <= id[k]
                <= 'Z') || id[k] == '-' || id[k] == '_') ==> {
            &&& direct_channel_id_of(id) == Some(id)
            &&& direct_channel_id_of("https://www.youtube.com/channel/"@ + id) == Some(id)
            &&& direct_channel_id_of("channel/"@ + id) == Some(id)
        },
{
    if id.len() == 24 && id[0] == 'U' && id[1] == 'C' && forall|k: int|
        0 <= k < 24 ==> ('0' <= #[trigger] id[k] <= '9') || ('a' <= id[k] <= 'z') || ('A' <= id[k]
            <= 'Z') || id[k] == '-' || id[k] == '_' {
        reveal_strlit("https://www.youtube.com/channel/");
        reveal_strlit("channel/");
        let p1 = "https://www.youtube.com/channel/"@;
        let p2 = "channel/"@;
        assert(is_channel_id(id));
        assert(!has_prefix(id, p1));
        assert(id.subrange(0, p2.len() as int)[0] != p2[0]);
        assert(!has_prefix(id, p2));
        assert(direct_candidate(id) == id);
        assert((p1 + id).subrange(0, p1.len() as int) =~= p1);
        assert((p1 + id).skip(p1.len() as int) =~= id);
        assert(direct_candidate(p1 + id) == id);
        assert((p2 + id).subrange(0, p2.len() as int) =~= p2);
        assert((p2 + id).skip(p2.len() as int) =~= id);
        assert(!has_prefix(p2 + id, p1)) by {
            assert((p2 + id).subrange(0, p1.len() as int)[0] != p1[0]);
        }
        assert(direct_candidate(p2 + id) == id);
    }
}

/// The longest run of id characters at the start of `s`.
pub open spec fn id_run(s: Seq<char>) -> Seq<char>
    decreases s.len(),
{
    if s.len() > 0 && is_id_char(s[0]) {
        seq![s[0]] + id_run(s.drop_first())
    } else {
        Seq::empty()
    }
}

/// What is left of an input once a channel URL prefix or `channel/` is taken off.
pub open spec fn direct_candidate(input: Seq<char>) -> Seq<char> {
    if has_prefix(input, "https://www.youtube.com/channel/"@) {
        input.skip("https://www.youtube.com/channel/"@.len() as int)
    } else if has_prefix(input, "channel/"@) {
        input.skip("channel/"@.len() as int)
    } else {
        input
    }
}

/// The channel id that an input names by itself, with no page to load.
pub open spec fn direct_channel_id_of(input: Seq<char>) -> Option<Seq<char>> {
    if is_channel_id(direct_candidate(input)) {
        Some(direct_candidate(input))
    } else {
        None
    }
}

/// Recognises an input that already is a channel id, bare or behind
/// `https://www.youtube.com/channel/` or `channel/`.
pub fn direct_channel_id(input: &str) -> (r: Option<String>)
    ensures
        match r {
            Some(id) => direct_channel_id_of(input@) == Some(id@),
            None => direct_channel_id_of(input@) is None,
        },
        (input@.len() == 24 && input@[0] == 'U' && input@[1] == 'C' && forall|k: int|
            0 <= k < 24 ==> ('0' <= #[trigger] input@[k] <= '9') || ('a' <= input@[k] <= 'z') || (
            'A' <= input@[k] <= 'Z') || input@[k] == '-' || input@[k] == '_') ==> (r matches Some(id)
            && id@ == input@),
        r matches Some(id) ==> (id@.len() == 24 && id@[0] == 'U' && id@[1] == 'C' && forall|k: int|
            0 <= k < 24 ==> ('0' <= #[trigger] id@[k] <= '9') || ('a' <= id@[k] <= 'z') || ('A'
                <= id@[k] <= 'Z') || id@[k] == '-' || id@[k] == '_'),
{
    proof {
        lemma_id_char_classes();
        lemma_direct_forms(input@);
    }
    let s = match strip_prefix(input, "https://www.youtube.com/channel/") {
        Some(rest) => rest,
        None => match strip_prefix(input, "channel/") {
            Some(rest) => rest,
            None => input,
        },
    };
    assert(s@ == direct_candidate(input@));
    let v = chars_of(s);
    if v.len() != 24 || v[0] != 'U' || v[1] != 'C' {
        return None;
    }
    let mut k: usize = 0;
    while k < v.len()
        invariant
            k <= v@.len(),
            v@ == s@,
            s@ == direct_candidate(input@),
            forall|q: int| 0 <= q < k ==> is_id_char(#[trigger] v@[q]),
        decreases v@.len() - k,
    {
        if !id_char(v[k]) {
            assert(!is_id_char(s@[k as int]));
            return None;
        }
        k = k + 1;
    }
    Some(s.to_owned())
}


/// The channel id that follows the first occurrence of `marker` in a page,
/// where the run of id characters there is a channel id.
pub open spec fn id_after_marker(page: Seq<char>, marker: Seq<char>) -> Option<Seq<char>> {
    match first_occurrence(page, marker) {
        Some(p) => {
            let id = id_run(page.skip(p + marker.len()));
            if is_channel_id(id) {
                Some(id)
            } else {
                None
            }
        },
        None => None,
    }
}

/// The channel id that a channel page gives: the one after its canonical
/// link, else the one after the first `youtube.com/channel/`.
pub open spec fn page_channel_id(page: Seq<char>) -> Option<Seq<char>> {
    match id_after_marker(page, "rel=\"canonical\" href=\"https://www.youtube.com/channel/"@) {
        Some(id) => Some(id),
        None => id_after_marker(page, "youtube.com/channel/"@),
    }
}

/// The id characters in `s` from `start`, as `id_run` says.
proof fn lemma_id_run_step(s: Seq<char>, start: int, i: int)
    requires
        0 <= start <= i < s.len(),
        is_id_char(s[i]),
        id_run(s.skip(start)) == s.subrange(start, i) + id_run(s.skip(i)),
    ensures
        id_run(s.skip(start)) == s.subrange(start, i + 1) + id_run(s.skip(i + 1)),
{
    assert(s.skip(i).drop_first() =~= s.skip(i + 1));
    assert(s.skip(i)[0] == s[i]);
    assert(s.subrange(start, i) + (seq![s[i]] + id_run(s.skip(i + 1))) =~= s.subrange(start, i + 1)
        + id_run(s.skip(i + 1)));
}

/// The run of id characters of an id followed by a text that does not go on
/// with an id character is that id.
proof fn lemma_id_run_of_id(id: Seq<char>, rest: Seq<char>)
    requires
        forall|k: int| 0 <= k < id.len() ==> is_id_char(#[trigger] id[k]),
        rest.len() == 0 || !is_id_char(rest[0]),
    ensures
        id_run(id + rest) == id,
    decreases id.len(),
{
    if id.len() == 0 {
        assert(id + rest =~= rest);
    } else {
        assert((id + rest)[0] == id[0]);
        assert((id + rest).drop_first() =~= id.drop_first() + rest);
        lemma_id_run_of_id(id.drop_first(), rest);
        assert(seq![id[0]] + id.drop_first() =~= id);
    }
}

/// The first occurrence is the first position where the text occurs.
proof fn lemma_first_occurrence_is(h: Seq<char>, m: Seq<char>, from: int, at: int)
    requires
        0 <= from <= at,
        occurs_at(h, m, at),
        forall|q: int| from <= q < at ==> !occurs_at(h, m, q),
    ensures
        first_occurrence_from(h, m, from) == Some(at),
    decreases at - from,
{
    if from < at {
        lemma_first_occurrence_is(h, m, from + 1, at);
    }
}

/// A page whose first canonical link is to `https://www.youtube.com/channel/`
/// and a channel id (`UC` and 22 ASCII letters, digits, `-` or `_`, not
/// followed by another such character) gives that id.
pub proof fn lemma_canonical_link(before: Seq<char>, id: Seq<char>, rest: Seq<char>)
    requires
        id.len() == 24,
        id[0] == 'U',
        id[1] == 'C',
        forall|k: int|
            0 <= k < 24 ==> ('0' <= #[trigger] id[k] <= '9') || ('a' <= id[k] <= 'z') || ('A' <= id[k] <= 'Z')
                || id[k] == '-' || id[k] == '_',
        rest.len() == 0 || !(('0' <= rest[0] <= '9') || ('a' <= rest[0] <= 'z') || ('A' <= rest[0] <= 'Z')
            || rest[0] == '-' || rest[0] == '_'),
        forall|q: int|
            0 <= q < before.len() ==> !occurs_at(
                before + "rel=\"canonical\" href=\"https://www.youtube.com/channel/"@ + id + rest,
                "rel=\"canonical\" href=\"https://www.youtube.com/channel/"@,
                q,
            ),
    ensures
        page_channel_id(before + "rel=\"canonical\" href=\"https://www.youtube.com/channel/"@ + id + rest)
            == Some(id),
{
    let m = "rel=\"canonical\" href=\"https://www.youtube.com/channel/"@;
    let page = before + m + id + rest;
    let b = before.len() as int;
    assert(page.subrange(b, b + m.len()) =~= m);
    lemma_first_occurrence_is(page, m, 0, b);
    assert(page.skip(b + m.len()) =~= id + rest);
    lemma_id_run_of_id(id, rest);
}

/// Looks for the channel id after the first occurrence of `marker`.
fn id_after(page: &str, chars: &Vec<char>, marker: &str) -> (r: Option<String>)
    requires
        chars@ == page@,
    ensures
        match r {
            Some(id) => id_after_marker(page@, marker@) == Some(id@),
            None => id_after_marker(page@, marker@) is None,
        },
{
    let m = chars_of(marker);
    let p = match find_chars(chars, &m) {
        Some(p) => p,
        None => return None,
    };
    let n: usize = chars.len();
    assert(p + m@.len() <= n);
    let start = p + m.len();
    let mut i: usize = start;
    assert(page@.subrange(start as int, start as int) =~= Seq::<char>::empty());
    while i < chars.len() && id_char(chars[i])
        invariant
            start <= i <= chars@.len(),
            chars@ == page@,
            id_run(page@.skip(start as int)) == page@.subrange(start as int, i as int) + id_run(
                page@.skip(i as int),
            ),
            forall|q: int| start <= q < i ==> is_id_char(#[trigger] page@[q]),
        decreases chars@.len() - i,
    {
        proof {
            lemma_id_run_step(page@, start as int, i as int);
        }
        i = i + 1;
    }
    proof {
        if i < chars.len() {
            assert(page@.skip(i as int)[0] == page@[i as int]);
        }
        assert(id_run(page@.skip(i as int)) =~= Seq::<char>::empty());
        assert(id_run(page@.skip(start as int)) =~= page@.subrange(start as int, i as int));
    }
    let ghost id = page@.subrange(start as int, i as int);
    if i - start != 24 || chars[start] != 'U' || chars[start + 1] != 'C' {
        return None;
    }
    assert forall|k: int| 0 <= k < id.len() implies is_id_char(#[trigger] id[k]) by {
        assert(id[k] == page@[start + k]);
    }
    Some(page.substring_char(start, i).to_owned())
}

/// Finds a channel id in a channel page: the one after the canonical link,
/// else the one after the first `youtube.com/channel/`.
pub fn extract_channel_id(html: &str) -> (r: Option<String>)
    ensures
        match r {
            Some(id) => page_channel_id(html@) == Some(id@),
            None => page_channel_id(html@) is None,
        },
{
    let chars = chars_of(html);
    match id_after(html, &chars, "rel=\"canonical\" href=\"https://www.youtube.com/channel/") {
        Some(id) => Some(id),
        None => id_after(html, &chars, "youtube.com/channel/"),
    }
}


/// One `<entry>` of a channel's Atom feed.
pub struct Entry {
    pub id: String,
    pub title: String,
    pub published: String,
}

/// A channel's Atom feed: its title and its entries.
pub struct Feed {
    pub title: String,
    pub entries: Vec<Entry>,
}

/// The video id of an entry id: what follows `yt:video:`, or the whole id.
pub open spec fn video_id_of(id: Seq<char>) -> Seq<char> {
    if has_prefix(id, "yt:video:"@) {
        id.skip("yt:video:"@.len() as int)
    } else {
        id
    }
}

impl Entry {
    /// The entry's video id.
    pub fn video_id(&self) -> (r: &str)
        ensures
            r@ == video_id_of(self.id@),
            self.id@ == "yt:video:"@ + r@ || (r@ == self.id@ && !has_prefix(self.id@, "yt:video:"@)),
    {
        proof {
            if has_prefix(self.id@, "yt:video:"@) {
                assert(self.id@ =~= self.id@.subrange(0, "yt:video:"@.len() as int) + self.id@.skip(
                    "yt:video:"@.len() as int,
                ));
            }
        }
        match strip_prefix(self.id.as_str(), "yt:video:") {
            Some(rest) => rest,
            None => self.id.as_str(),
        }
    }
}

/// What the watcher announces for one feed entry of a channel.
pub open spec fn video_item(item: FeedItem, channel_id: Seq<char>, channel_title: Seq<char>, e: Entry) -> bool {
    let vid = video_id_of(e.id@);
    &&& item.id@ == vid
    &&& item.title@ == e.title@
    &&& item.url@ == "https://www.youtube.com/watch?v="@ + vid
    &&& parsed_parts(item.published_at) == rfc3339_instant(e.published@)
    &&& item.author_name@ == channel_title
    &&& item.author_url matches Some(u) && u@ == "https://www.youtube.com/channel/"@ + channel_id
    &&& item.author_icon is None
    &&& item.description is None
    &&& item.thumbnail matches Some(t) && t@ == "https://i.ytimg.com/vi/"@ + vid + "/hqdefault.jpg"@
    &&& item.source == SourceKind::Youtube
    &&& item.fields@.len() == 0
}

/// The feed items of a channel's feed, one per entry and in the same order.
pub fn feed_items(channel_id: &str, feed: &Feed) -> (r: Vec<FeedItem>)
    ensures
        r@.len() == feed.entries@.len(),
        forall|i: int|
            0 <= i < r@.len() ==> video_item(#[trigger] r@[i], channel_id@, feed.title@, feed.entries@[i]),
        forall|i: int|
            0 <= i < r@.len() ==> {
                let item = #[trigger] r@[i];
                let e = feed.entries@[i];
                &&& item.title@ == e.title@
                &&& item.author_name@ == feed.title@
                &&& (e.id@ == "yt:video:"@ + item.id@ || (item.id@ == e.id@ && !has_prefix(e.id@, "yt:video:"@)))
                &&& item.url@ == "https://www.youtube.com/watch?v="@ + item.id@
                &&& item.thumbnail matches Some(t) && t@ == "https://i.ytimg.com/vi/"@ + item.id@ + "/hqdefault.jpg"@
                &&& item.author_url matches Some(u) && u@ == "https://www.youtube.com/channel/"@ + channel_id@
                &&& parsed_parts(item.published_at) == rfc3339_instant(e.published@)
                &&& item.author_icon is None
                &&& item.description is None
                &&& item.source == SourceKind::Youtube
                &&& item.fields@.len() == 0
            },
{
    let channel_url = concat("https://www.youtube.com/channel/", channel_id);
    let mut items: Vec<FeedItem> = Vec::new();
    let mut i: usize = 0;
    proof {
        assert forall|id: Seq<char>| has_prefix(id, "yt:video:"@) implies id == "yt:video:"@ + id.skip(
            "yt:video:"@.len() as int,
        ) by {
            assert(id.subrange(0, "yt:video:"@.len() as int) == "yt:video:"@);
            assert(id =~= id.subrange(0, "yt:video:"@.len() as int) + id.skip("yt:video:"@.len() as int));
        }
    }
    while i < feed.entries.len()
        invariant
            i <= feed.entries@.len(),
            items@.len() == i,
            channel_url@ == "https://www.youtube.com/channel/"@ + channel_id@,
            forall|k: int|
                0 <= k < i ==> video_item(#[trigger] items@[k], channel_id@, feed.title@, feed.entries@[k]),
        decreases feed.entries@.len() - i,
    {
        let e = &feed.entries[i];
        let vid = e.video_id();
        let thumb_head = concat("https://i.ytimg.com/vi/", vid);
        let item = FeedItem {
            url: concat("https://www.youtube.com/watch?v=", vid),
            thumbnail: Some(concat(thumb_head.as_str(), "/hqdefault.jpg")),
            id: vid.to_owned(),
            title: e.title.clone(),
            published_at: Timestamp::parse_rfc3339(e.published.as_str()),
            author_name: feed.title.clone(),
            author_url: Some(channel_url.clone()),
            author_icon: None,
            description: None,
            source: SourceKind::Youtube,
            fields: Vec::new(),
        };
        items.push(item);
        i = i + 1;
    }
    items
}

/// The page that names the channel of a handle or URL: the URL itself,
/// or the handle's page (with `@` put in front where it is missing).
pub open spec fn channel_page_url_of(input: Seq<char>) -> Seq<char> {
    if has_prefix(input, "http"@) {
        input
    } else if has_prefix(input, "@"@) {
        "https://www.youtube.com/"@ + input
    } else {
        "https://www.youtube.com/@"@ + input
    }
}

/// The page to load to find the channel id of a handle or URL.
pub fn channel_page_url(input: &str) -> (r: String)
    ensures
        r@ == channel_page_url_of(input@),
        has_prefix(input@, "http"@) ==> r@ == input@,
        !has_prefix(input@, "http"@) && input@.len() > 0 && input@[0] == '@' ==> r@
            == "https://www.youtube.com/"@ + input@,
        !has_prefix(input@, "http"@) && !(input@.len() > 0 && input@[0] == '@') ==> r@
            == "https://www.youtube.com/@"@ + input@,
{
    proof {
        reveal_strlit("@");
        if input@.len() > 0 && input@[0] == '@' {
            assert(input@.subrange(0, 1) =~= "@"@);
        }
        if has_prefix(input@, "@"@) {
            assert(input@.subrange(0, 1)[0] == input@[0]);
        }
    }
    if strip_prefix(input, "http").is_some() {
        input.to_owned()
    } else if strip_prefix(input, "@").is_some() {
        concat("https://www.youtube.com/", input)
    } else {
        concat("https://www.youtube.com/@", input)
    }
}

/// The Atom feed of a channel.
pub fn feed_url(channel_id: &str) -> (r: String)
    ensures
        r@ == "https://www.youtube.com/feeds/videos.xml?channel_id="@ + channel_id@,
{
    concat("https://www.youtube.com/feeds/videos.xml?channel_id=", channel_id)
}

/// The key under which the state remembers a channel.
pub fn state_key(channel_id: &str) -> (r: String)
    ensures
        r@ == "youtube:"@ + channel_id@,
{
    concat("youtube:", channel_id)
}


/// The id remembered for an input in a list of (input, channel id) pairs:
/// that of the last pair for the input.
pub open spec fn remembered(pairs: Seq<(String, String)>, input: Seq<char>) -> Option<Seq<char>>
    decreases pairs.len(),
{
    if pairs.len() == 0 {
        None
    } else if pairs.last().0@ == input {
        Some(pairs.last().1@)
    } else {
        remembered(pairs.drop_last(), input)
    }
}

/// Resolves what a configuration names as a channel (an id, a channel URL, a
/// handle or a handle URL) to a channel id, remembering the ids it had to
/// look up on a channel page.
pub struct ChannelResolver {
    resolved: Vec<(String, String)>,
}

impl ChannelResolver {
    /// The id remembered for an input.
    pub closed spec fn remembered_id(&self, input: Seq<char>) -> Option<Seq<char>> {
        remembered(self.resolved@, input)
    }

    /// A resolver that remembers nothing.
    pub fn new() -> (r: ChannelResolver)
        ensures
            forall|input: Seq<char>| #[trigger] r.remembered_id(input) is None,
    {
        ChannelResolver { resolved: Vec::new() }
    }

    /// The channel id of an input where no page needs to be loaded: the input
    /// itself is one, or an earlier lookup found it.
    pub fn known(&self, input: &str) -> (r: Option<String>)
        ensures
            match direct_channel_id_of(input@) {
                Some(id) => r matches Some(s) && s@ == id,
                None => match self.remembered_id(input@) {
                    Some(id) => r matches Some(s) && s@ == id,
                    None => r is None,
                },
            },
    {
        if let Some(id) = direct_channel_id(input) {
            return Some(id);
        }
        let mut i = self.resolved.len();
        assert(self.resolved@.take(i as int) =~= self.resolved@);
        while i > 0
            invariant
                i <= self.resolved@.len(),
                direct_channel_id_of(input@) is None,
                remembered(self.resolved@, input@) == remembered(self.resolved@.take(i as int), input@),
            decreases i,
        {
            let ghost pre = self.resolved@.take(i as int);
            assert(pre.drop_last() =~= self.resolved@.take(i - 1));
            assert(pre.last() == self.resolved@[i - 1]);
            if same_text(self.resolved[i - 1].0.as_str(), input) {
                return Some(self.resolved[i - 1].1.clone());
            }
            i = i - 1;
        }
        None
    }

    /// Reads the channel id off a loaded channel page and, where there is
    /// one, remembers it for the input.
    pub fn learn(&mut self, input: &str, page: &str) -> (r: Option<String>)
        ensures
            match r {
                Some(id) => page_channel_id(page@) == Some(id@),
                None => page_channel_id(page@) is None,
            },
            r matches Some(id) ==> final(self).remembered_id(input@) == Some(id@),
            forall|other: Seq<char>|
                other != input@ || r is None ==> #[trigger] final(self).remembered_id(other)
                    == old(self).remembered_id(other),
    {
        let found = extract_channel_id(page);
        match found {
            Some(id) => {
                let ghost before = self.resolved@;
                self.resolved.push((input.to_owned(), id.clone()));
                proof {
                    assert(self.resolved@.drop_last() =~= before);
                }
                Some(id)
            },
            None => None,
        }
    }
}

} // verus!

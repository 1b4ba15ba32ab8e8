//! One poll of one creator: which of the fetched items are announced, and
//! what the state remembers afterwards.

use vstd::prelude::*;

use crate::config::{Config, Watch, YoutubeWatch};
use crate::feed::{FeedItem, sort_by_published, sorted_by_published};
use crate::notifier::NotifyTarget;
use crate::state::State;

verus! {

/// Whether a post id is that of one of the items.
pub open spec fn among_ids(items: Seq<FeedItem>, id: Seq<char>) -> bool {
    exists|i: int| 0 <= i < items.len() && (#[trigger] items[i]).id@ == id
}

/// Whether the creator with a state key had the post with an id handled.
pub open spec fn seen_in(state: State, key: Seq<char>, id: Seq<char>) -> bool {
    state.creator(key) matches Some(c) && c.has_seen(id)
}

/// Whether a poll of the creator with a state key is its first: nothing is
/// remembered of it, or its existing posts were never taken in.
pub open spec fn is_first_poll(state: State, key: Seq<char>) -> bool {
    !(state.creator(key) matches Some(c) && c.initialized)
}

/// Two lists with the same items have the same ids.
proof fn lemma_same_ids(a: Seq<FeedItem>, b: Seq<FeedItem>)
    requires
        a.to_multiset() == b.to_multiset(),
    ensures
        forall|id: Seq<char>| #[trigger] among_ids(a, id) <==> among_ids(b, id),
{
    broadcast use vstd::seq_lib::group_to_multiset_ensures;

    assert forall|id: Seq<char>| #[trigger] among_ids(a, id) implies among_ids(b, id) by {
        let i = choose|i: int| 0 <= i < a.len() && (#[trigger] a[i]).id@ == id;
        assert(a.contains(a[i]));
        assert(a.to_multiset().count(a[i]) > 0);
        assert(b.to_multiset().count(a[i]) > 0);
        let j = choose|j: int| 0 <= j < b.len() && b[j] == a[i];
        assert(b[j].id@ == id);
    }
    assert forall|id: Seq<char>| #[trigger] among_ids(b, id) implies among_ids(a, id) by {
        let i = choose|i: int| 0 <= i < b.len() && (#[trigger] b[i]).id@ == id;
        assert(b.contains(b[i]));
        assert(b.to_multiset().count(b[i]) > 0);
        assert(a.to_multiset().count(b[i]) > 0);
        let j = choose|j: int| 0 <= j < a.len() && a[j] == b[i];
        assert(a[j].id@ == id);
    }
}

/// One poll of one creator, between fetching its items and announcing them.
///
/// On the first poll of a creator its items are all recorded as handled and
/// none is announced, unless the configuration asks for announcements on
/// the first run; then every item is announced once and no outcome is recorded.
/// On a later poll, each item not yet handled is announced in publication
/// order, and recorded as handled once its announcement has been delivered.
pub struct Round {
    key: String,
    items: Vec<FeedItem>,
    first_run: bool,
    announce_all: bool,
    cursor: usize,
}

impl Round {
    /// The creator's state key.
    pub closed spec fn key_view(&self) -> Seq<char> {
        self.key@
    }

    /// The fetched items, in publication order.
    pub closed spec fn items_view(&self) -> Seq<FeedItem> {
        self.items@
    }

    /// Whether this is the creator's first poll.
    pub closed spec fn first_run_view(&self) -> bool {
        self.first_run
    }

    /// Whether every item is announced regardless of what was handled.
    pub closed spec fn announce_all_view(&self) -> bool {
        self.announce_all
    }

    /// How far the announcements have got.
    pub closed spec fn cursor_view(&self) -> nat {
        self.cursor as nat
    }

    /// Starts the poll of the creator with state key `key` that fetched
    /// `items`. On its first poll the creator's items are recorded as
    /// handled and the creator as initialized.
    pub fn start(state: &mut State, key: &str, items: Vec<FeedItem>, notify_on_first_run: bool) -> (r: Round)
        ensures
            r.key_view() == key@,
            r.items_view() == sorted_by_published(items@),
            r.cursor_view() == 0,
            r.first_run_view() == is_first_poll(*old(state), key@),
            r.announce_all_view() == (r.first_run_view() && notify_on_first_run),
            r.first_run_view() ==> {
                &&& final(state).creator(key@) matches Some(c) && c.initialized
                &&& forall|id: Seq<char>|
                    #[trigger] seen_in(*final(state), key@, id) <==> seen_in(*old(state), key@, id)
                        || among_ids(items@, id)
            },
            !r.first_run_view() ==> final(state).creator(key@) == old(state).creator(key@),
            forall|other: Seq<char>|
                other != key@ ==> #[trigger] final(state).creator(other) == old(state).creator(other),
    {
        let sorted = sort_by_published(items);
        proof {
            crate::feed::lemma_sorted_by_published(items@);
        }
        let ghost before = *state;
        let cs = state.creator_mut(key);
        let first_run = !cs.initialized;
        assert(forall|id: Seq<char>| #[trigger] cs.has_seen(id) <==> (before.creator(key@) matches Some(c) && c.has_seen(id)));
        if first_run {
            let ghost prev = *cs;
            cs.initialized = true;
            assert(cs.seen_keys@ == prev.seen_keys@);
            assert forall|id: Seq<char>| #[trigger] cs.has_seen(id) <==> prev.has_seen(id) by {
                if prev.has_seen(id) {
                    let j = choose|j: int| 0 <= j < prev.seen_keys@.len() && (#[trigger] prev.seen_keys@[j])@ == id;
                    assert(cs.seen_keys@[j] == prev.seen_keys@[j]);
                }
            }
            let mut i: usize = 0;
            while i < sorted.len()
                invariant
                    i <= sorted@.len(),
                    cs.initialized,
                    forall|id: Seq<char>|
                        #[trigger] cs.has_seen(id) <==> (before.creator(key@) matches Some(c) && c.has_seen(id))
                            || exists|j: int| 0 <= j < i && (#[trigger] sorted@[j]).id@ == id,
                decreases sorted@.len() - i,
            {
                cs.insert_seen(sorted[i].id.as_str());
                i = i + 1;
            }
            proof {
                lemma_same_ids(sorted@, items@);
                assert forall|id: Seq<char>| #[trigger] cs.has_seen(id) <==> (before.creator(key@) matches Some(c)
                    && c.has_seen(id)) || among_ids(items@, id) by {
                    assert(among_ids(sorted@, id) <==> exists|j: int| 0 <= j < i && (#[trigger] sorted@[j]).id@ == id);
                }
            }
        }
        Round { key: key.to_owned(), items: sorted, first_run, announce_all: first_run && notify_on_first_run, cursor: 0 }
    }

    /// Whether this is the creator's first poll.
    pub fn is_first_run(&self) -> (r: bool)
        ensures
            r == self.first_run_view(),
    {
        self.first_run
    }

    /// How many items the poll fetched.
    pub fn item_count(&self) -> (r: usize)
        ensures
            r == self.items_view().len(),
    {
        self.items.len()
    }

    /// The item at a position, in publication order.
    pub fn item(&self, index: usize) -> (r: Option<&FeedItem>)
        ensures
            index < self.items_view().len() ==> r == Some(&self.items_view()[index as int]),
            index >= self.items_view().len() ==> r is None,
    {
        if index < self.items.len() {
            Some(&self.items[index])
        } else {
            None
        }
    }

    /// The position of the next item to announce, given what `state`
    /// remembers; `None` once there is nothing more to announce.
    pub fn next_to_announce(&mut self, state: &State) -> (r: Option<usize>)
        ensures
            final(self).key_view() == old(self).key_view(),
            final(self).items_view() == old(self).items_view(),
            final(self).first_run_view() == old(self).first_run_view(),
            final(self).announce_all_view() == old(self).announce_all_view(),
            old(self).first_run_view() ==> {
                if old(self).announce_all_view() && old(self).cursor_view() < old(self).items_view().len() {
                    r == Some(old(self).cursor_view() as usize) && final(self).cursor_view() == old(self).cursor_view() + 1
                } else {
                    r is None
                }
            },
            !old(self).first_run_view() ==> match r {
                Some(i) => {
                    &&& old(self).cursor_view() <= i < old(self).items_view().len()
                    &&& !seen_in(*state, old(self).key_view(), old(self).items_view()[i as int].id@)
                    &&& forall|j: int|
                        old(self).cursor_view() <= j < i ==> seen_in(
                            *state,
                            old(self).key_view(),
                            (#[trigger] old(self).items_view()[j]).id@,
                        )
                    &&& final(self).cursor_view() == i + 1
                },
                None => forall|j: int|
                    old(self).cursor_view() <= j < old(self).items_view().len() ==> seen_in(
                        *state,
                        old(self).key_view(),
                        (#[trigger] old(self).items_view()[j]).id@,
                    ),
            },
    {
        if self.first_run {
            if self.announce_all && self.cursor < self.items.len() {
                let i = self.cursor;
                self.cursor = i + 1;
                return Some(i);
            }
            return None;
        }
        let start = self.cursor;
        while self.cursor < self.items.len()
            invariant
                start <= self.cursor,
                self.cursor <= self.items@.len() || self.cursor == start,
                !self.first_run,
                self.key == old(self).key,
                self.items == old(self).items,
                self.announce_all == old(self).announce_all,
                self.first_run == old(self).first_run,
                start == old(self).cursor,
                forall|j: int|
                    start <= j < self.cursor ==> seen_in(*state, self.key@, (#[trigger] self.items@[j]).id@),
            decreases self.items@.len() - self.cursor,
        {
            let i = self.cursor;
            self.cursor = i + 1;
            if !state.is_seen(self.key.as_str(), self.items[i].id.as_str()) {
                return Some(i);
            }
        }
        None
    }

    /// Takes in the outcome of announcing the item at `index`: on a later
    /// poll, a delivered item is recorded as handled; nothing else changes
    /// the state.
    pub fn report(&self, state: &mut State, index: usize, delivered: bool)
        ensures
            !self.first_run_view() && delivered && index < self.items_view().len() ==> {
                &&& final(state).creator(self.key_view()) matches Some(c) && c.initialized == (
                old(state).creator(self.key_view()) matches Some(o) && o.initialized)
                &&& forall|id: Seq<char>|
                    #[trigger] seen_in(*final(state), self.key_view(), id) <==> seen_in(
                        *old(state),
                        self.key_view(),
                        id,
                    ) || id == self.items_view()[index as int].id@
                &&& forall|other: Seq<char>|
                    other != self.key_view() ==> #[trigger] final(state).creator(other) == old(
                        state,
                    ).creator(other)
            },
            !(!self.first_run_view() && delivered && index < self.items_view().len()) ==> *final(state)
                == *old(state),
    {
        if !self.first_run && delivered && index < self.items.len() {
            let ghost before = *state;
            let cs = state.creator_mut(self.key.as_str());
            cs.insert_seen(self.items[index].id.as_str());
            proof {
                assert forall|id: Seq<char>| #[trigger] cs.has_seen(id) <==> seen_in(before, self.key@, id) || id
                    == self.items@[index as int].id@ by {}
            }
        }
    }
}


/// An optional setting, borrowed as it stands (an empty text included).
fn borrow_opt<'a>(s: &'a Option<String>) -> (r: Option<&'a str>)
    ensures
        match *s {
            Some(v) => r matches Some(b) && b@ == v@,
            None => r is None,
        },
{
    match s {
        Some(v) => Some(v.as_str()),
        None => None,
    }
}

/// Whether a target is the one that an entry's settings give.
pub open spec fn target_of(
    t: NotifyTarget,
    config: Config,
    webhook_url: Option<String>,
    username: Option<String>,
    mention: Option<String>,
) -> bool {
    &&& t.webhook_url@ == config.webhook_of(webhook_url)
    &&& match config.username_of(username) {
        Some(v) => t.username matches Some(u) && u@ == v,
        None => t.username is None,
    }
    &&& match mention {
        Some(v) => t.mention matches Some(m) && m@ == v@,
        None => t.mention is None,
    }
}

/// Where a watched note.com creator's posts are announced.
pub fn note_target<'a>(config: &'a Config, w: &'a Watch) -> (r: NotifyTarget<'a>)
    ensures
        target_of(r, *config, w.webhook_url, w.discord_username, w.mention),
{
    NotifyTarget {
        webhook_url: config.webhook_for(w),
        username: config.username_for(w),
        mention: borrow_opt(&w.mention),
    }
}

/// Where a watched YouTube channel's videos are announced.
pub fn youtube_target<'a>(config: &'a Config, y: &'a YoutubeWatch) -> (r: NotifyTarget<'a>)
    ensures
        target_of(r, *config, y.webhook_url, y.discord_username, y.mention),
{
    NotifyTarget {
        webhook_url: config.webhook_from(&y.webhook_url),
        username: config.username_from(&y.discord_username),
        mention: borrow_opt(&y.mention),
    }
}

} // verus!

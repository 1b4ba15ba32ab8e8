//! What the watcher remembers between polls: which creators it has seen
//! before and which of their posts it has already handled.

use vstd::prelude::*;

use crate::text::same_text;

verus! {

/// What is remembered of one creator or channel.
pub struct CreatorState {
    /// Whether the creator's existing posts have been taken in.
    pub initialized: bool,
    /// The ids of the posts handled so far.
    pub seen_keys: Vec<String>,
}

/// What is remembered of all creators and channels, by state key.
pub struct State {
    pub creators: Vec<(String, CreatorState)>,
}

impl CreatorState {
    /// Whether a post id is among the handled ones.
    pub open spec fn has_seen(self, key: Seq<char>) -> bool {
        exists|i: int| 0 <= i < self.seen_keys@.len() && (#[trigger] self.seen_keys@[i])@ == key
    }

    /// A creator met for the first time.
    pub fn new() -> (r: CreatorState)
        ensures
            !r.initialized,
            forall|key: Seq<char>| !(#[trigger] r.has_seen(key)),
    {
        CreatorState { initialized: false, seen_keys: Vec::new() }
    }

    /// Whether a post id is among the handled ones.
    pub fn is_seen(&self, key: &str) -> (r: bool)
        ensures
            r == self.has_seen(key@),
    {
        let mut i: usize = 0;
        while i < self.seen_keys.len()
            invariant
                i <= self.seen_keys@.len(),
                forall|q: int| 0 <= q < i ==> (#[trigger] self.seen_keys@[q])@ != key@,
            decreases self.seen_keys@.len() - i,
        {
            if same_text(self.seen_keys[i].as_str(), key) {
                return true;
            }
            i = i + 1;
        }
        false
    }

    /// Records a post id as handled.
    pub fn insert_seen(&mut self, key: &str)
        ensures
            final(self).initialized == old(self).initialized,
            forall|k: Seq<char>| #[trigger] final(self).has_seen(k) <==> old(self).has_seen(k) || k == key@,
    {
        if !self.is_seen(key) {
            let ghost before = self.seen_keys@;
            self.seen_keys.push(key.to_owned());
            proof {
                assert forall|k: Seq<char>| #[trigger] self.has_seen(k) <==> old(self).has_seen(k) || k == key@ by {
                    if old(self).has_seen(k) {
                        let i = choose|i: int| 0 <= i < before.len() && (#[trigger] before[i])@ == k;
                        assert(self.seen_keys@[i] == before[i]);
                    }
                    if k == key@ {
                        assert(self.seen_keys@[before.len() as int]@ == key@);
                    }
                    if self.has_seen(k) {
                        let i = choose|i: int| 0 <= i < self.seen_keys@.len() && (#[trigger] self.seen_keys@[i])@ == k;
                        if i < before.len() {
                            assert(before[i] == self.seen_keys@[i]);
                        }
                    }
                }
            }
        }
    }
}

/// The position of the entry that holds a key: the last one with that key.
pub open spec fn entry_index(entries: Seq<(String, CreatorState)>, key: Seq<char>) -> Option<int>
    decreases entries.len(),
{
    if entries.len() == 0 {
        None
    } else if entries.last().0@ == key {
        Some(entries.len() - 1)
    } else {
        entry_index(entries.drop_last(), key)
    }
}

/// Where `entry_index` points, it points at an entry with the key, and no
/// later entry has the key.
proof fn lemma_entry_index(entries: Seq<(String, CreatorState)>, key: Seq<char>)
    ensures
        entry_index(entries, key) matches Some(i) ==> 0 <= i < entries.len() && entries[i].0@ == key,
        entry_index(entries, key) is None ==> forall|i: int|
            0 <= i < entries.len() ==> (#[trigger] entries[i]).0@ != key,
    decreases entries.len(),
{
    if entries.len() > 0 && entries.last().0@ != key {
        lemma_entry_index(entries.drop_last(), key);
        if entry_index(entries, key) is None {
            assert forall|i: int| 0 <= i < entries.len() implies (#[trigger] entries[i]).0@ != key by {
                if i < entries.len() - 1 {
                    assert(entries[i] == entries.drop_last()[i]);
                }
            }
        }
    }
}

/// The entry index of a key is unchanged by changing the state of an entry.
proof fn lemma_entry_index_update(
    entries: Seq<(String, CreatorState)>,
    at: int,
    c: CreatorState,
    key: Seq<char>,
)
    requires
        0 <= at < entries.len(),
    ensures
        entry_index(entries.update(at, (entries[at].0, c)), key) == entry_index(entries, key),
    decreases entries.len(),
{
    let u = entries.update(at, (entries[at].0, c));
    if entries.len() > 0 {
        assert(u.last().0 == entries.last().0);
        if entries.last().0@ != key && at < entries.len() - 1 {
            assert(u.drop_last() =~= entries.drop_last().update(at, (entries[at].0, c)));
            lemma_entry_index_update(entries.drop_last(), at, c, key);
        } else if entries.last().0@ != key {
            assert(u.drop_last() =~= entries.drop_last());
        }
    }
}

/// The state held for a key among the entries, if any.
pub open spec fn creator_in(entries: Seq<(String, CreatorState)>, key: Seq<char>) -> Option<CreatorState> {
    match entry_index(entries, key) {
        Some(i) => Some(entries[i].1),
        None => None,
    }
}

impl State {
    /// What is remembered of the creator with a state key, if anything.
    pub open spec fn creator(self, key: Seq<char>) -> Option<CreatorState> {
        creator_in(self.creators@, key)
    }

    /// A state that remembers nothing.
    pub fn new() -> (r: State)
        ensures
            forall|key: Seq<char>| #[trigger] r.creator(key) is None,
    {
        State { creators: Vec::new() }
    }

    /// The remembered state of a creator, made (uninitialized, with nothing
    /// handled) where there is none yet.
    pub fn creator_mut(&mut self, urlname: &str) -> (r: &mut CreatorState)
        ensures
            match old(self).creator(urlname@) {
                Some(c) => *r == c,
                None => !r.initialized && forall|k: Seq<char>| !(#[trigger] r.has_seen(k)),
            },
            final(self).creator(urlname@) == Some(*final(r)),
            forall|other: Seq<char>|
                other != urlname@ ==> #[trigger] final(self).creator(other) == old(self).creator(other),
    {
        let idx = match self.find_creator(urlname) {
            Some(idx) => idx,
            None => {
                let ghost before = self.creators@;
                self.creators.push((urlname.to_owned(), CreatorState::new()));
                proof {
                    assert(self.creators@.drop_last() =~= before);
                }
                self.creators.len() - 1
            },
        };
        let ghost mid = self.creators@;
        let ghost start = old(self).creators@;
        assert(forall|other: Seq<char>| other != urlname@ ==> #[trigger] creator_in(mid, other) == creator_in(start, other)) by {
            assert forall|other: Seq<char>| other != urlname@ implies #[trigger] creator_in(mid, other) == creator_in(start, other) by {
                if mid.len() != start.len() {
                    assert(mid.drop_last() =~= start);
                    assert(mid.last().0@ == urlname@);
                    lemma_entry_index(start, other);
                }
            }
        }
        assert(entry_index(mid, urlname@) == Some(idx as int));
        proof {
            lemma_entry_index(mid, urlname@);
            assert forall|c: CreatorState, k: Seq<char>|
                #[trigger] entry_index(mid.update(idx as int, (mid[idx as int].0, c)), k) == entry_index(mid, k) by {
                lemma_entry_index_update(mid, idx as int, c, k);
            }
            assert forall|c: CreatorState, other: Seq<char>| other != urlname@ implies #[trigger] creator_in(
                mid.update(idx as int, (mid[idx as int].0, c)),
                other,
            ) == creator_in(mid, other) by {
                let u = mid.update(idx as int, (mid[idx as int].0, c));
                assert(entry_index(u, other) == entry_index(mid, other));
                lemma_entry_index(mid, other);
            }
        }
        let entry = &mut self.creators[idx];
        &mut entry.1
    }

    /// Whether the creator with a state key has had the post with an id handled.
    pub fn is_seen(&self, key: &str, id: &str) -> (r: bool)
        ensures
            r == (self.creator(key@) matches Some(c) && c.has_seen(id@)),
    {
        proof {
            lemma_entry_index(self.creators@, key@);
        }
        match self.find_creator(key) {
            Some(i) => self.creators[i].1.is_seen(id),
            None => false,
        }
    }

    /// The position of the entry for a state key.
    fn find_creator(&self, key: &str) -> (r: Option<usize>)
        ensures
            match r {
                Some(i) => entry_index(self.creators@, key@) == Some(i as int),
                None => entry_index(self.creators@, key@) is None,
            },
    {
        let mut i = self.creators.len();
        assert(self.creators@.take(i as int) =~= self.creators@);
        while i > 0
            invariant
                i <= self.creators@.len(),
                entry_index(self.creators@, key@) == entry_index(self.creators@.take(i as int), key@),
            decreases i,
        {
            let ghost pre = self.creators@.take(i as int);
            assert(pre.drop_last() =~= self.creators@.take(i - 1));
            assert(pre.last() == self.creators@[i - 1]);
            if same_text(self.creators[i - 1].0.as_str(), key) {
                return Some(i - 1);
            }
            i = i - 1;
        }
        None
    }
}

} // verus!

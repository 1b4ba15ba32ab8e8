//! The items that the watchers find and the notifier announces.

use vstd::prelude::*;

use crate::time::{Timestamp, published_le, published_at_most, lemma_published_order};

verus! {

/// Where an item was found.
#[derive(Clone, Copy, Debug, PartialEq, Eq, Structural)]
pub enum SourceKind {
    Note,
    Youtube,
}

/// A name/value line shown in an announcement.
pub struct EmbedField {
    pub name: String,
    pub value: String,
}

/// One post of a watched creator.
pub struct FeedItem {
    pub id: String,
    pub title: String,
    pub url: String,
    pub published_at: Option<Timestamp>,
    pub author_name: String,
    pub author_url: Option<String>,
    pub author_icon: Option<String>,
    pub description: Option<String>,
    pub thumbnail: Option<String>,
    pub source: SourceKind,
    pub fields: Vec<EmbedField>,
}


/// `s` with `x` placed after every item published no later than it, as one
/// step of a stable insertion sort.
pub open spec fn insert_by_published(s: Seq<FeedItem>, x: FeedItem) -> Seq<FeedItem>
    decreases s.len(),
{
    if s.len() == 0 {
        seq![x]
    } else if published_le(s.last().published_at, x.published_at) {
        s.push(x)
    } else {
        insert_by_published(s.drop_last(), x).push(s.last())
    }
}

/// The items stably sorted by publication instant (undated items first),
/// as `sort_by_key(|i| i.published_at)` orders them.
pub open spec fn sorted_by_published(s: Seq<FeedItem>) -> Seq<FeedItem>
    decreases s.len(),
{
    if s.len() == 0 {
        s
    } else {
        insert_by_published(sorted_by_published(s.drop_last()), s.last())
    }
}

/// Whether the items are in publication order.
pub open spec fn in_published_order(s: Seq<FeedItem>) -> bool {
    forall|i: int, j: int|
        0 <= i < j < s.len() ==> published_le(#[trigger] s[i].published_at, #[trigger] s[j].published_at)
}

/// Places `x` into `out` as `insert_by_published` says.
fn insert_published(out: &mut Vec<FeedItem>, x: FeedItem)
    ensures
        final(out)@ == insert_by_published(old(out)@, x),
{
    let ghost s = out@;
    let mut p: usize = out.len();
    assert(s.subrange(p as int, s.len() as int) =~= Seq::<FeedItem>::empty());
    assert(s.subrange(0, p as int) =~= s);
    while p > 0 && !published_at_most(&out[p - 1].published_at, &x.published_at)
        invariant
            out@ == s,
            p <= s.len(),
            insert_by_published(s, x) == insert_by_published(s.subrange(0, p as int), x) + s.subrange(
                p as int,
                s.len() as int,
            ),
        decreases p,
    {
        let ghost pre = s.subrange(0, p as int);
        assert(pre.drop_last() =~= s.subrange(0, p - 1));
        assert(pre.last() == s[p - 1]);
        assert(insert_by_published(pre, x) == insert_by_published(s.subrange(0, p - 1), x).push(s[p - 1]));
        assert(insert_by_published(s.subrange(0, p - 1), x).push(s[p - 1]) + s.subrange(p as int, s.len() as int)
            =~= insert_by_published(s.subrange(0, p - 1), x) + s.subrange(p - 1, s.len() as int));
        p = p - 1;
    }
    out.insert(p, x);
    proof {
        let pre = s.subrange(0, p as int);
        if p == 0 {
            assert(insert_by_published(pre, x) == seq![x]);
        } else {
            assert(pre.last() == s[p - 1]);
            assert(insert_by_published(pre, x) == pre.push(x));
        }
        assert(out@ =~= insert_by_published(pre, x) + s.subrange(p as int, s.len() as int));
    }
}

/// Stably sorts items by publication instant, undated items first.
pub fn sort_by_published(items: Vec<FeedItem>) -> (r: Vec<FeedItem>)
    ensures
        r@ == sorted_by_published(items@),
{
    let ghost all = items@;
    let mut rest = items;
    let mut out: Vec<FeedItem> = Vec::new();
    let mut k: usize = 0;
    let n: usize = rest.len();
    assert(all.len() == n);
    assert(all.take(0) =~= Seq::<FeedItem>::empty());
    assert(all.skip(0) =~= all);
    while rest.len() > 0
        invariant
            k <= all.len(),
            k + rest@.len() == all.len(),
            all.len() <= usize::MAX,
            rest@ == all.skip(k as int),
            out@ == sorted_by_published(all.take(k as int)),
        decreases rest.len(),
    {
        let x = rest.remove(0);
        proof {
            assert(all.take(k + 1).drop_last() =~= all.take(k as int));
            assert(all.take(k + 1).last() == all[k as int]);
            assert(rest@ =~= all.skip(k + 1));
        }
        insert_published(&mut out, x);
        k = k + 1;
    }
    assert(all.take(k as int) =~= all);
    out
}

/// Inserting into items that all come no later than `b`, an item that comes
/// no later than `b`, keeps them all no later than `b`.
proof fn lemma_insert_bounded(s: Seq<FeedItem>, x: FeedItem, b: Option<Timestamp>)
    requires
        forall|i: int| 0 <= i < s.len() ==> published_le(#[trigger] s[i].published_at, b),
        published_le(x.published_at, b),
    ensures
        forall|i: int|
            0 <= i < insert_by_published(s, x).len() ==> published_le(
                #[trigger] insert_by_published(s, x)[i].published_at,
                b,
            ),
    decreases s.len(),
{
    if s.len() > 0 && !published_le(s.last().published_at, x.published_at) {
        lemma_insert_bounded(s.drop_last(), x, b);
        let t = insert_by_published(s.drop_last(), x);
        assert forall|i: int| 0 <= i < t.push(s.last()).len() implies published_le(
            #[trigger] t.push(s.last())[i].published_at,
            b,
        ) by {
            if i < t.len() {
                assert(t.push(s.last())[i] == t[i]);
            }
        }
    }
}

/// One insertion keeps the items in publication order and adds exactly `x`.
proof fn lemma_insert_sorted(s: Seq<FeedItem>, x: FeedItem)
    requires
        in_published_order(s),
    ensures
        in_published_order(insert_by_published(s, x)),
        insert_by_published(s, x).to_multiset() == s.to_multiset().insert(x),
        insert_by_published(s, x).len() == s.len() + 1,
    decreases s.len(),
{
    broadcast use vstd::seq_lib::group_to_multiset_ensures;

    if s.len() == 0 {
        assert(seq![x] =~= Seq::<FeedItem>::empty().push(x));
    } else if published_le(s.last().published_at, x.published_at) {
        assert forall|i: int, j: int| 0 <= i < j < s.push(x).len() implies published_le(
            #[trigger] s.push(x)[i].published_at,
            #[trigger] s.push(x)[j].published_at,
        ) by {
            if j == s.len() {
                lemma_published_order(s[i].published_at, s.last().published_at, x.published_at);
            }
        }
    } else {
        let d = s.drop_last();
        assert(in_published_order(d));
        lemma_insert_sorted(d, x);
        lemma_published_order(x.published_at, s.last().published_at, s.last().published_at);
        lemma_insert_bounded(d, x, s.last().published_at);
        let t = insert_by_published(d, x);
        assert forall|i: int, j: int| 0 <= i < j < t.push(s.last()).len() implies published_le(
            #[trigger] t.push(s.last())[i].published_at,
            #[trigger] t.push(s.last())[j].published_at,
        ) by {
            if j == t.len() {
                assert(t.push(s.last())[i] == t[i]);
            } else {
                assert(t.push(s.last())[i] == t[i]);
                assert(t.push(s.last())[j] == t[j]);
            }
        }
        assert(s =~= d.push(s.last()));
        assert(t.push(s.last()).to_multiset() =~= s.to_multiset().insert(x));
    }
}

/// Sorting by publication instant gives the same items, in publication order.
pub proof fn lemma_sorted_by_published(s: Seq<FeedItem>)
    ensures
        in_published_order(sorted_by_published(s)),
        sorted_by_published(s).to_multiset() == s.to_multiset(),
        sorted_by_published(s).len() == s.len(),
    decreases s.len(),
{
    broadcast use vstd::seq_lib::group_to_multiset_ensures;

    if s.len() > 0 {
        lemma_sorted_by_published(s.drop_last());
        lemma_insert_sorted(sorted_by_published(s.drop_last()), s.last());
        assert(s =~= s.drop_last().push(s.last()));
    }
}


/// Items already in publication order come out as they went in: the sort
/// moves nothing that need not move, so items published at the same instant
/// keep their order.
pub proof fn lemma_sort_keeps_ordered(s: Seq<FeedItem>)
    requires
        forall|i: int, j: int|
            0 <= i < j < s.len() ==> match (#[trigger] s[i].published_at, #[trigger] s[j].published_at) {
                (None, _) => true,
                (Some(_), None) => false,
                (Some(x), Some(y)) => x.secs < y.secs || (x.secs == y.secs && x.nanos <= y.nanos),
            },
    ensures
        sorted_by_published(s) == s,
    decreases s.len(),
{
    if s.len() > 0 {
        let d = s.drop_last();
        assert forall|i: int, j: int| 0 <= i < j < d.len() implies match (
            #[trigger] d[i].published_at,
            #[trigger] d[j].published_at,
        ) {
            (None, _) => true,
            (Some(_), None) => false,
            (Some(x), Some(y)) => x.secs < y.secs || (x.secs == y.secs && x.nanos <= y.nanos),
        } by {
            assert(d[i] == s[i] && d[j] == s[j]);
        }
        lemma_sort_keeps_ordered(d);
        if d.len() > 0 {
            assert(d.last() == s[s.len() - 2]);
            assert(published_le(d.last().published_at, s.last().published_at));
        }
        assert(d.push(s.last()) =~= s);
    }
}

} // verus!

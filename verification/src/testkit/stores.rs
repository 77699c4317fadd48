//! In-memory object stores keyed case-insensitively by id, as `CiString` ids require, with
//! pagination that behaves the way the specification describes: the `date_from`/`date_to`
//! window is half-open, objects come back oldest first, and the total count excludes `limit` and
//! `offset`.

use vstd::prelude::*;

use crate::strings::{eq_ignore_ascii_case, str_eq_ignore_case};
use crate::transport::pagination::{Page, PageMeta, PageQuery, query_text};
use crate::types::datetime::DateTime;
use crate::types::url::{Url, with_query_text};

verus! {

/// An object that a store can hold: it has an id and a `last_updated`.
pub trait Stored: Clone + Sized {
    /// The id this object is keyed by, compared case-insensitively.
    fn key(&self) -> String;

    /// The `last_updated` the pagination filters on.
    fn last_updated(&self) -> DateTime;
}

/// One stored object, with the key and the timestamp it was stored under.
#[derive(Debug)]
struct Entry<T> {
    key: String,
    updated: DateTime,
    item: T,
}

/// A store of one object type: at most one object per id, ids compared ignoring ASCII case.
#[derive(Debug)]
pub struct InMemoryStore<T> {
    entries: Vec<Entry<T>>,
    max_page: usize,
}

/// One stored object as the contracts see it.
pub struct StoredObject<T> {
    /// The id it is stored under.
    pub key: Seq<char>,
    /// Its `last_updated`, as an instant in nanoseconds since the epoch.
    pub updated: int,
    /// The object.
    pub item: T,
}

/// The stored objects, in the order they were first stored.
pub type StoreView<T> = Seq<StoredObject<T>>;

/// Whether two ids are the same: equal ignoring ASCII case.
#[verifier::opaque]
pub open spec fn same_id(a: Seq<char>, b: Seq<char>) -> bool {
    str_eq_ignore_case(a, b)
}

/// Whether two ids are the same.
fn ids_equal(a: &str, b: &str) -> (r: bool)
    ensures
        r == same_id(a@, b@),
{
    proof {
        reveal(same_id);
    }
    eq_ignore_ascii_case(a, b)
}

/// Where the first object stored under a key equal to `key` (ignoring ASCII case) stands.
pub open spec fn position_of<T>(s: StoreView<T>, key: Seq<char>) -> Option<int> {
    if exists|i: int| 0 <= i < s.len() && same_id(#[trigger] s[i].key, key) {
        Some(
            choose|i: int|
                0 <= i < s.len() && same_id(s[i].key, key) && forall|j: int|
                    0 <= j < i ==> !same_id(#[trigger] s[j].key, key),
        )
    } else {
        None
    }
}

/// The objects whose key does not equal `key` (ignoring ASCII case), in order.
pub open spec fn without_key<T>(s: StoreView<T>, key: Seq<char>) -> StoreView<T>
    decreases s.len(),
{
    if s.len() == 0 {
        Seq::empty()
    } else {
        let rest = without_key(s.drop_last(), key);
        if same_id(s.last().key, key) {
            rest
        } else {
            rest.push(s.last())
        }
    }
}

/// What storing `item` under `key` with timestamp `updated` does: it replaces the object stored
/// under the same id, or is added after the others.
pub open spec fn stored<T>(s: StoreView<T>, key: Seq<char>, updated: int, item: T) -> StoreView<T> {
    match position_of(s, key) {
        Some(i) => s.update(i, StoredObject { key, updated, item }),
        None => s.push(StoredObject { key, updated, item }),
    }
}

/// The entry as the contracts see it.
spec fn entry_view<T>(e: Entry<T>) -> StoredObject<T> {
    StoredObject { key: e.key@, updated: e.updated.instant(), item: e.item }
}

/// How many of the objects are stored under a key equal to `key` (ignoring ASCII case).
pub open spec fn count_with_key<T>(s: StoreView<T>, key: Seq<char>) -> int
    decreases s.len(),
{
    if s.len() == 0 {
        0
    } else {
        count_with_key(s.drop_last(), key) + if same_id(s.last().key, key) {
            1int
        } else {
            0int
        }
    }
}

/// Removing a key drops exactly the objects stored under it.
pub proof fn lemma_without_key_len<T>(s: StoreView<T>, key: Seq<char>)
    ensures
        without_key(s, key).len() == s.len() - count_with_key(s, key),
    decreases s.len(),
{
    if s.len() > 0 {
        lemma_without_key_len(s.drop_last(), key);
    }
}

/// The keys and objects of stored entries.
spec fn entries_view<T>(s: Seq<Entry<T>>) -> StoreView<T> {
    Seq::new(s.len(), |i: int| entry_view(s[i]))
}

/// The timestamps of the stored objects, in storage order.
pub open spec fn stamps<T>(s: StoreView<T>) -> Seq<int> {
    Seq::new(s.len(), |i: int| s[i].updated)
}

/// Whether the object stored at position `a` is listed before the one at `b` when listing oldest
/// first: it was updated earlier, or at the same instant and stored first.
pub open spec fn listed_before(stamps: Seq<int>, a: int, b: int) -> bool {
    stamps[a] < stamps[b] || (stamps[a] == stamps[b] && a < b)
}

/// Whether position `k` occurs in `order`.
pub open spec fn is_listed(order: Seq<usize>, k: int) -> bool {
    exists|i: int| 0 <= i < order.len() && order[i] as int == k
}

/// Whether `order` lists each of the first `count` positions exactly once, oldest first.
pub open spec fn lists_oldest_first(stamps: Seq<int>, count: int, order: Seq<usize>) -> bool {
    &&& order.len() == count
    &&& forall|i: int| 0 <= i < count ==> #[trigger] order[i] < count
    &&& forall|k: int| 0 <= k < count ==> #[trigger] is_listed(order, k)
    &&& forall|i: int, j: int|
        0 <= i < j < count ==> listed_before(stamps, #[trigger] order[i] as int, #[trigger] order[j] as int)
}

/// The listing of every stored position oldest first; objects updated at the same instant keep
/// the order they were stored in.
pub open spec fn oldest_first(stamps: Seq<int>) -> Seq<usize> {
    choose|order: Seq<usize>| lists_oldest_first(stamps, stamps.len() as int, order)
}

/// Whether an object updated at `at` falls in the query's window: `date_from` inclusive,
/// `date_to` exclusive.
pub open spec fn in_window(q: PageQuery, at: int) -> bool {
    &&& match q.date_from {
        Some(from) => from.instant() <= at,
        None => true,
    }
    &&& match q.date_to {
        Some(to) => at < to.instant(),
        None => true,
    }
}

/// The positions of `order` whose objects fall in the query's window, in the same order.
pub open spec fn in_window_positions<T>(s: StoreView<T>, order: Seq<usize>, q: PageQuery) -> Seq<
    usize,
>
    decreases order.len(),
{
    if order.len() == 0 {
        Seq::empty()
    } else {
        let rest = in_window_positions(s, order.drop_last(), q);
        if in_window(q, s[order.last() as int].updated) {
            rest.push(order.last())
        } else {
            rest
        }
    }
}

/// The positions of the objects a query selects, oldest first, before `offset` and `limit`.
pub open spec fn matching<T>(s: StoreView<T>, q: PageQuery) -> Seq<usize> {
    in_window_positions(s, oldest_first(stamps(s)), q)
}

/// The page size a query gets: its own `limit` up to the store's maximum, the maximum when it
/// names none, and at least one.
pub open spec fn page_limit(q: PageQuery, max_page: int) -> int {
    let l = match q.limit {
        Some(l) => if l <= max_page {
            l as int
        } else {
            max_page
        },
        None => max_page,
    };
    if l < 1 {
        1
    } else {
        l
    }
}

/// Where a page starts among `total` matching objects: at the query's offset, or at the end.
pub open spec fn page_start(q: PageQuery, total: int) -> int {
    let o = match q.offset {
        Some(o) => o as int,
        None => 0,
    };
    if o < total {
        o
    } else {
        total
    }
}

/// Where a page ends among `total` matching objects.
pub open spec fn page_end(q: PageQuery, total: int, max_page: int) -> int {
    let e = page_start(q, total) + page_limit(q, max_page);
    if e < total {
        e
    } else {
        total
    }
}

/// The query for the page after one that ended at `end`: the same filters, that offset, and the
/// page size used.
pub open spec fn next_page_query(q: PageQuery, end: int, limit: int) -> PageQuery {
    PageQuery { offset: Some(end as u64), limit: Some(limit as u64), ..q }
}

impl<T> View for InMemoryStore<T> {
    type V = StoreView<T>;

    closed spec fn view(&self) -> StoreView<T> {
        entries_view(self.entries@)
    }
}

impl<T: Stored> InMemoryStore<T> {
    /// The page size the store serves.
    pub closed spec fn spec_max_page(&self) -> usize {
        self.max_page
    }

    /// An empty store with a page size of 100.
    pub fn new() -> (s: Self)
        ensures
            s@ == Seq::<StoredObject<T>>::empty(),
            s.spec_max_page() == 100,
    {
        let s = InMemoryStore { entries: Vec::new(), max_page: 100 };
        assert(s@ =~= Seq::<StoredObject<T>>::empty());
        s
    }

    /// An empty store with a specific page size, at least one, for testing a crawl over several
    /// pages.
    pub fn with_page_size(max_page: usize) -> (s: Self)
        ensures
            s@ == Seq::<StoredObject<T>>::empty(),
            s.spec_max_page() == if max_page >= 1 {
                max_page
            } else {
                1
            },
    {
        let s = InMemoryStore {
            entries: Vec::new(),
            max_page: if max_page >= 1 {
                max_page
            } else {
                1
            },
        };
        assert(s@ =~= Seq::<StoredObject<T>>::empty());
        s
    }

    /// Where the first object stored under `key` stands.
    fn find(&self, key: &str) -> (r: Option<usize>)
        ensures
            r is Some <==> position_of(self@, key@) is Some,
            r matches Some(i) ==> position_of(self@, key@) == Some(i as int) && i < self@.len() && i
                < self.entries@.len(),
    {
        let n = self.entries.len();
        let mut i: usize = 0;
        while i < n
            invariant
                i <= n,
                n == self@.len(),
                forall|j: int| 0 <= j < i ==> !same_id(#[trigger] self@[j].key, key@),
            decreases n - i,
        {
            assert(self@[i as int] == entry_view(self.entries@[i as int]));
            if ids_equal(self.entries[i].key.as_str(), key) {
                proof {
                    assert(same_id(self@[i as int].key, key@));
                    let k = position_of(self@, key@)->0;
                    assert(position_of(self@, key@) is Some);
                    if k < i {
                        assert(!same_id(self@[k].key, key@));
                    }
                    if k > i {
                        assert(same_id(self@[i as int].key, key@));
                    }
                }
                return Some(i);
            }
            i = i + 1;
        }
        None
    }

    /// Inserts or replaces an object, keyed case-insensitively by the id it reports, stamped
    /// with the `last_updated` it reports. Returns whether the object was newly created, which
    /// decides between HTTP 201 and 200 on a PUT.
    pub fn put(&mut self, item: T) -> (created: bool)
        ensures
            exists|k: String, d: DateTime|
                call_ensures(T::key, (&item,), k) && call_ensures(T::last_updated, (&item,), d)
                    && final(self)@ == stored(old(self)@, k@, d.instant(), item) && created == (
                position_of(old(self)@, k@) is None),
            final(self).spec_max_page() == old(self).spec_max_page(),
            final(self)@.len() == old(self)@.len() + if created {
                1int
            } else {
                0int
            },
    {
        let key = item.key();
        let updated = item.last_updated();
        let ghost k = key;
        let ghost d = updated;
        match self.find(key.as_str()) {
            Some(i) => {
                let ghost item_v = item;
                let ghost before = self.entries@;
                self.entries.set(i, Entry { key, updated, item });
                proof {
                    let obj = StoredObject { key: k@, updated: d.instant(), item: item_v };
                    assert(stored(old(self)@, k@, d.instant(), item_v) == old(self)@.update(
                        i as int,
                        obj,
                    ));
                    assert forall|j: int| 0 <= j < self@.len() implies self@[j] == stored(
                        old(self)@,
                        k@,
                        d.instant(),
                        item_v,
                    )[j] by {
                        if j != i {
                            assert(self.entries@[j] == before[j]);
                        }
                    }
                    assert(self@ =~= stored(old(self)@, k@, d.instant(), item_v));
                }
                false
            },
            None => {
                let ghost item_v = item;
                self.entries.push(Entry { key, updated, item });
                proof {
                    assert(self@ =~= stored(old(self)@, k@, d.instant(), item_v));
                }
                true
            },
        }
    }

    /// Fetches an object by id, comparing case-insensitively: a clone of the object stored
    /// under that id.
    pub fn get(&self, key: &str) -> (r: Option<T>)
        ensures
            match position_of(self@, key@) {
                Some(i) => r matches Some(x) && cloned(self@[i].item, x),
                None => r is None,
            },
    {
        match self.find(key) {
            Some(i) => {
                assert(self@[i as int] == entry_view(self.entries@[i as int]));
                let x = self.entries[i].item.clone();
                assert(cloned(self@[i as int].item, x));
                Some(x)
            },
            None => None,
        }
    }

    /// Removes every object stored under `key`; returns whether there was one.
    pub fn remove(&mut self, key: &str) -> (removed: bool)
        ensures
            final(self)@ == without_key(old(self)@, key@),
            removed == (final(self)@.len() != old(self)@.len()),
            old(self)@.len() - final(self)@.len() == count_with_key(old(self)@, key@),
            final(self).spec_max_page() == old(self).spec_max_page(),
    {
        let ghost orig = self@;
        let before = self.entries.len();
        let mut rest: Vec<Entry<T>> = Vec::new();
        core::mem::swap(&mut rest, &mut self.entries);
        let ghost n = rest@.len();
        assert(entries_view(rest@) == orig);
        assert(entries_view(self.entries@) =~= without_key(orig.take(0), key@));
        let mut consumed: usize = 0;
        while rest.len() > 0
            invariant
                consumed + rest@.len() == n,
                n <= usize::MAX,
                orig.len() == n,
                entries_view(rest@) == orig.skip(consumed as int),
                entries_view(self.entries@) == without_key(
                    orig.take(consumed as int),
                    key@,
                ),
                self.max_page == old(self).max_page,
            decreases rest@.len(),
        {
            let ghost old_rest = rest@;
            assert(entries_view(old_rest)[0] == orig[consumed as int]);
            let e = rest.remove(0);
            proof {
                assert(rest@ =~= old_rest.subrange(1, old_rest.len() as int));
                assert forall|j: int| 0 <= j < rest@.len() implies entries_view(rest@)[j] == orig.skip(
                    consumed + 1,
                )[j] by {
                    assert(rest@[j] == old_rest[j + 1]);
                    assert(entries_view(old_rest)[j + 1] == orig.skip(consumed as int)[j + 1]);
                }
                assert(entries_view(rest@) =~= orig.skip(consumed + 1));
                assert(orig.take(consumed + 1).drop_last() =~= orig.take(consumed as int));
                assert(orig.take(consumed + 1).last() == orig[consumed as int]);
            }
            if !ids_equal(e.key.as_str(), key) {
                self.entries.push(e);
            }
            proof {
                assert(entries_view(self.entries@) =~= without_key(
                    orig.take(consumed + 1),
                    key@,
                ));
            }
            consumed = consumed + 1;
        }
        assert(orig.take(n as int) =~= orig);
        proof {
            lemma_without_key_len(orig, key@);
        }
        self.entries.len() != before
    }

    /// How many objects are stored.
    pub fn len(&self) -> (r: usize)
        ensures
            r == self@.len(),
    {
        self.entries.len()
    }

    /// Whether the store is empty.
    pub fn is_empty(&self) -> (r: bool)
        ensures
            r == (self@.len() == 0),
    {
        self.entries.len() == 0
    }

    /// Every stored position, oldest first.
    fn oldest_first_order(&self) -> (order: Vec<usize>)
        ensures
            order@ == oldest_first(stamps(self@)),
            lists_oldest_first(stamps(self@), self@.len() as int, order@),
    {
        let n = self.entries.len();
        let ghost st = stamps(self@);
        assert forall|x: int| 0 <= x < n implies st[x] == #[trigger] self.entries@[x].updated.instant() by {
            assert(self@[x] == entry_view(self.entries@[x]));
        }
        let mut order: Vec<usize> = Vec::new();
        let mut i: usize = 0;
        while i < n
            invariant
                i <= n,
                n == self.entries@.len(),
                st == stamps(self@),
                st.len() == n,
                forall|x: int| 0 <= x < n ==> st[x] == #[trigger] self.entries@[x].updated.instant(),
                lists_oldest_first(st, i as int, order@),
            decreases n - i,
        {
            let mut pos: usize = 0;
            while pos < order.len() && !self.entries[i].updated.is_before(&self.entries[order[pos]].updated)
                invariant
                    i < n,
                    n == self.entries@.len(),
                    st.len() == n,
                    forall|x: int| 0 <= x < n ==> st[x] == #[trigger] self.entries@[x].updated.instant(),
                    lists_oldest_first(st, i as int, order@),
                    pos <= order@.len(),
                    forall|k: int| 0 <= k < pos ==> st[#[trigger] order@[k] as int] <= st[i as int],
                decreases order@.len() - pos,
            {
                pos = pos + 1;
            }
            let ghost before = order@;
            proof {
                assert(pos < before.len() ==> st[i as int] < st[before[pos as int] as int]);
                assert forall|k: int| pos <= k < before.len() implies st[i as int] < st[#[trigger] before[k]
                    as int] by {
                    if k > pos {
                        assert(listed_before(st, before[pos as int] as int, before[k] as int));
                    }
                }
                before.insert_ensures(pos as int, i);
            }
            order.insert(pos, i);
            proof {
                let after = order@;
                let m = i as int + 1;
                assert forall|x: int| 0 <= x < m implies #[trigger] after[x] < m by {
                    if x > pos {
                        assert(after[x] == before[x - 1]);
                    }
                }
                assert forall|k: int| 0 <= k < m implies #[trigger] is_listed(after, k) by {
                    if k == i {
                        assert(after[pos as int] as int == k);
                    } else {
                        assert(is_listed(before, k));
                        let w = choose|w: int| 0 <= w < before.len() && before[w] as int == k;
                        if w < pos {
                            assert(after[w] as int == k);
                        } else {
                            assert(after[w + 1] as int == k);
                        }
                    }
                }
                assert forall|a: int, b: int| 0 <= a < b < m implies listed_before(
                    st,
                    #[trigger] after[a] as int,
                    #[trigger] after[b] as int,
                ) by {
                    if b < pos {
                        assert(listed_before(st, before[a] as int, before[b] as int));
                    } else if b == pos {
                        assert(st[before[a] as int] <= st[i as int]);
                    } else if a < pos {
                        assert(listed_before(st, before[a] as int, before[b - 1] as int));
                    } else if a == pos {
                        assert(st[i as int] < st[before[b - 1] as int]);
                    } else {
                        assert(listed_before(st, before[a - 1] as int, before[b - 1] as int));
                    }
                }
            }
            i = i + 1;
        }
        proof {
            lemma_oldest_first_unique(st, order@, oldest_first(st));
        }
        order
    }

    /// Every object, oldest first: clones of the stored objects in the order [`oldest_first`]
    /// lists them.
    pub fn all(&self) -> (r: Vec<T>)
        ensures
            r@.len() == self@.len(),
            lists_oldest_first(stamps(self@), self@.len() as int, oldest_first(stamps(self@))),
            forall|i: int|
                0 <= i < r@.len() ==> cloned(
                    self@[oldest_first(stamps(self@))[i] as int].item,
                    #[trigger] r@[i],
                ),
    {
        let order = self.oldest_first_order();
        let n = self.entries.len();
        let mut out: Vec<T> = Vec::new();
        let mut i: usize = 0;
        while i < order.len()
            invariant
                order@ == oldest_first(stamps(self@)),
                lists_oldest_first(stamps(self@), n as int, order@),
                n == self.entries@.len(),
                n == self@.len(),
                i <= order@.len(),
                out@.len() == i,
                forall|j: int| 0 <= j < i ==> cloned(self@[order@[j] as int].item, #[trigger] out@[j]),
            decreases order@.len() - i,
        {
            let k = order[i];
            assert(k < n);
            assert(self@[k as int] == entry_view(self.entries@[k as int]));
            let x = self.entries[k].item.clone();
            out.push(x);
            i = i + 1;
        }
        out
    }

    /// One page, applying the query the way the specification defines it: the objects updated
    /// in `[date_from, date_to)`, oldest first, from `offset`, at most `limit` of them and at most
    /// the store's page size. The total count is that of all matching objects, excluding `limit`
    /// and `offset`; the next link, present until the last page, repeats the query's filters with
    /// the next offset, against `base`.
    pub fn page(&self, query: &PageQuery, base: &Url) -> (p: Page<T>)
        ensures
            ({
                let m = matching(self@, *query);
                let start = page_start(*query, m.len() as int);
                let end = page_end(*query, m.len() as int, self.spec_max_page() as int);
                &&& p.items@.len() == end - start
                &&& forall|i: int|
                    0 <= i < end - start ==> cloned(
                        self@[m[start + i] as int].item,
                        #[trigger] p.items@[i],
                    )
                &&& p.meta.total_count == Some(m.len() as u64)
                &&& p.meta.limit == Some(self.spec_max_page() as u64)
                &&& if end < m.len() {
                    p.meta.next matches Some(u) && u@ == with_query_text(
                        base@,
                        query_text(
                            next_page_query(
                                *query,
                                end,
                                page_limit(*query, self.spec_max_page() as int),
                            ),
                        ),
                    )
                } else {
                    p.meta.next is None
                }
            }),
    {
        let order = self.oldest_first_order();
        let n = self.entries.len();
        let ghost sv = self@;
        assert forall|x: int| 0 <= x < n implies sv[x].updated == #[trigger] self.entries@[x].updated.instant() by {
            assert(sv[x] == entry_view(self.entries@[x]));
        }
        let mut selected: Vec<usize> = Vec::new();
        let mut i: usize = 0;
        while i < order.len()
            invariant
                order@ == oldest_first(stamps(sv)),
                lists_oldest_first(stamps(sv), n as int, order@),
                n == self.entries@.len(),
                n == sv.len(),
                sv == self@,
                forall|x: int| 0 <= x < n ==> sv[x].updated == #[trigger] self.entries@[x].updated.instant(),
                i <= order@.len(),
                selected@ == in_window_positions(sv, order@.take(i as int), *query),
                forall|j: int| 0 <= j < selected@.len() ==> #[trigger] selected@[j] < n,
            decreases order@.len() - i,
        {
            let k = order[i];
            assert(k < n);
            let at = &self.entries[k].updated;
            let after_from = match &query.date_from {
                Some(from) => !at.is_before(from),
                None => true,
            };
            let before_to = match &query.date_to {
                Some(to) => at.is_before(to),
                None => true,
            };
            proof {
                let t = order@.take(i as int + 1);
                assert(t.drop_last() =~= order@.take(i as int));
                assert(t.last() == k);
            }
            if after_from && before_to {
                selected.push(k);
            }
            i = i + 1;
        }
        assert(order@.take(order@.len() as int) =~= order@);
        let total = selected.len();
        let offset = query.offset_or_default();
        let max = self.max_page as u64;
        let capped = match query.limit {
            Some(l) => if l <= max {
                l
            } else {
                max
            },
            None => max,
        };
        let limit = if capped < 1 {
            1
        } else {
            capped
        };
        let start: usize = if offset < total as u64 {
            offset as usize
        } else {
            total
        };
        let end: usize = if limit < (total - start) as u64 {
            start + limit as usize
        } else {
            total
        };
        let mut items: Vec<T> = Vec::new();
        let mut j: usize = start;
        while j < end
            invariant
                start <= j <= end,
                end <= total,
                total == selected@.len(),
                n == self.entries@.len(),
                sv == self@,
                forall|x: int| 0 <= x < selected@.len() ==> #[trigger] selected@[x] < n,
                items@.len() == j - start,
                forall|x: int|
                    0 <= x < j - start ==> cloned(
                        sv[selected@[start + x] as int].item,
                        #[trigger] items@[x],
                    ),
            decreases end - j,
        {
            let k = selected[j];
            assert(sv[k as int] == entry_view(self.entries@[k as int]));
            let x = self.entries[k].item.clone();
            items.push(x);
            j = j + 1;
        }
        let next = if end < total {
            let nq = PageQuery { offset: Some(end as u64), limit: Some(limit), ..*query };
            Some(nq.apply_to(base))
        } else {
            None
        };
        Page { items, meta: PageMeta { next, total_count: Some(total as u64), limit: Some(max) } }
    }
}


/// Equal ids are an equivalence: the same id is found by any spelling of it.
pub proof fn lemma_same_id_equivalence(a: Seq<char>, b: Seq<char>, c: Seq<char>)
    ensures
        same_id(a, a),
        same_id(a, b) ==> same_id(b, a),
        same_id(a, b) && same_id(b, c) ==> same_id(a, c),
{
    reveal(same_id);
}

/// A matching object at `w` means there is a first one.
proof fn lemma_first_match_exists<T>(s: StoreView<T>, key: Seq<char>, w: int)
    requires
        0 <= w < s.len(),
        same_id(s[w].key, key),
    ensures
        exists|i: int|
            0 <= i < s.len() && same_id(s[i].key, key) && forall|j: int|
                0 <= j < i ==> !same_id(#[trigger] s[j].key, key),
    decreases w,
{
    if exists|j: int| 0 <= j < w && same_id(#[trigger] s[j].key, key) {
        let j = choose|j: int| 0 <= j < w && same_id(#[trigger] s[j].key, key);
        lemma_first_match_exists(s, key, j);
    } else {
        assert(forall|j: int| 0 <= j < w ==> !same_id(#[trigger] s[j].key, key));
    }
}

/// What [`position_of`] gives: the first match, or none at all.
pub proof fn lemma_position_of<T>(s: StoreView<T>, key: Seq<char>)
    ensures
        position_of(s, key) matches Some(i) ==> 0 <= i < s.len() && same_id(s[i].key, key) && forall|
            j: int,
        | 0 <= j < i ==> !same_id(#[trigger] s[j].key, key),
        position_of(s, key) is None ==> forall|j: int| 0 <= j < s.len() ==> !same_id(#[trigger] s[j].key, key),
{
    if exists|i: int| 0 <= i < s.len() && same_id(#[trigger] s[i].key, key) {
        let w = choose|i: int| 0 <= i < s.len() && same_id(#[trigger] s[i].key, key);
        lemma_first_match_exists(s, key, w);
    }
}

/// Reading back what was stored: after storing `item` under `key`, a lookup under any spelling
/// of that id finds `item`, and the store holds one object more exactly when no object had that
/// id before.
pub proof fn lemma_get_after_put<T>(
    s: StoreView<T>,
    key: Seq<char>,
    updated: int,
    item: T,
    query: Seq<char>,
)
    requires
        same_id(key, query),
    ensures
        position_of(stored(s, key, updated, item), query) matches Some(i) && stored(
            s,
            key,
            updated,
            item,
        )[i].item == item,
        stored(s, key, updated, item).len() == s.len() + (if position_of(s, key) is None {
            1int
        } else {
            0int
        }),
{
    let t = stored(s, key, updated, item);
    lemma_position_of(s, key);
    lemma_position_of(t, query);
    lemma_same_id_equivalence(key, query, key);
    assert forall|j: int| 0 <= j < s.len() && same_id(#[trigger] s[j].key, query) implies same_id(
        s[j].key,
        key,
    ) by {
        lemma_same_id_equivalence(s[j].key, query, key);
        lemma_same_id_equivalence(key, query, s[j].key);
    }
    match position_of(s, key) {
        Some(i) => {
            assert(t[i] == StoredObject { key, updated, item });
            assert(same_id(t[i].key, query));
            let p = position_of(t, query)->0;
            if p < i {
                assert(t[p] == s[p]);
            }
            if p > i {
                assert(!same_id(t[i].key, query));
            }
        },
        None => {
            let n = s.len() as int;
            assert(t[n] == StoredObject { key, updated, item });
            assert(same_id(t[n].key, query));
            let p = position_of(t, query)->0;
            if p < n {
                assert(t[p] == s[p]);
            }
        },
    }
}

/// After removing an id, no spelling of it is found.
pub proof fn lemma_get_after_remove<T>(s: StoreView<T>, key: Seq<char>, query: Seq<char>)
    requires
        same_id(key, query),
    ensures
        position_of(without_key(s, key), query) is None,
    decreases s.len(),
{
    if s.len() > 0 {
        lemma_get_after_remove(s.drop_last(), key, query);
        let r = without_key(s, key);
        let rest = without_key(s.drop_last(), key);
        if !same_id(s.last().key, key) {
            assert(!same_id(s.last().key, query)) by {
                if same_id(s.last().key, query) {
                    lemma_same_id_equivalence(s.last().key, query, key);
                    lemma_same_id_equivalence(key, query, s.last().key);
                }
            }
            assert forall|j: int| 0 <= j < r.len() implies !same_id(#[trigger] r[j].key, query) by {
                if j < rest.len() {
                    assert(r[j] == rest[j]);
                    if same_id(rest[j].key, query) {
                        assert(position_of(rest, query) is Some);
                    }
                }
            }
        } else {
            assert forall|j: int| 0 <= j < r.len() implies !same_id(#[trigger] r[j].key, query) by {
                if same_id(rest[j].key, query) {
                    assert(position_of(rest, query) is Some);
                }
            }
        }
    }
}

/// Two listings that agree before `m`, oldest first, agree on every position before `m`.
proof fn lemma_oldest_first_agree_below(stamps: Seq<int>, p: Seq<usize>, q: Seq<usize>, m: int)
    requires
        lists_oldest_first(stamps, stamps.len() as int, p),
        lists_oldest_first(stamps, stamps.len() as int, q),
        0 <= m <= stamps.len(),
    ensures
        forall|j: int| 0 <= j < m ==> p[j] == q[j],
    decreases m,
{
    if m > 0 {
        lemma_oldest_first_agree_below(stamps, p, q, m - 1);
        let i = m - 1;
        let a = p[i];
        let b = q[i];
        if a != b {
            assert(a < stamps.len() && b < stamps.len());
            assert(is_listed(q, a as int));
            let j = choose|j: int| 0 <= j < q.len() && q[j] as int == a as int;
            assert(is_listed(p, b as int));
            let k = choose|k: int| 0 <= k < p.len() && p[k] as int == b as int;
            if j < i {
                assert(q[j] == p[j]);
                assert(listed_before(stamps, p[j] as int, p[i] as int));
            }
            if k < i {
                assert(q[k] == p[k]);
                assert(listed_before(stamps, q[k] as int, q[i] as int));
            }
            if j > i && k > i {
                assert(listed_before(stamps, q[i] as int, q[j] as int));
                assert(listed_before(stamps, p[i] as int, p[k] as int));
            }
        }
    }
}

/// Listing oldest first leaves no choice: two listings of the same timestamps that each name
/// every position once, oldest first and in storage order among equal timestamps, are the same.
pub proof fn lemma_oldest_first_unique(stamps: Seq<int>, p: Seq<usize>, q: Seq<usize>)
    requires
        lists_oldest_first(stamps, stamps.len() as int, p),
    ensures
        lists_oldest_first(stamps, stamps.len() as int, q) ==> p == q,
        oldest_first(stamps) == p,
{
    if lists_oldest_first(stamps, stamps.len() as int, q) {
        lemma_oldest_first_agree_below(stamps, p, q, stamps.len() as int);
        assert(p =~= q);
    }
    let c = oldest_first(stamps);
    lemma_oldest_first_agree_below(stamps, p, c, stamps.len() as int);
    assert(p =~= c);
}

/// The window looks at `date_from` and `date_to` alone.
proof fn lemma_window_ignores_paging<T>(s: StoreView<T>, order: Seq<usize>, q: PageQuery, r: PageQuery)
    requires
        q.date_from == r.date_from,
        q.date_to == r.date_to,
    ensures
        in_window_positions(s, order, q) == in_window_positions(s, order, r),
    decreases order.len(),
{
    if order.len() > 0 {
        lemma_window_ignores_paging(s, order.drop_last(), q, r);
    }
}

/// The total count excludes `limit` and `offset`: a query selects the same objects whatever
/// offset and page size it asks for.
pub proof fn lemma_total_ignores_offset_and_limit<T>(
    s: StoreView<T>,
    q: PageQuery,
    offset: Option<u64>,
    limit: Option<u64>,
)
    ensures
        matching(s, q) == matching(s, PageQuery { offset, limit, ..q }),
{
    lemma_window_ignores_paging(s, oldest_first(stamps(s)), q, PageQuery { offset, limit, ..q });
}

/// Following a next link continues exactly where the page ended: the next query selects the
/// same objects, and its page starts at the previous page's end.
pub proof fn lemma_next_page_continues<T>(s: StoreView<T>, q: PageQuery, max_page: int)
    requires
        s.len() <= usize::MAX,
        1 <= max_page <= usize::MAX,
        page_end(q, matching(s, q).len() as int, max_page) < matching(s, q).len(),
    ensures
        ({
            let total = matching(s, q).len() as int;
            let end = page_end(q, total, max_page);
            let next = next_page_query(q, end, page_limit(q, max_page));
            &&& matching(s, next) == matching(s, q)
            &&& page_start(next, total) == end
            &&& page_start(q, total) < end
        }),
{
    let total = matching(s, q).len() as int;
    let end = page_end(q, total, max_page);
    lemma_oldest_first_exists(stamps(s));
    lemma_window_is_ordered_sublist(s, stamps(s), oldest_first(stamps(s)), q);
    lemma_total_ignores_offset_and_limit(
        s,
        q,
        Some(end as u64),
        Some(page_limit(q, max_page) as u64),
    );
}

/// Filtering keeps the order and draws every position from the listing filtered.
proof fn lemma_window_is_ordered_sublist<T>(
    s: StoreView<T>,
    st: Seq<int>,
    order: Seq<usize>,
    q: PageQuery,
)
    requires
        forall|i: int, j: int|
            0 <= i < j < order.len() ==> listed_before(st, #[trigger] order[i] as int, #[trigger] order[j] as int),
    ensures
        ({
            let w = in_window_positions(s, order, q);
            &&& forall|x: int| 0 <= x < w.len() ==> #[trigger] is_listed(order, w[x] as int)
            &&& forall|i: int, j: int|
                0 <= i < j < w.len() ==> listed_before(st, #[trigger] w[i] as int, #[trigger] w[j] as int)
            &&& w.len() <= order.len()
        }),
    decreases order.len(),
{
    if order.len() > 0 {
        let o = order.drop_last();
        lemma_window_is_ordered_sublist(s, st, o, q);
        let w = in_window_positions(s, order, q);
        let rest = in_window_positions(s, o, q);
        assert forall|x: int| 0 <= x < rest.len() implies #[trigger] is_listed(order, rest[x] as int) by {
            assert(is_listed(o, rest[x] as int));
            let k = choose|k: int| 0 <= k < o.len() && o[k] as int == rest[x] as int;
            assert(order[k] == o[k]);
        }
        if in_window(q, s[order.last() as int].updated) {
            assert(w == rest.push(order.last()));
            assert forall|x: int| 0 <= x < w.len() implies #[trigger] is_listed(order, w[x] as int) by {
                if x == rest.len() {
                    assert(order[order.len() - 1] == w[x]);
                } else {
                    assert(w[x] == rest[x]);
                }
            }
            assert forall|i: int, j: int| 0 <= i < j < w.len() implies listed_before(
                st,
                #[trigger] w[i] as int,
                #[trigger] w[j] as int,
            ) by {
                if j == rest.len() {
                    assert(is_listed(o, rest[i] as int));
                    let k = choose|k: int| 0 <= k < o.len() && o[k] as int == rest[i] as int;
                    assert(listed_before(st, order[k] as int, order[order.len() - 1] as int));
                } else {
                    assert(w[i] == rest[i] && w[j] == rest[j]);
                }
            }
        }
    }
}

/// Objects come back oldest first: a query's selection is ordered by `last_updated`, objects
/// updated at the same instant in the order they were first stored.
pub proof fn lemma_matching_is_oldest_first<T>(s: StoreView<T>, q: PageQuery)
    requires
        s.len() <= usize::MAX,
    ensures
        forall|i: int, j: int|
            0 <= i < j < matching(s, q).len() ==> listed_before(
                stamps(s),
                #[trigger] matching(s, q)[i] as int,
                #[trigger] matching(s, q)[j] as int,
            ),
{
    lemma_oldest_first_exists(stamps(s));
    lemma_window_is_ordered_sublist(s, stamps(s), oldest_first(stamps(s)), q);
}

/// Windows that split one window between them split every listing's selection between them.
proof fn lemma_split_windows_count<T>(
    s: StoreView<T>,
    order: Seq<usize>,
    whole: PageQuery,
    first: PageQuery,
    second: PageQuery,
)
    requires
        forall|t: int|
            #![trigger in_window(whole, t)]
            in_window(whole, t) == (in_window(first, t) || in_window(second, t)) && !(in_window(first, t)
                && in_window(second, t)),
    ensures
        in_window_positions(s, order, first).len() + in_window_positions(s, order, second).len()
            == in_window_positions(s, order, whole).len(),
    decreases order.len(),
{
    if order.len() > 0 {
        lemma_split_windows_count(s, order.drop_last(), whole, first, second);
        let t = s[order.last() as int].updated;
        assert(in_window(whole, t) == (in_window(first, t) || in_window(second, t)));
    }
}

/// Sequential intervals do not overlap: when `a` is no later than `b`, the half-open windows
/// `[a, b)` and `[b, ...)` never select the same object, and between them they select every
/// object `[a, ...)` selects.
pub proof fn lemma_sequential_windows_partition<T>(s: StoreView<T>, a: DateTime, b: DateTime)
    requires
        a.instant() <= b.instant(),
    ensures
        ({
            let first = PageQuery { date_from: Some(a), date_to: Some(b), offset: None, limit: None };
            let second = PageQuery { date_from: Some(b), date_to: None, offset: None, limit: None };
            let whole = PageQuery { date_from: Some(a), date_to: None, offset: None, limit: None };
            &&& forall|t: int| !(#[trigger] in_window(first, t) && in_window(second, t))
            &&& matching(s, first).len() + matching(s, second).len() == matching(s, whole).len()
        }),
{
    let first = PageQuery { date_from: Some(a), date_to: Some(b), offset: None, limit: None };
    let second = PageQuery { date_from: Some(b), date_to: None, offset: None, limit: None };
    let whole = PageQuery { date_from: Some(a), date_to: None, offset: None, limit: None };
    lemma_split_windows_count(s, oldest_first(stamps(s)), whole, first, second);
}

/// Where position `i` goes in a listing sorted oldest first: after every object updated no
/// later than it.
spec fn insert_pos(st: Seq<int>, order: Seq<usize>, i: int) -> int
    decreases order.len(),
{
    if order.len() == 0 {
        0
    } else if st[i] < st[order[0] as int] {
        0
    } else {
        1 + insert_pos(st, order.drop_first(), i)
    }
}

/// The first `count` positions listed oldest first, by insertion.
spec fn oldest_first_prefix(st: Seq<int>, count: nat) -> Seq<usize>
    decreases count,
{
    if count == 0 {
        Seq::empty()
    } else {
        let o = oldest_first_prefix(st, (count - 1) as nat);
        o.insert(insert_pos(st, o, count - 1), (count - 1) as usize)
    }
}

/// What [`insert_pos`] gives in a sorted listing.
proof fn lemma_insert_pos(st: Seq<int>, order: Seq<usize>, i: int)
    requires
        forall|a: int, b: int|
            0 <= a < b < order.len() ==> listed_before(st, #[trigger] order[a] as int, #[trigger] order[b] as int),
    ensures
        0 <= insert_pos(st, order, i) <= order.len(),
        forall|k: int| 0 <= k < insert_pos(st, order, i) ==> st[#[trigger] order[k] as int] <= st[i],
        forall|k: int| insert_pos(st, order, i) <= k < order.len() ==> st[i] < st[#[trigger] order[k] as int],
    decreases order.len(),
{
    if order.len() > 0 {
        let t = order.drop_first();
        assert forall|a: int, b: int| 0 <= a < b < t.len() implies listed_before(
            st,
            #[trigger] t[a] as int,
            #[trigger] t[b] as int,
        ) by {
            assert(listed_before(st, order[a + 1] as int, order[b + 1] as int));
        }
        lemma_insert_pos(st, t, i);
        if st[i] < st[order[0] as int] {
            assert forall|k: int| 0 <= k < order.len() implies st[i] < st[#[trigger] order[k] as int] by {
                if k > 0 {
                    assert(listed_before(st, order[0] as int, order[k] as int));
                }
            }
        } else {
            assert forall|k: int| 0 <= k < insert_pos(st, order, i) implies st[#[trigger] order[k] as int]
                <= st[i] by {
                if k > 0 {
                    assert(order[k] == t[k - 1]);
                }
            }
            assert forall|k: int| insert_pos(st, order, i) <= k < order.len() implies st[i] < st[
                #[trigger] order[k] as int] by {
                assert(order[k] == t[k - 1]);
            }
        }
    }
}

/// Insertion lists the first `count` positions oldest first.
proof fn lemma_oldest_first_prefix(st: Seq<int>, count: nat)
    requires
        count <= st.len(),
        st.len() <= usize::MAX,
    ensures
        lists_oldest_first(st, count as int, oldest_first_prefix(st, count)),
    decreases count,
{
    if count > 0 {
        let i = count - 1;
        let before = oldest_first_prefix(st, (count - 1) as nat);
        lemma_oldest_first_prefix(st, (count - 1) as nat);
        lemma_insert_pos(st, before, i);
        let pos = insert_pos(st, before, i);
        before.insert_ensures(pos, i as usize);
        let after = oldest_first_prefix(st, count);
        assert(after == before.insert(pos, i as usize));
        let m = count as int;
        assert forall|x: int| 0 <= x < m implies #[trigger] after[x] < m by {
            if x > pos {
                assert(after[x] == before[x - 1]);
            }
        }
        assert forall|k: int| 0 <= k < m implies #[trigger] is_listed(after, k) by {
            if k == i {
                assert(after[pos] as int == k);
            } else {
                assert(is_listed(before, k));
                let w = choose|w: int| 0 <= w < before.len() && before[w] as int == k;
                if w < pos {
                    assert(after[w] as int == k);
                } else {
                    assert(after[w + 1] as int == k);
                }
            }
        }
        assert forall|a: int, b: int| 0 <= a < b < m implies listed_before(
            st,
            #[trigger] after[a] as int,
            #[trigger] after[b] as int,
        ) by {
            if b < pos {
                assert(listed_before(st, before[a] as int, before[b] as int));
            } else if b == pos {
                assert(st[before[a] as int] <= st[i]);
            } else if a < pos {
                assert(listed_before(st, before[a] as int, before[b - 1] as int));
            } else if a == pos {
                assert(st[i] < st[before[b - 1] as int]);
            } else {
                assert(listed_before(st, before[a - 1] as int, before[b - 1] as int));
            }
        }
    }
}

/// There is a listing oldest first of any timestamps: insertion builds one.
proof fn lemma_oldest_first_exists(st: Seq<int>)
    requires
        st.len() <= usize::MAX,
    ensures
        lists_oldest_first(st, st.len() as int, oldest_first(st)),
{
    lemma_oldest_first_prefix(st, st.len());
    lemma_oldest_first_unique(st, oldest_first_prefix(st, st.len()), oldest_first(st));
}

} // verus!

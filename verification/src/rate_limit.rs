//! Holding back notifications that were sent recently.

use vstd::prelude::*;

use crate::gerrit_events::{Approval, ReviewerAddedEvent};
use crate::text::string_from;

verus! {

/// The cache of recently sent messages, from the `lru_time_cache` crate.
#[verifier::external_type_specification]
#[verifier::external_body]
#[verifier::reject_recursive_types(Key)]
#[verifier::reject_recursive_types(Value)]
pub struct ExLruCache<Key, Value>(lru_time_cache::LruCache<Key, Value>);

/// Cache line in the LRU cache standing for a message that was sent.
#[derive(Clone, Debug, PartialEq, Eq, PartialOrd, Ord)]
pub enum MsgCacheLine {
    Approval {
        /// position of the user in the state's list of users
        user_ref: usize,
        subject: String,
        approver: String,
        approval_type: String,
        approval_value: String,
    },
    ReviewerAdded { user_ref: usize, subject: String },
}

/// A cache line as a mathematical value.
pub enum CacheLineView {
    Approval {
        user_ref: usize,
        subject: Seq<char>,
        approver: Seq<char>,
        approval_type: Seq<char>,
        approval_value: Seq<char>,
    },
    ReviewerAdded { user_ref: usize, subject: Seq<char> },
}

impl View for MsgCacheLine {
    type V = CacheLineView;

    open spec fn view(&self) -> CacheLineView {
        match self {
            MsgCacheLine::Approval { user_ref, subject, approver, approval_type, approval_value } => CacheLineView::Approval {
                user_ref: *user_ref,
                subject: subject@,
                approver: approver@,
                approval_type: approval_type@,
                approval_value: approval_value@,
            },
            MsgCacheLine::ReviewerAdded { user_ref, subject } => CacheLineView::ReviewerAdded {
                user_ref: *user_ref,
                subject: subject@,
            },
        }
    }
}

/// Name of the lines an LRU cache holds, least recently used first (expired
/// lines that were not yet evicted included).
pub uninterp spec fn cache_order(cache: lru_time_cache::LruCache<MsgCacheLine, ()>) -> Seq<CacheLineView>;

/// Name of the capacity an LRU cache was created with.
pub uninterp spec fn cache_capacity(cache: lru_time_cache::LruCache<MsgCacheLine, ()>) -> nat;

/// Name of the time, in milliseconds, for which an LRU cache keeps a line.
pub uninterp spec fn cache_expiry_ms(cache: lru_time_cache::LruCache<MsgCacheLine, ()>) -> nat;

/// The longest time for which a cache may keep lines: about 136 years. The
/// crate adds it to the time a line was stored, which must not overflow.
pub open spec fn max_expiry_ms() -> nat {
    (u32::MAX as nat) * 1000
}

/// The set of lines an LRU cache holds.
pub closed spec fn cached_lines(cache: lru_time_cache::LruCache<MsgCacheLine, ()>) -> Set<CacheLineView> {
    cache_order(cache).to_set()
}

/// What the set of held lines is made of.
pub proof fn lemma_cached_lines(cache: lru_time_cache::LruCache<MsgCacheLine, ()>)
    ensures
        cached_lines(cache).finite(),
        forall|x: CacheLineView| #[trigger] cached_lines(cache).contains(x) <==> cache_order(cache).contains(x),
        cache_order(cache).no_duplicates() ==> cached_lines(cache).len() == cache_order(cache).len(),
{
    cache_order(cache).lemma_cardinality_of_set();
    if cache_order(cache).no_duplicates() {
        cache_order(cache).unique_seq_to_set();
    }
}

/// A cache that can take lines: it has room, keeps lines for a bounded
/// time, holds each line once and no more lines than its capacity.
pub open spec fn cache_ready(cache: lru_time_cache::LruCache<MsgCacheLine, ()>) -> bool {
    &&& cache_capacity(cache) > 0
    &&& cache_expiry_ms(cache) <= max_expiry_ms()
    &&& cache_order(cache).no_duplicates()
    &&& cache_order(cache).len() <= cache_capacity(cache)
}

/// The lines of a cache, least recently used first, after recording `line`
/// in `kept`: a line held already moves to the back; otherwise, where the
/// cache is full, the least recently used lines go to make room for it.
pub open spec fn lru_insert(kept: Seq<CacheLineView>, line: CacheLineView, capacity: nat) -> Seq<CacheLineView> {
    if kept.contains(line) {
        kept.remove(kept.index_of(line)).push(line)
    } else if kept.len() >= capacity {
        kept.skip(kept.len() - capacity + 1).push(line)
    } else {
        kept.push(line)
    }
}

/// `after` is `kept` after recording `line`, and `hit` tells whether the
/// line was held in `kept`.
pub open spec fn lru_step(kept: Seq<CacheLineView>, after: Seq<CacheLineView>, line: CacheLineView, capacity: nat, hit: bool) -> bool {
    &&& after == lru_insert(kept, line, capacity)
    &&& hit == kept.contains(line)
}

/// `after` is `before` after recording `line`: first some of the least
/// recently used lines, the expired ones, are dropped (how many depends on
/// the clock); then the line is recorded in what was kept.
pub open spec fn recorded(before: Seq<CacheLineView>, after: Seq<CacheLineView>, line: CacheLineView, capacity: nat, hit: bool) -> bool {
    exists|k: int| 0 <= k <= before.len() && #[trigger] lru_step(before.skip(k), after, line, capacity, hit)
}

/// `orders` are the lines of a cache, least recently used first, before and
/// after recording each of `lines` in turn, and `hits` tells for each line
/// whether the cache still held it when it was recorded.
pub open spec fn recorded_all(orders: Seq<Seq<CacheLineView>>, hits: Seq<bool>, lines: Seq<CacheLineView>, capacity: nat) -> bool {
    &&& orders.len() == lines.len() + 1
    &&& hits.len() == lines.len()
    &&& forall|j: int| 0 <= j < lines.len() ==> #[trigger] recorded(orders[j], orders[j + 1], lines[j], capacity, hits[j])
}

/// Every one of `hits` is a hit.
pub open spec fn all_hits(hits: Seq<bool>) -> bool {
    forall|j: int| 0 <= j < hits.len() ==> #[trigger] hits[j]
}

/// `lru_time_cache::LruCache::with_expiry_duration_and_capacity`, with the
/// expiry in milliseconds. Claimed: the new cache is empty and has the given
/// capacity and expiry.
#[verifier::external_body]
fn new_msg_cache(expiration_ms: u64, capacity: usize) -> (c: lru_time_cache::LruCache<MsgCacheLine, ()>)
    ensures
        cache_order(c) == Seq::<CacheLineView>::empty(),
        cache_capacity(c) == capacity,
        cache_expiry_ms(c) == expiration_ms,
{
    lru_time_cache::LruCache::with_expiry_duration_and_capacity(std::time::Duration::from_millis(expiration_ms), capacity)
}

/// `lru_time_cache::LruCache::insert`. The cache first drops the expired
/// lines, which are the least recently used ones (how many depends on the
/// clock). A line it still holds then moves to the back and is reported;
/// otherwise, where the cache is full, the least recently used lines go
/// until there is room, and the line is appended. Capacity and expiry stay.
/// A zero capacity makes the crate panic, and so does an expiry that
/// overflows the clock when added to it; both are excluded, as are caches
/// that hold a line twice or more lines than their capacity, which the
/// crate never builds.
#[verifier::external_body]
fn cache_insert(cache: &mut lru_time_cache::LruCache<MsgCacheLine, ()>, line: MsgCacheLine) -> (r: Option<()>)
    requires
        cache_ready(*old(cache)),
    ensures
        cache_capacity(*final(cache)) == cache_capacity(*old(cache)),
        cache_expiry_ms(*final(cache)) == cache_expiry_ms(*old(cache)),
        recorded(cache_order(*old(cache)), cache_order(*final(cache)), line@, cache_capacity(*old(cache)), r is Some),
{
    cache.insert(line, ())
}

/// Recording a line keeps a cache ready, holds the line last, adds nothing
/// else, and reports only a line that was held before.
pub proof fn lemma_recorded(before: Seq<CacheLineView>, after: Seq<CacheLineView>, line: CacheLineView, capacity: nat, hit: bool)
    requires
        before.no_duplicates(),
        before.len() <= capacity,
        capacity > 0,
        recorded(before, after, line, capacity, hit),
    ensures
        after.no_duplicates(),
        after.len() <= capacity,
        after.len() > 0 && after.last() == line,
        after.contains(line),
        forall|x: CacheLineView| #[trigger] after.contains(x) ==> before.contains(x) || x == line,
        hit ==> before.contains(line),
{
    let k = choose|k: int| 0 <= k <= before.len() && #[trigger] lru_step(before.skip(k), after, line, capacity, hit);
    let kept = before.skip(k);
    assert forall|i: int, j: int| 0 <= i < kept.len() && 0 <= j < kept.len() && i != j implies kept[i] != kept[j] by {
        assert(kept[i] == before[i + k] && kept[j] == before[j + k]);
    }
    assert forall|x: CacheLineView| kept.contains(x) implies before.contains(x) by {
        let i = choose|i: int| 0 <= i < kept.len() && kept[i] == x;
        assert(before[i + k] == x);
    }
    let body = if kept.contains(line) {
        kept.remove(kept.index_of(line))
    } else if kept.len() >= capacity {
        kept.skip(kept.len() - capacity + 1)
    } else {
        kept
    };
    assert(after == body.push(line));
    if kept.contains(line) {
        let p = kept.index_of(line);
        assert(kept[p] == line);
        assert forall|i: int| 0 <= i < body.len() implies #[trigger] body[i] != line && kept.contains(body[i]) by {
            if i < p {
                assert(body[i] == kept[i]);
            } else {
                assert(body[i] == kept[i + 1]);
            }
        }
        assert forall|i: int, j: int| 0 <= i < body.len() && 0 <= j < body.len() && i != j implies body[i] != body[j] by {
            let ii = if i < p { i } else { i + 1 };
            let jj = if j < p { j } else { j + 1 };
            assert(body[i] == kept[ii] && body[j] == kept[jj]);
        }
    } else if kept.len() >= capacity {
        let m = kept.len() - capacity + 1;
        assert forall|i: int| 0 <= i < body.len() implies #[trigger] body[i] != line && kept.contains(body[i]) by {
            assert(body[i] == kept[i + m]);
        }
        assert forall|i: int, j: int| 0 <= i < body.len() && 0 <= j < body.len() && i != j implies body[i] != body[j] by {
            assert(body[i] == kept[i + m] && body[j] == kept[j + m]);
        }
    } else {
        assert forall|i: int| 0 <= i < body.len() implies #[trigger] body[i] != line && kept.contains(body[i]) by {
            assert(body[i] == kept[i]);
        }
    }
    assert(after[after.len() - 1] == line);
    assert forall|i: int, j: int| 0 <= i < after.len() && 0 <= j < after.len() && i != j implies after[i] != after[j] by {
        if i < body.len() && j < body.len() {
            assert(after[i] == body[i] && after[j] == body[j]);
        } else if i < body.len() {
            assert(after[i] == body[i]);
            assert(body[i] != line);
        } else if j < body.len() {
            assert(after[j] == body[j]);
            assert(body[j] != line);
        }
    }
    assert forall|x: CacheLineView| #[trigger] after.contains(x) implies before.contains(x) || x == line by {
        let i = choose|i: int| 0 <= i < after.len() && after[i] == x;
        if i < body.len() {
            assert(after[i] == body[i]);
            assert(kept.contains(body[i]));
        }
    }
}

/// Something a cache line can be made of.
pub trait IntoCacheLine {
    /// The cache line for a message to the user at `user_index` about the
    /// change with this subject.
    spec fn cache_line_of(user_index: usize, subject: Seq<char>, event: &Self) -> CacheLineView;

    fn into_cache_line(user_index: usize, subject: &str, event: &Self) -> (r: MsgCacheLine)
        ensures
            r@ == Self::cache_line_of(user_index, subject@, event),
    ;
}

impl<'a> IntoCacheLine for (&'a String, &'a Approval) {
    open spec fn cache_line_of(user_index: usize, subject: Seq<char>, event: &Self) -> CacheLineView {
        CacheLineView::Approval {
            user_ref: user_index,
            subject,
            approver: event.0@,
            approval_type: event.1.approval_type@,
            approval_value: event.1.value@,
        }
    }

    fn into_cache_line(user_index: usize, subject: &str, event: &Self) -> (r: MsgCacheLine) {
        MsgCacheLine::Approval {
            user_ref: user_index,
            subject: string_from(subject),
            approver: event.0.clone(),
            approval_type: event.1.approval_type.clone(),
            approval_value: event.1.value.clone(),
        }
    }
}

impl<'a> IntoCacheLine for &'a ReviewerAddedEvent {
    open spec fn cache_line_of(user_index: usize, subject: Seq<char>, event: &Self) -> CacheLineView {
        CacheLineView::ReviewerAdded { user_ref: user_index, subject }
    }

    fn into_cache_line(user_index: usize, subject: &str, event: &Self) -> (r: MsgCacheLine) {
        MsgCacheLine::ReviewerAdded { user_ref: user_index, subject: string_from(subject) }
    }
}

/// Remembers which messages were sent recently, when configured with a cache.
pub struct RateLimiter {
    pub cache: Option<lru_time_cache::LruCache<MsgCacheLine, ()>>,
}

impl RateLimiter {
    /// The limiter's cache, if any, can take lines.
    pub open spec fn wf(&self) -> bool {
        self.cache matches Some(c) ==> cache_ready(c)
    }

    /// A limiter that never holds anything back.
    pub fn new() -> (r: RateLimiter)
        ensures
            r.cache is None,
    {
        RateLimiter { cache: None }
    }

    /// A limiter holding back repeated messages for `expiration_ms`
    /// milliseconds (at most about 136 years), remembering at most
    /// `capacity` of them (which must not be zero).
    pub fn with_expiry_duration_and_capacity(expiration_ms: u64, capacity: usize) -> (r: RateLimiter)
        requires
            capacity > 0,
            expiration_ms <= max_expiry_ms(),
        ensures
            r.wf(),
            r.cache matches Some(c) && cached_lines(c) == Set::<CacheLineView>::empty() && cache_capacity(c) == capacity
                && cache_order(c) == Seq::<CacheLineView>::empty() && cache_expiry_ms(c) == expiration_ms,
    {
        let c = new_msg_cache(expiration_ms, capacity);
        proof {
            lemma_cached_lines(c);
            assert(cached_lines(c) =~= Set::<CacheLineView>::empty());
        }
        RateLimiter { cache: Some(c) }
    }

    /// Records the message and answers whether the same message was sent
    /// recently and should therefore be held back. Without a cache nothing
    /// is recorded or held back. The cache never holds more lines than its
    /// capacity: where it is full, the least recently used lines go.
    pub fn limit<E: IntoCacheLine>(&mut self, user_index: usize, subject: &str, event: E) -> (r: bool)
        requires
            old(self).wf(),
        ensures
            final(self).wf(),
            old(self).cache is None ==> !r && final(self).cache is None,
            old(self).cache matches Some(c) ==> {
                let line = E::cache_line_of(user_index, subject@, &event);
                final(self).cache matches Some(d) && {
                    &&& cached_lines(d).contains(line)
                    &&& cached_lines(d).subset_of(cached_lines(c).insert(line))
                    &&& cached_lines(d).finite()
                    &&& cached_lines(d).len() <= cache_capacity(d)
                    &&& cache_capacity(d) == cache_capacity(c)
                    &&& cache_expiry_ms(d) == cache_expiry_ms(c)
                    &&& recorded(cache_order(c), cache_order(d), line, cache_capacity(c), r)
                    &&& (r ==> cached_lines(c).contains(line))
                }
            },
    {
        match &mut self.cache {
            Some(cache) => {
                let line = E::into_cache_line(user_index, subject, &event);
                let ghost before = *cache;
                let hit = cache_insert(cache, line).is_some();
                proof {
                    lemma_recorded(cache_order(before), cache_order(*cache), line@, cache_capacity(before), hit);
                    lemma_cached_lines(before);
                    lemma_cached_lines(*cache);
                    assert(cached_lines(*cache).subset_of(cached_lines(before).insert(line@)));
                }
                hit
            },
            None => false,
        }
    }
}

impl Default for RateLimiter {
    fn default() -> (r: RateLimiter)
        ensures
            r.cache is None,
    {
        RateLimiter::new()
    }
}

} // verus!

use std::collections::{HashMap, VecDeque};
use vstd::prelude::*;
use vstd::slice::slice_to_vec;

use crate::buffer::{
    BufferError, BufferErrorView, BufferFrame, BufferManager, BufferResult, FrameView,
    buffer_result_view,
};
use crate::disk::{DiskManager, PageId, zero_page};

verus! {

broadcast use vstd::std_specs::hash::group_hash_axioms;

/// `s` without any occurrence of `p`, in the same order.
pub open spec fn drop_all(s: Seq<PageId>, p: PageId) -> Seq<PageId>
    decreases s.len(),
{
    if s.len() == 0 {
        s
    } else if s.last() == p {
        drop_all(s.drop_last(), p)
    } else {
        drop_all(s.drop_last(), p).push(s.last())
    }
}

/// The recency order after `p` is used: `p` moves to the most recent end.
pub open spec fn touched(s: Seq<PageId>, p: PageId) -> Seq<PageId> {
    drop_all(s, p).push(p)
}

/// The order left after the victim at index `v` is taken out: the pages that
/// were passed over go to the back.
pub open spec fn rotated_out(s: Seq<PageId>, v: int) -> Seq<PageId> {
    s.subrange(v + 1, s.len() as int) + s.subrange(0, v)
}

/// `v` is the position of the least recently used page that nobody pins.
pub open spec fn is_lru_victim(frames: Map<PageId, FrameView>, lru: Seq<PageId>, v: int) -> bool {
    &&& 0 <= v < lru.len()
    &&& frames[lru[v]].pin_count == 0
    &&& forall|j: int| 0 <= j < v ==> #[trigger] frames[lru[j]].pin_count > 0
}

/// Every cached page is pinned.
pub open spec fn all_pinned(frames: Map<PageId, FrameView>, lru: Seq<PageId>) -> bool {
    forall|j: int| 0 <= j < lru.len() ==> #[trigger] frames[lru[j]].pin_count > 0
}

/// The frames as their views.
pub open spec fn frames_view(m: Map<PageId, BufferFrame>) -> Map<PageId, FrameView> {
    m.map_values(|f: BufferFrame| f@)
}

/// The cached frames and the recency order agree: the order lists each
/// cached page once, the pool holds at most `capacity` pages of `page_size`
/// bytes, and each frame knows its own page id.
pub open spec fn pool_inv(
    frames: Map<PageId, FrameView>,
    lru: Seq<PageId>,
    capacity: nat,
    page_size: nat,
) -> bool {
    &&& frames.dom().finite()
    &&& lru.no_duplicates()
    &&& forall|p: PageId| #[trigger] frames.contains_key(p) <==> lru.contains(p)
    &&& lru.len() == frames.len()
    &&& frames.len() <= capacity
    &&& forall|p: PageId| #[trigger]
        frames.contains_key(p) ==> frames[p].page_id == p && frames[p].data.len() == page_size
}

proof fn lemma_drop_all(s: Seq<PageId>, p: PageId)
    ensures
        forall|x: PageId| #[trigger] drop_all(s, p).contains(x) <==> (s.contains(x) && x != p),
        s.no_duplicates() ==> drop_all(s, p).no_duplicates(),
        s.no_duplicates() && s.contains(p) ==> drop_all(s, p).len() == s.len() - 1,
        !s.contains(p) ==> drop_all(s, p) == s,
    decreases s.len(),
{
    if s.len() > 0 {
        let t = s.drop_last();
        let y = s.last();
        let dt = drop_all(t, p);
        lemma_drop_all(t, p);
        assert(s == t.push(y));
        assert(drop_all(s, p) == if y == p {
            dt
        } else {
            dt.push(y)
        });
        assert forall|x: PageId| s.contains(x) <==> (t.contains(x) || x == y) by {
            if s.contains(x) {
                let i = choose|i: int| 0 <= i < s.len() && s[i] == x;
                if i < s.len() - 1 {
                    assert(t[i] == x);
                }
            }
            if t.contains(x) {
                let i = choose|i: int| 0 <= i < t.len() && t[i] == x;
                assert(s[i] == x);
            }
            if x == y {
                assert(s[s.len() - 1] == x);
            }
        }
        assert forall|x: PageId| dt.push(y).contains(x) <==> (dt.contains(x) || x == y) by {
            if dt.push(y).contains(x) {
                let i = choose|i: int| 0 <= i < dt.push(y).len() && dt.push(y)[i] == x;
                if i < dt.len() {
                    assert(dt[i] == x);
                }
            }
            if dt.contains(x) {
                let i = choose|i: int| 0 <= i < dt.len() && dt[i] == x;
                assert(dt.push(y)[i] == x);
            }
            if x == y {
                assert(dt.push(y)[dt.len() as int] == x);
            }
        }
        if s.no_duplicates() {
            assert(t.no_duplicates());
            assert(!t.contains(y)) by {
                if t.contains(y) {
                    let i = choose|i: int| 0 <= i < t.len() && t[i] == y;
                    assert(s[i] == s[s.len() - 1]);
                }
            }
            if y != p {
                assert(!dt.contains(y));
                assert forall|i: int, j: int|
                    0 <= i < dt.push(y).len() && 0 <= j < dt.push(y).len() && i != j implies dt.push(
                    y,
                )[i] != dt.push(y)[j] by {
                    if i == dt.len() {
                        assert(dt.contains(dt[j]));
                    }
                    if j == dt.len() {
                        assert(dt.contains(dt[i]));
                    }
                }
            }
        }
        assert forall|x: PageId| #[trigger] drop_all(s, p).contains(x) <==> (s.contains(x) && x != p) by {
            assert(dt.contains(x) == (t.contains(x) && x != p));
            assert(s.contains(x) <==> (t.contains(x) || x == y));
            assert(dt.push(y).contains(x) <==> (dt.contains(x) || x == y));
            if y == p {
                assert(drop_all(s, p) == dt);
            } else {
                assert(drop_all(s, p) == dt.push(y));
            }
        }
        if !s.contains(p) {
            assert(y != p);
            assert(!t.contains(p));
        }
    } else {
        assert(!s.contains(p));
    }
}

proof fn lemma_rotated_out(s: Seq<PageId>, v: int)
    requires
        0 <= v < s.len(),
        s.no_duplicates(),
    ensures
        rotated_out(s, v).no_duplicates(),
        rotated_out(s, v).len() == s.len() - 1,
        forall|x: PageId| #[trigger]
            rotated_out(s, v).contains(x) <==> (s.contains(x) && x != s[v]),
{
    let r = rotated_out(s, v);
    let n = s.len() as int;
    assert forall|i: int| 0 <= i < r.len() implies #[trigger] r[i] == if i < n - v - 1 {
        s[v + 1 + i]
    } else {
        s[i - (n - v - 1)]
    } by {}
    assert forall|i: int, j: int| 0 <= i < j < r.len() implies r[i] != r[j] by {
        let a = if i < n - v - 1 { v + 1 + i } else { i - (n - v - 1) };
        let b = if j < n - v - 1 { v + 1 + j } else { j - (n - v - 1) };
        assert(a != b);
    }
    assert forall|x: PageId| #[trigger] r.contains(x) <==> (s.contains(x) && x != s[v]) by {
        if r.contains(x) {
            let i = choose|i: int| 0 <= i < r.len() && r[i] == x;
            let a = if i < n - v - 1 { v + 1 + i } else { i - (n - v - 1) };
            assert(s[a] == x);
            assert(a != v);
        }
        if s.contains(x) && x != s[v] {
            let a = choose|a: int| 0 <= a < s.len() && s[a] == x;
            assert(a != v);
            if a > v {
                assert(r[a - v - 1] == x);
            } else {
                assert(r[a + (n - v - 1)] == x);
            }
        }
    }
}

/// A buffer pool that keeps up to `capacity` pages in memory and, when full,
/// evicts the least recently used page that nobody pins, writing it back to
/// disk first if it changed.
pub struct LruBufferManager<D> where D: DiskManager {
    disk_manager: D,
    inner: LruBufferManagerInner,
    capacity: usize,
    page_size: usize,
}

struct LruBufferManagerInner {
    page_table: HashMap<PageId, BufferFrame>,
    lru_list: VecDeque<PageId>,
}

impl<D> LruBufferManager<D> where D: DiskManager {
    /// The cached pages.
    pub closed spec fn frames(&self) -> Map<PageId, FrameView> {
        frames_view(self.inner.page_table@)
    }

    /// The cached pages from least to most recently used.
    pub closed spec fn lru(&self) -> Seq<PageId> {
        self.inner.lru_list@
    }

    pub closed spec fn spec_disk(&self) -> D {
        self.disk_manager
    }

    /// Every cached page that is not dirty holds what the disk holds.
    pub open spec fn clean_frames_match_disk(&self) -> bool {
        forall|p: PageId| #[trigger]
            self.frames().contains_key(p) && !self.frames()[p].is_dirty ==> self.spec_disk().stored_page(p)
                == Some(self.frames()[p].data)
    }

    pub closed spec fn cap(&self) -> nat {
        self.capacity as nat
    }

    pub closed spec fn psize(&self) -> nat {
        self.page_size as nat
    }

    pub open spec fn wf(&self) -> bool {
        &&& self.cap() > 0
        &&& self.psize() == self.spec_disk().spec_page_size()
        &&& pool_inv(self.frames(), self.lru(), self.cap(), self.psize())
        &&& self.clean_frames_match_disk()
    }

    /// Two states that hold the same pages, order, disk and sizes.
    pub open spec fn same_view(&self, other: &Self) -> bool {
        &&& self.frames() == other.frames()
        &&& self.lru() == other.lru()
        &&& self.spec_disk() == other.spec_disk()
        &&& self.cap() == other.cap()
        &&& self.psize() == other.psize()
    }

    /// `new` is `self` after page `p` entered the pool with frame `f`: if the
    /// pool was full, the least recently used unpinned page left it first;
    /// `p` becomes the most recently used page.
    pub open spec fn admitted(&self, new: &Self, p: PageId, f: FrameView) -> bool {
        &&& self.frames().len() < self.cap() ==> new.frames() == self.frames().insert(p, f)
            && new.lru() == touched(self.lru(), p)
        &&& self.frames().len() >= self.cap() ==> exists|v: int|
            is_lru_victim(self.frames(), self.lru(), v) && new.frames() == self.frames().remove(
                self.lru()[v],
            ).insert(p, f) && new.lru() == touched(rotated_out(self.lru(), v), p)
    }

    /// The pool is full and every page in it is pinned: no page can enter.
    pub open spec fn is_jammed(&self) -> bool {
        self.frames().len() >= self.cap() && all_pinned(self.frames(), self.lru())
    }

    /// The pool and its disk agree on page `q`: it is not cached, or its cached
    /// bytes are what the disk holds.
    pub open spec fn synced(&self, q: PageId) -> bool {
        self.view_content(q) == self.spec_disk().stored_page(q)
    }

    /// `new` no longer caches some page of `self` that `self`'s disk did not hold.
    pub open spec fn evicted_unstored(&self, new: &Self) -> bool {
        exists|v: PageId| #[trigger]
            self.frames().contains_key(v) && !new.frames().contains_key(v)
                && self.spec_disk().stored_page(v) is None
    }

    /// Every page other than `except` that the disk of `new` holds differently
    /// from that of `self` is a page that `self` cached and `new` does not,
    /// written back with its cached bytes; or a page the disk did not hold,
    /// filled in when a page that was not on disk was written back.
    pub open spec fn disk_changed_by_eviction(&self, new: &Self, except: Option<PageId>) -> bool {
        forall|q: PageId|
            #[trigger] new.spec_disk().stored_page(q) != self.spec_disk().stored_page(q) && except
                != Some(q) ==> (self.frames().contains_key(q) && !new.frames().contains_key(q)
                && new.spec_disk().stored_page(q) == Some(self.frames()[q].data)) || (
            self.spec_disk().stored_page(q) is None && self.evicted_unstored(new))
    }

    /// No cached page has changes that the disk lacks.
    pub open spec fn all_clean(&self) -> bool {
        forall|p: PageId| #[trigger] self.frames().contains_key(p) ==> !self.frames()[p].is_dirty
    }

    /// How many users hold a page; zero for a page that is not cached.
    pub open spec fn pin_of(&self, page_id: PageId) -> nat {
        if self.frames().contains_key(page_id) {
            self.frames()[page_id].pin_count
        } else {
            0
        }
    }

    /// The content of a page as users see it: the cached copy, or the disk's.
    pub open spec fn view_content(&self, page_id: PageId) -> Option<Seq<u8>> {
        if self.frames().contains_key(page_id) {
            Some(self.frames()[page_id].data)
        } else {
            self.spec_disk().stored_page(page_id)
        }
    }

    /// The pool never holds more pages than its capacity.
    pub proof fn lemma_len_within_capacity(&self)
        requires
            self.inv(),
        ensures
            self.spec_len() <= self.spec_capacity(),
            self.lru().len() == self.spec_len(),
    {
    }

    /// A pool of `capacity` pages over `disk_manager`; a capacity of zero is refused.
    pub fn new(disk_manager: D, capacity: usize) -> (r: BufferResult<Self>)
        ensures
            capacity == 0 ==> buffer_result_view(r) == Err::<Self, BufferErrorView>(
                BufferErrorView::InvalidCapacity,
            ),
            capacity > 0 ==> (r matches Ok(m) && m.wf() && m.spec_disk() == disk_manager
                && m.cap() == capacity && m.psize() == disk_manager.spec_page_size() && m.frames()
                == Map::<PageId, FrameView>::empty() && m.lru() == Seq::<PageId>::empty()),
    {
        if capacity == 0 {
            return Err(BufferError::InvalidCapacity);
        }
        let page_size = disk_manager.page_size();

        let r = Self {
            disk_manager,
            inner: LruBufferManagerInner { page_table: HashMap::new(), lru_list: VecDeque::new() },
            capacity,
            page_size,
        };
        assert(r.frames() =~= Map::<PageId, FrameView>::empty());
        Ok(r)
    }

    pub fn disk_manager(&self) -> (r: &D)
        ensures
            *r == self.spec_disk(),
    {
        &self.disk_manager
    }

    fn validate_page_size(&self, data: &[u8]) -> (r: BufferResult<()>)
        ensures
            data@.len() == self.page_size ==> r is Ok,
            data@.len() != self.page_size ==> buffer_result_view(r) == Err::<(), BufferErrorView>(
                BufferErrorView::InvalidPageSize {
                    expected: self.page_size,
                    actual: data@.len() as usize,
                },
            ),
    {
        if data.len() != self.page_size {
            return Err(BufferError::InvalidPageSize { expected: self.page_size, actual: data.len() });
        }
        Ok(())
    }

    /// Moves `page_id` to the most recently used end of the order.
    fn touch_lru(inner: &mut LruBufferManagerInner, page_id: PageId)
        ensures
            final(inner).lru_list@ == touched(old(inner).lru_list@, page_id),
            final(inner).page_table@ == old(inner).page_table@,
    {
        let mut kept: VecDeque<PageId> = VecDeque::new();
        let n = inner.lru_list.len();
        let mut i: usize = 0;
        while i < n
            invariant
                0 <= i <= n,
                n == inner.lru_list@.len(),
                inner.lru_list@ == old(inner).lru_list@,
                inner.page_table@ == old(inner).page_table@,
                kept@ == drop_all(inner.lru_list@.subrange(0, i as int), page_id),
            decreases n - i,
        {
            let id = inner.lru_list[i];
            proof {
                let t = inner.lru_list@.subrange(0, i + 1);
                assert(t.drop_last() =~= inner.lru_list@.subrange(0, i as int));
                assert(t.last() == id);
            }
            if id != page_id {
                kept.push_back(id);
            }
            i = i + 1;
        }
        assert(inner.lru_list@.subrange(0, n as int) =~= inner.lru_list@);
        kept.push_back(page_id);
        inner.lru_list = kept;
    }

    /// Takes the least recently used cached, unpinned page out of the order;
    /// the pages passed over (pinned, or not cached) go to the back. Returns
    /// `None`, with the order unchanged, when there is no such page.
    fn find_victim(inner: &mut LruBufferManagerInner) -> (r: Option<PageId>)
        ensures
            final(inner).page_table@ == old(inner).page_table@,
            r is None ==> final(inner).lru_list@ == old(inner).lru_list@ && forall|j: int|
                0 <= j < old(inner).lru_list@.len() ==> !frames_view(
                    old(inner).page_table@,
                ).contains_key(#[trigger] old(inner).lru_list@[j]) || frames_view(
                    old(inner).page_table@,
                )[old(inner).lru_list@[j]].pin_count > 0,
            r matches Some(p) ==> exists|v: int|
                0 <= v < old(inner).lru_list@.len() && old(inner).lru_list@[v] == p && frames_view(
                    old(inner).page_table@,
                ).contains_key(p) && frames_view(old(inner).page_table@)[p].pin_count == 0
                    && (forall|j: int|
                    0 <= j < v ==> !frames_view(old(inner).page_table@).contains_key(
                        #[trigger] old(inner).lru_list@[j],
                    ) || frames_view(old(inner).page_table@)[old(inner).lru_list@[j]].pin_count
                        > 0) && final(inner).lru_list@ == rotated_out(old(inner).lru_list@, v),
    {
        let ghost frames = frames_view(inner.page_table@);
        let ghost s = inner.lru_list@;
        let lru_len = inner.lru_list.len();

        let mut k: usize = 0;
        while k < lru_len
            invariant
                0 <= k <= lru_len,
                lru_len == s.len(),
                inner.page_table@ == old(inner).page_table@,
                frames == frames_view(inner.page_table@),
                s == old(inner).lru_list@,
                inner.lru_list@ == s.subrange(k as int, s.len() as int) + s.subrange(0, k as int),
                forall|j: int|
                    0 <= j < k ==> !frames.contains_key(#[trigger] s[j]) || frames[s[j]].pin_count
                        > 0,
            decreases lru_len - k,
        {
            let page_id = inner.lru_list.pop_front()?;
            assert(page_id == s[k as int]);

            let is_evictable = match inner.page_table.get(&page_id) {
                Some(frame) => frame.is_evictable(),
                None => false,
            };

            if is_evictable {
                assert(inner.lru_list@ =~= rotated_out(s, k as int));
                return Some(page_id);
            }
            inner.lru_list.push_back(page_id);
            k = k + 1;
            assert(inner.lru_list@ =~= s.subrange(k as int, s.len() as int) + s.subrange(
                0,
                k as int,
            ));
        }
        assert(inner.lru_list@ =~= s);
        None
    }

    /// When the pool is full, evicts the least recently used unpinned page,
    /// writing it to disk first if it is dirty.
    fn evict_if_needed(&mut self) -> (r: BufferResult<()>)
        requires
            old(self).wf(),
        ensures
            final(self).wf(),
            final(self).cap() == old(self).cap(),
            final(self).psize() == old(self).psize(),
            old(self).frames().len() < old(self).cap() ==> r is Ok && final(self).same_view(&*old(self)),
            old(self).frames().len() >= old(self).cap() && all_pinned(
                old(self).frames(),
                old(self).lru(),
            ) ==> buffer_result_view(r) == Err::<(), BufferErrorView>(
                BufferErrorView::NoEvictablePage,
            ) && final(self).same_view(&*old(self)),
            old(self).frames().len() >= old(self).cap() && !all_pinned(
                old(self).frames(),
                old(self).lru(),
            ) ==> exists|v: int|
                is_lru_victim(old(self).frames(), old(self).lru(), v) && final(self).frames()
                    == old(self).frames().remove(old(self).lru()[v]) && final(self).lru()
                    == rotated_out(old(self).lru(), v) && (!old(self).frames()[old(
                    self).lru()[v]].is_dirty ==> r is Ok && final(self).spec_disk() == old(
                    self).spec_disk()),
            r matches Err(e) ==> (e is Storage) || (e is NoEvictablePage && old(self).is_jammed()),
            r is Ok ==> old(self).disk_changed_by_eviction(&*final(self), None),
            r is Ok ==> final(self).frames().len() < final(self).cap(),
            r is Ok ==> forall|q: PageId| #[trigger]
                old(self).view_content(q) is Some ==> final(self).view_content(q) == old(self).view_content(q),
            forall|q: PageId| #[trigger]
                final(self).frames().contains_key(q) ==> old(self).frames().contains_key(q)
                    && final(self).frames()[q] == old(self).frames()[q],
            forall|q: PageId| #[trigger]
                old(self).frames().contains_key(q) && !final(self).frames().contains_key(q)
                    ==> old(self).frames()[q].pin_count == 0,
            forall|q: PageId| #[trigger]
                old(self).spec_disk().stored_page(q) is Some && (final(self).frames().contains_key(q)
                    || !old(self).frames().contains_key(q)) ==> final(self).spec_disk().stored_page(
                    q,
                ) == old(self).spec_disk().stored_page(q),
    {
        assert(self.frames().dom() =~= self.inner.page_table@.dom());
        if self.inner.page_table.len() < self.capacity {
            return Ok(());
        }
        proof {
            assert forall|j: int| 0 <= j < self.inner.lru_list@.len() implies frames_view(
                self.inner.page_table@,
            ).contains_key(#[trigger] self.inner.lru_list@[j]) by {
                assert(self.lru().contains(self.lru()[j]));
            }
        }
        let ghost old_frames = self.frames();
        let ghost old_lru = self.lru();
        let victim_page_id = match Self::find_victim(&mut self.inner) {
            Some(page_id) => page_id,
            None => {
                assert(all_pinned(old_frames, old_lru)) by {
                    assert forall|j: int| 0 <= j < old_lru.len() implies #[trigger] old_frames[old_lru[j]].pin_count > 0 by {
                        assert(old_frames.contains_key(old_lru[j]));
                    }
                }
                return Err(BufferError::NoEvictablePage);
            },
        };
        let ghost v = choose|v: int|
            0 <= v < old_lru.len() && old_lru[v] == victim_page_id && old_frames.contains_key(
                victim_page_id,
            ) && old_frames[victim_page_id].pin_count == 0 && (forall|j: int|
                0 <= j < v ==> !old_frames.contains_key(#[trigger] old_lru[j])
                    || old_frames[old_lru[j]].pin_count > 0) && self.inner.lru_list@ == rotated_out(
                old_lru,
                v,
            );
        assert(is_lru_victim(old_frames, old_lru, v)) by {
            assert forall|j: int| 0 <= j < v implies #[trigger] old_frames[old_lru[j]].pin_count > 0 by {
                assert(old_frames.contains_key(old_lru[j]));
            }
        }
        proof {
            lemma_rotated_out(old_lru, v);
            assert(old_lru.contains(victim_page_id));
        }
        let victim = match self.inner.page_table.remove(&victim_page_id) {
            Some(victim) => victim,
            None => return Err(BufferError::PageNotFound { page_id: victim_page_id }),
        };
        assert(self.frames() =~= old_frames.remove(victim_page_id));
        if victim.is_dirty() {
            match self.disk_manager.write_page(victim.page_id(), victim.data()) {
                Ok(()) => {},
                Err(e) => return Err(BufferError::Storage(e)),
            }
        }
        Ok(())
    }

    /// Caches `data` as page `page_id`, pinned once, after making room.
    fn insert_page(&mut self, page_id: PageId, data: Vec<u8>, is_dirty: bool) -> (r: BufferResult<()>)
        requires
            old(self).wf(),
            data@.len() == old(self).psize(),
            !is_dirty ==> old(self).spec_disk().stored_page(page_id) == Some(data@)
                && !old(self).frames().contains_key(page_id),
        ensures
            final(self).wf(),
            final(self).cap() == old(self).cap(),
            final(self).psize() == old(self).psize(),
            r is Ok ==> final(self).frames().contains_key(page_id) && old(self).admitted(
                &*final(self),
                page_id,
                FrameView { page_id, data: data@, pin_count: 1, is_dirty },
            ),
            r is Ok ==> forall|q: PageId|
                q != page_id && #[trigger] old(self).view_content(q) is Some ==> final(self).view_content(q) == old(self).view_content(q),
            r is Ok ==> forall|q: PageId| q != page_id ==> #[trigger] final(self).pin_of(q) == old(self).pin_of(q),
            r is Err ==> forall|q: PageId| #[trigger] final(self).pin_of(q) == old(self).pin_of(q),
            forall|q: PageId| #[trigger]
                old(self).frames().contains_key(q) && old(self).pin_of(q) > 0 ==> final(self).frames().contains_key(q),
            r is Err ==> forall|q: PageId| #[trigger]
                old(self).view_content(q) is Some ==> final(self).view_content(q) == old(self).view_content(q) || (old(self).frames().contains_key(q) && old(self).pin_of(q)
                    == 0 && !final(self).frames().contains_key(q)),
            old(self).is_jammed() ==> buffer_result_view(r) == Err::<(), BufferErrorView>(
                BufferErrorView::NoEvictablePage,
            ) && final(self).same_view(&*old(self)),
            r matches Err(e) ==> (e is Storage) || (e is NoEvictablePage && old(self).is_jammed()),
            r is Ok && !old(self).frames().contains_key(page_id) ==> old(self).disk_changed_by_eviction(&*final(self), None),
            forall|q: PageId|
                q != page_id && #[trigger] final(self).frames().contains_key(q) ==> old(self).frames().contains_key(q)
                    && final(self).frames()[q] == old(self).frames()[q],
            forall|q: PageId|
                #[trigger] old(self).spec_disk().stored_page(q) is Some && ((q != page_id && final(self).frames().contains_key(q))
                    || !old(self).frames().contains_key(q)) ==> final(self).spec_disk().stored_page(q)
                    == old(self).spec_disk().stored_page(q),
    {
        let ghost s0 = *self;
        self.evict_if_needed()?;
        let ghost s1 = *self;
        proof {
            lemma_drop_all(s1.lru(), page_id);
        }

        let mut frame = BufferFrame::new(page_id, data);
        frame.pin();
        frame.set_dirty(is_dirty);

        self.inner.page_table.insert(page_id, frame);
        Self::touch_lru(&mut self.inner, page_id);
        assert(self.frames() =~= s1.frames().insert(page_id, frame@));
        proof {
            lemma_touch_keeps_pool(s1.frames(), s1.lru(), page_id, frame@, s1.cap(), s1.psize());
            if s0.frames().len() >= s0.cap() && !all_pinned(s0.frames(), s0.lru()) {
                let v = choose|v: int|
                    is_lru_victim(s0.frames(), s0.lru(), v) && s1.frames() == s0.frames().remove(
                        s0.lru()[v],
                    ) && s1.lru() == rotated_out(s0.lru(), v);
                assert(is_lru_victim(s0.frames(), s0.lru(), v) && self.frames() == s0.frames().remove(
                    s0.lru()[v],
                ).insert(page_id, frame@) && self.lru() == touched(
                    rotated_out(s0.lru(), v),
                    page_id,
                ));
            }
        }
        Ok(())
    }
}


impl<D> BufferManager for LruBufferManager<D> where D: DiskManager {
    open spec fn inv(&self) -> bool {
        self.wf()
    }

    open spec fn content(&self, page_id: PageId) -> Option<Seq<u8>> {
        self.view_content(page_id)
    }

    open spec fn persisted(&self, page_id: PageId) -> Option<Seq<u8>> {
        self.spec_disk().stored_page(page_id)
    }

    open spec fn is_resident(&self, page_id: PageId) -> bool {
        self.frames().contains_key(page_id)
    }

    open spec fn pin_count(&self, page_id: PageId) -> nat {
        self.pin_of(page_id)
    }

    open spec fn spec_page_size(&self) -> nat {
        self.psize()
    }

    open spec fn spec_capacity(&self) -> nat {
        self.cap()
    }

    open spec fn spec_len(&self) -> nat {
        self.frames().len()
    }

    /// A storage error, or no room in a pool whose pages are all pinned.
    open spec fn fetch_refusal(page_id: PageId, e: BufferErrorView) -> bool {
        e is Storage || e is NoEvictablePage
    }

    /// A storage error, or no room in a pool whose pages are all pinned.
    open spec fn new_page_refusal(e: BufferErrorView) -> bool {
        e is Storage || e is NoEvictablePage
    }

    /// Data of the wrong size, a storage error, or no room in a pool whose
    /// pages are all pinned.
    open spec fn update_refusal(page_id: PageId, e: BufferErrorView) -> bool {
        e is InvalidPageSize || e is Storage || e is NoEvictablePage
    }

    /// A page that is not cached, or a storage error.
    open spec fn flush_refusal(page_id: PageId, e: BufferErrorView) -> bool {
        e is Storage || e == (BufferErrorView::PageNotFound { page_id })
    }

    /// A cached page is returned at once and becomes the most recently used;
    /// another is read from disk and admitted, evicting the least recently
    /// used unpinned page when the pool is full.
    fn fetch_page(&mut self, page_id: PageId) -> (r: BufferResult<Vec<u8>>)
        ensures
            old(self).frames().contains_key(page_id) ==> r is Ok && final(self).frames() == old(
                self).frames().insert(
                page_id,
                FrameView {
                    pin_count: old(self).frames()[page_id].pin_count + 1,
                    ..old(self).frames()[page_id]
                },
            ) && final(self).lru() == touched(old(self).lru(), page_id),
            !old(self).frames().contains_key(page_id) && r is Ok ==> old(self).admitted(
                &*final(self),
                page_id,
                FrameView { page_id, data: r->Ok_0@, pin_count: 1, is_dirty: false },
            ),
            !old(self).frames().contains_key(page_id) && old(self).is_jammed() ==> r is Err,
            r matches Err(e) ==> (e is Storage) || (e is NoEvictablePage && !old(
                self).frames().contains_key(page_id) && old(self).is_jammed() && final(self).same_view(
                &*old(self),
            )),
    {
        if self.inner.page_table.contains_key(&page_id) {
            let ghost s0 = *self;
            let mut frame = self.inner.page_table.remove(&page_id).unwrap();
            frame.pin();
            let data = slice_to_vec(frame.data());
            self.inner.page_table.insert(page_id, frame);
            Self::touch_lru(&mut self.inner, page_id);
            proof {
                assert(self.frames() =~= s0.frames().insert(page_id, frame@));
                lemma_drop_all(s0.lru(), page_id);
                assert(s0.lru().contains(page_id));
                lemma_touch_keeps_pool(s0.frames(), s0.lru(), page_id, frame@, s0.cap(), s0.psize());
            }
            return Ok(data);
        }
        let mut data = vec![0_u8; self.page_size];
        match self.disk_manager.read_page(page_id, data.as_mut_slice()) {
            Ok(()) => {},
            Err(e) => return Err(BufferError::Storage(e)),
        }
        let copy = slice_to_vec(data.as_slice());
        self.insert_page(page_id, copy, false)?;

        Ok(data)
    }

    /// The new page is admitted like a fetched one, dirty.
    fn new_page(&mut self) -> (r: BufferResult<(PageId, Vec<u8>)>)
        ensures
            r matches Ok((id, data)) ==> old(self).admitted(
                &*final(self),
                id,
                FrameView { page_id: id, data: data@, pin_count: 1, is_dirty: true },
            ),
            old(self).is_jammed() ==> r is Err,
            r matches Err(e) ==> (e is Storage) || (e is NoEvictablePage && old(self).is_jammed()
                && final(self).frames() == old(self).frames() && final(self).lru() == old(
                self).lru()),
            r matches Ok((id, data)) ==> (!old(self).frames().contains_key(id) ==> final(
                self).spec_disk().stored_page(id) == Some(data@) && old(self).disk_changed_by_eviction(
                &*final(self),
                Some(id),
            )),
    {
        let ghost s0 = *self;
        let alloc = self.disk_manager.allocate_page();
        proof {
            assert forall|q: PageId| #[trigger]
                s0.view_content(q) is Some && (alloc is Err || q != alloc->Ok_0)
                    implies self.view_content(q) == s0.view_content(q) by {
                if !self.frames().contains_key(q) {
                    assert(s0.spec_disk().stored_page(q) is Some);
                }
            }
        }
        let page_id = match alloc {
            Ok(page_id) => page_id,
            Err(e) => return Err(BufferError::Storage(e)),
        };
        let data = vec![0_u8; self.page_size];
        assert(data@ =~= zero_page(self.page_size as nat));
        let copy = slice_to_vec(data.as_slice());
        self.insert_page(page_id, copy, true)?;

        Ok((page_id, data))
    }

    /// A cached page takes the new bytes, becomes dirty and the most recently
    /// used; another page is admitted, dirty and pinned once.
    fn update_page(&mut self, page_id: PageId, data: Vec<u8>) -> (r: BufferResult<()>)
        ensures
            data@.len() == old(self).psize() && old(self).frames().contains_key(page_id) ==> r is Ok
                && final(self).frames() == old(self).frames().insert(
                page_id,
                FrameView { data: data@, is_dirty: true, ..old(self).frames()[page_id] },
            ) && final(self).lru() == touched(old(self).lru(), page_id),
            data@.len() == old(self).psize() && !old(self).frames().contains_key(page_id) && r is Ok
                ==> old(self).admitted(
                &*final(self),
                page_id,
                FrameView { page_id, data: data@, pin_count: 1, is_dirty: true },
            ),
            data@.len() == old(self).psize() && !old(self).frames().contains_key(page_id)
                && old(self).is_jammed() ==> buffer_result_view(r) == Err::<(), BufferErrorView>(
                BufferErrorView::NoEvictablePage,
            ),
            data@.len() != old(self).psize() ==> final(self).same_view(&*old(self)),
            r matches Err(e) ==> (e is InvalidPageSize && data@.len() != old(self).psize()) || (
            e is Storage) || (e is NoEvictablePage && !old(self).frames().contains_key(page_id)
                && old(self).is_jammed() && final(self).same_view(&*old(self))),
    {
        self.validate_page_size(data.as_slice())?;

        if self.inner.page_table.contains_key(&page_id) {
            let ghost s0 = *self;
            let mut frame = self.inner.page_table.remove(&page_id).unwrap();
            frame.set_data(data);
            self.inner.page_table.insert(page_id, frame);
            Self::touch_lru(&mut self.inner, page_id);
            proof {
                assert(self.frames() =~= s0.frames().insert(page_id, frame@));
                lemma_drop_all(s0.lru(), page_id);
                assert(s0.lru().contains(page_id));
                lemma_touch_keeps_pool(s0.frames(), s0.lru(), page_id, frame@, s0.cap(), s0.psize());
            }
            return Ok(());
        }
        self.insert_page(page_id, data, true)
    }

    /// A refusal leaves the pool as it was; a release keeps the page's data
    /// and place in the order, and leaves it dirty if it was or if asked.
    fn unpin_page(&mut self, page_id: PageId, is_dirty: bool) -> (r: BufferResult<()>)
        ensures
            r is Err ==> final(self).same_view(&*old(self)),
            old(self).frames().contains_key(page_id) && old(self).frames()[page_id].pin_count > 0
                ==> final(self).frames() == old(self).frames().insert(
                page_id,
                FrameView {
                    pin_count: (old(self).frames()[page_id].pin_count - 1) as nat,
                    is_dirty: old(self).frames()[page_id].is_dirty || is_dirty,
                    ..old(self).frames()[page_id]
                },
            ) && final(self).lru() == old(self).lru() && final(self).spec_disk() == old(
                self).spec_disk(),
    {
        let ghost s0 = *self;
        let mut frame = match self.inner.page_table.remove(&page_id) {
            Some(frame) => frame,
            None => {
                assert(self.inner.page_table@ =~= s0.inner.page_table@);
                return Err(BufferError::PageNotFound { page_id });
            },
        };
        if frame.pin_count() == 0 {
            self.inner.page_table.insert(page_id, frame);
            assert(self.inner.page_table@ =~= s0.inner.page_table@);
            return Err(BufferError::PageNotPinned { page_id });
        }
        frame.unpin();

        if is_dirty {
            frame.set_dirty(true);
        }
        self.inner.page_table.insert(page_id, frame);
        assert(self.frames() =~= s0.frames().insert(page_id, frame@));
        Ok(())
    }

    fn flush_page(&mut self, page_id: PageId) -> (r: BufferResult<()>)
        ensures
            final(self).lru() == old(self).lru(),
            final(self).frames().dom() == old(self).frames().dom(),
            forall|q: PageId| #[trigger]
                final(self).frames().contains_key(q) ==> final(self).frames()[q].data == old(
                    self).frames()[q].data && final(self).frames()[q].pin_count == old(self).frames()[q].pin_count,
            forall|q: PageId|
                q != page_id && #[trigger] final(self).frames().contains_key(q) ==> final(self).frames()[q] == old(self).frames()[q],
            r is Ok ==> !final(self).frames()[page_id].is_dirty,
            r matches Err(e) ==> (e is Storage) || (!old(self).frames().contains_key(page_id)
                && e == (BufferError::PageNotFound { page_id })),
            old(self).frames().contains_key(page_id) && !old(self).frames()[page_id].is_dirty ==> r is Ok
                && final(self).same_view(&*old(self)),
    {
        let ghost s0 = *self;
        let mut frame = match self.inner.page_table.remove(&page_id) {
            Some(frame) => frame,
            None => {
                assert(self.inner.page_table@ =~= s0.inner.page_table@);
                return Err(BufferError::PageNotFound { page_id });
            },
        };
        if frame.is_dirty() {
            match self.disk_manager.write_page(page_id, frame.data()) {
                Ok(()) => {},
                Err(e) => {
                    self.inner.page_table.insert(page_id, frame);
                    assert(self.inner.page_table@ =~= s0.inner.page_table@);
                    return Err(BufferError::Storage(e));
                },
            }
            frame.set_dirty(false);
        }
        self.inner.page_table.insert(page_id, frame);
        assert(self.frames() =~= s0.frames().insert(page_id, frame@));
        proof {
            if !s0.frames()[page_id].is_dirty {
                assert(frame@ == s0.frames()[page_id]);
                assert(self.frames() =~= s0.frames());
            }
        }
        Ok(())
    }

    /// Writes the dirty pages in order of recency; where no page is dirty it
    /// writes nothing and succeeds.
    fn flush_all(&mut self) -> (r: BufferResult<()>)
        ensures
            old(self).all_clean() ==> r is Ok && final(self).same_view(&*old(self)),
            r matches Err(e) ==> e is Storage,
    {
        let ghost s0 = *self;
        let n = self.inner.lru_list.len();
        let mut i: usize = 0;
        while i < n
            invariant
                0 <= i <= n,
                n == self.lru().len(),
                s0 == *old(self),
                self.wf(),
                self.lru() == s0.lru(),
                self.cap() == s0.cap(),
                self.psize() == s0.psize(),
                self.frames().dom() == s0.frames().dom(),
                forall|q: PageId| #[trigger]
                    self.frames().contains_key(q) ==> self.frames()[q].data == s0.frames()[q].data
                        && self.frames()[q].pin_count == s0.frames()[q].pin_count,
                forall|q: PageId| #[trigger]
                    s0.view_content(q) is Some ==> self.view_content(q) == s0.view_content(q),
                forall|j: int| 0 <= j < i ==> !#[trigger] self.frames()[self.lru()[j]].is_dirty,
                s0.all_clean() ==> self.same_view(&s0),
            decreases n - i,
        {
            let page_id = self.inner.lru_list[i];
            let ghost s1 = *self;
            let r = self.flush_page(page_id);
            proof {
                assert(s1.lru().contains(page_id));
            }
            if r.is_err() {
                proof {
                    assert forall|q: PageId| #[trigger]
                        s0.view_content(q) is Some implies self.view_content(q) == s0.view_content(q) by {
                        assert(s1.view_content(q) == s0.view_content(q));
                        assert(s1.content(q) is Some);
                    }
                }
                return r;
            }
            proof {
                assert forall|j: int| 0 <= j <= i implies !#[trigger] self.frames()[self.lru()[j]].is_dirty by {
                    if j < i {
                        assert(self.lru()[j] != page_id) by {
                            assert(s1.lru().no_duplicates());
                            assert(s1.lru()[j] != s1.lru()[i as int]);
                        }
                    }
                }
            }
            proof {
                assert forall|q: PageId| #[trigger]
                    s0.view_content(q) is Some implies self.view_content(q) == s0.view_content(q) by {
                    assert(s1.view_content(q) == s0.view_content(q));
                    assert(s1.content(q) is Some);
                }
            }
            i = i + 1;
        }
        proof {
            assert forall|q: PageId| #[trigger] self.persisted(q) == self.content(q) by {
                if self.frames().contains_key(q) {
                    assert(self.lru().contains(q));
                    let j = choose|j: int| 0 <= j < self.lru().len() && self.lru()[j] == q;
                    assert(!self.frames()[self.lru()[j]].is_dirty);
                }
            }
        }
        Ok(())
    }

    fn len(&self) -> (r: usize) {
        assert(self.frames().dom() =~= self.inner.page_table@.dom());
        self.inner.page_table.len()
    }

    fn capacity(&self) -> (r: usize) {
        self.capacity
    }
}

/// Caching a frame for `p` (in place of its old frame, or in a free place) and
/// touching `p` keeps the pool consistent.
proof fn lemma_touch_keeps_pool(
    frames: Map<PageId, FrameView>,
    lru: Seq<PageId>,
    p: PageId,
    f: FrameView,
    capacity: nat,
    page_size: nat,
)
    requires
        pool_inv(frames, lru, capacity, page_size),
        frames.contains_key(p) || frames.len() < capacity,
        f.page_id == p,
        f.data.len() == page_size,
    ensures
        pool_inv(frames.insert(p, f), touched(lru, p), capacity, page_size),
{
    lemma_drop_all(lru, p);
    let t = touched(lru, p);
    let d = drop_all(lru, p);
    assert(!d.contains(p));
    assert forall|x: PageId| #[trigger] frames.insert(p, f).contains_key(x) <==> t.contains(x) by {
        if x == p {
            assert(t[t.len() - 1] == p);
        } else {
            if t.contains(x) {
                let i = choose|i: int| 0 <= i < t.len() && t[i] == x;
                assert(d[i] == x);
            }
            if d.contains(x) {
                let i = choose|i: int| 0 <= i < d.len() && d[i] == x;
                assert(t[i] == x);
            }
        }
    }
    assert forall|i: int, j: int| 0 <= i < t.len() && 0 <= j < t.len() && i != j implies t[i] != t[j] by {
        if i == d.len() {
            assert(d.contains(d[j]));
        }
        if j == d.len() {
            assert(d.contains(d[i]));
        }
    }
}

} // verus!

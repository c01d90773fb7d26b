use vstd::prelude::*;
use std::collections::HashSet;
use crate::parse::{kept_items, record_of, Item, TorrentData};

verus! {

broadcast use vstd::std_specs::hash::group_hash_axioms;

/// The idle ceiling in seconds: with no feed due sooner, the driver sleeps
/// this long between cycles.
pub const MAX_IDLE_WAIT: u32 = 3600;

/// One configured feed with its scheduling state. A feed belongs to exactly
/// one tracker and is polled on its own interval.
#[derive(Debug)]
pub struct RssFeed {
    pub url: String,
    pub update_interval: u32,
    pub last_announce: u32,
    pub tracker: String,
}

/// Whether a feed is due at `epoch`: strictly more seconds than its interval
/// have passed since its last successful poll. Equality is not yet due.
pub open spec fn is_due(feed: RssFeed, epoch: u32) -> bool {
    epoch - feed.last_announce > feed.update_interval
}

impl RssFeed {
    /// Decide whether this feed is due for a poll at `epoch`.
    pub fn due(&self, epoch: u32) -> (r: bool)
        ensures
            r == is_due(*self, epoch),
    {
        epoch > self.last_announce && epoch - self.last_announce > self.update_interval
    }
}

/// The feed manager: every configured feed, the wait the last cycle computed,
/// and the set of content hashes already ingested. The hash set only grows.
#[derive(Debug)]
pub struct FeedManager {
    pub feeds: Vec<RssFeed>,
    pub next_update: u32,
    pub previous_hashes: HashSet<u64>,
}

impl FeedManager {
    /// The content hashes this manager has seen; a hash in this set never
    /// goes to persistence again within this process.
    pub open spec fn seen(self) -> Set<u64> {
        self.previous_hashes@
    }

    /// Build a manager over `feeds`, seeding the seen set with the hashes of
    /// recently persisted items.
    pub fn new(feeds: Vec<RssFeed>, seed_hashes: Vec<u64>) -> (r: FeedManager)
        ensures
            r.feeds == feeds,
            r.next_update == 0,
            forall|h: u64| r.seen().contains(h) <==> seed_hashes@.contains(h),
    {
        let mut previous_hashes: HashSet<u64> = HashSet::new();
        let n = seed_hashes.len();
        let mut i: usize = 0;
        while i < n
            invariant
                n == seed_hashes@.len(),
                i <= n,
                forall|h: u64|
                    previous_hashes@.contains(h) <==> exists|j: int|
                        0 <= j < i && seed_hashes@[j] == h,
            decreases n - i,
        {
            previous_hashes.insert(seed_hashes[i]);
            i = i + 1;
        }
        FeedManager { feeds, next_update: 0, previous_hashes }
    }

    /// Whether `h` has already been ingested.
    pub fn contains_hash(&self, h: u64) -> (r: bool)
        ensures
            r == self.seen().contains(h),
    {
        self.previous_hashes.contains(&h)
    }

    /// The indices of the feeds due at `epoch`, in increasing order: the
    /// feeds to poll this cycle.
    pub fn due_indices(&self, epoch: u32) -> (r: Vec<usize>)
        ensures
            forall|k: int| 0 <= k < r@.len() ==> (#[trigger] r@[k]) < self.feeds@.len(),
            forall|k1: int, k2: int| 0 <= k1 < k2 < r@.len() ==> r@[k1] < r@[k2],
            forall|i: int|
                0 <= i < self.feeds@.len() ==> (is_due(#[trigger] self.feeds@[i], epoch)
                    <==> r@.contains(i as usize)),
    {
        let n = self.feeds.len();
        let mut r: Vec<usize> = Vec::new();
        let mut j: usize = 0;
        while j < n
            invariant
                n == self.feeds@.len(),
                j <= n,
                forall|k: int| 0 <= k < r@.len() ==> (#[trigger] r@[k]) < j,
                forall|k1: int, k2: int| 0 <= k1 < k2 < r@.len() ==> r@[k1] < r@[k2],
                forall|i: int|
                    0 <= i < j ==> (is_due(#[trigger] self.feeds@[i], epoch) <==> r@.contains(
                        i as usize,
                    )),
            decreases n - j,
        {
            let ghost prev = r@;
            if self.feeds[j].due(epoch) {
                r.push(j);
                proof {
                    assert(r@[r@.len() - 1] == j);
                    assert forall|i: int| 0 <= i < j && #[trigger] prev.contains(i as usize) implies
                        r@.contains(i as usize) by {
                        let k = choose|k: int| 0 <= k < prev.len() && prev[k] == i as usize;
                        assert(r@[k] == i as usize);
                    }
                    assert forall|i: int| 0 <= i < j && #[trigger] r@.contains(i as usize) implies
                        prev.contains(i as usize) by {
                        let k = choose|k: int| 0 <= k < r@.len() && r@[k] == i as usize;
                        assert(k < prev.len());
                        assert(prev[k] == i as usize);
                    }
                }
            }
            j = j + 1;
        }
        r
    }

    /// The wait in seconds before the next cycle: the smallest update
    /// interval among the feeds found due at `epoch`, or the idle ceiling
    /// when none is due or none is smaller. The wait is deliberately the
    /// interval of a feed found due in this very cycle, not the true time
    /// until the next feed becomes due.
    pub fn next_wait(&self, epoch: u32) -> (r: u32)
        ensures
            r <= MAX_IDLE_WAIT,
            forall|i: int|
                0 <= i < self.feeds@.len() && is_due(#[trigger] self.feeds@[i], epoch) ==> r
                    <= self.feeds@[i].update_interval,
            r == MAX_IDLE_WAIT || exists|i: int|
                0 <= i < self.feeds@.len() && is_due(#[trigger] self.feeds@[i], epoch) && r
                    == self.feeds@[i].update_interval,
    {
        let n = self.feeds.len();
        let mut wait: u32 = MAX_IDLE_WAIT;
        let mut j: usize = 0;
        while j < n
            invariant
                n == self.feeds@.len(),
                j <= n,
                wait <= MAX_IDLE_WAIT,
                forall|i: int|
                    0 <= i < j && is_due(#[trigger] self.feeds@[i], epoch) ==> wait
                        <= self.feeds@[i].update_interval,
                wait == MAX_IDLE_WAIT || exists|i: int|
                    0 <= i < j && is_due(#[trigger] self.feeds@[i], epoch) && wait
                        == self.feeds@[i].update_interval,
            decreases n - j,
        {
            if self.feeds[j].due(epoch) && self.feeds[j].update_interval < wait {
                wait = self.feeds[j].update_interval;
            }
            j = j + 1;
        }
        wait
    }

    /// The positions of the records whose hash has not been seen, in
    /// increasing order: only these may go to persistence this cycle.
    pub fn fresh_indices(&self, records: &Vec<TorrentData>) -> (r: Vec<usize>)
        ensures
            forall|k: int| 0 <= k < r@.len() ==> (#[trigger] r@[k]) < records@.len(),
            forall|k1: int, k2: int| 0 <= k1 < k2 < r@.len() ==> r@[k1] < r@[k2],
            forall|i: int|
                0 <= i < records@.len() ==> (!self.seen().contains(
                    (#[trigger] records@[i]).item_hash,
                ) <==> r@.contains(i as usize)),
    {
        let n = records.len();
        let mut r: Vec<usize> = Vec::new();
        let mut j: usize = 0;
        while j < n
            invariant
                n == records@.len(),
                j <= n,
                forall|k: int| 0 <= k < r@.len() ==> (#[trigger] r@[k]) < j,
                forall|k1: int, k2: int| 0 <= k1 < k2 < r@.len() ==> r@[k1] < r@[k2],
                forall|i: int|
                    0 <= i < j ==> (!self.seen().contains((#[trigger] records@[i]).item_hash)
                        <==> r@.contains(i as usize)),
            decreases n - j,
        {
            let ghost prev = r@;
            if !self.contains_hash(records[j].item_hash) {
                r.push(j);
            }
            proof {
                if prev != r@ {
                    assert(r@[r@.len() - 1] == j);
                }
                assert forall|i: int| 0 <= i < j && #[trigger] prev.contains(i as usize) implies r@
                    .contains(i as usize) by {
                    let k = choose|k: int| 0 <= k < prev.len() && prev[k] == i as usize;
                    assert(r@[k] == i as usize);
                }
                assert forall|i: int| 0 <= i < j && #[trigger] r@.contains(i as usize) implies prev
                    .contains(i as usize) by {
                    let k = choose|k: int| 0 <= k < r@.len() && r@[k] == i as usize;
                    assert(k < prev.len());
                    assert(prev[k] == i as usize);
                }
            }
            j = j + 1;
        }
        r
    }

    /// Record one persistence attempt for the record with content hash
    /// `hash`. A returned identity marks the hash seen; a failed insert (no
    /// identity) leaves it unseen, so the record is retried the next time its
    /// feed is due. The seen set never shrinks.
    pub fn record_persisted(&mut self, hash: u64, torrent_id: Option<i32>) -> (r: bool)
        ensures
            final(self).feeds == old(self).feeds,
            final(self).next_update == old(self).next_update,
            torrent_id is Some ==> final(self).seen() == old(self).seen().insert(hash),
            torrent_id is None ==> final(self).seen() == old(self).seen(),
            old(self).seen().subset_of(final(self).seen()),
            r == (torrent_id is Some),
    {
        match torrent_id {
            Some(_) => {
                self.previous_hashes.insert(hash);
                true
            },
            None => false,
        }
    }

    /// Advance one polled feed's clock to the cycle's epoch; feeds skipped
    /// because they were not due keep their clock.
    pub fn mark_polled(&mut self, idx: usize, epoch: u32)
        requires
            idx < old(self).feeds@.len(),
        ensures
            final(self).feeds@.len() == old(self).feeds@.len(),
            final(self).feeds@[idx as int].last_announce == epoch,
            final(self).feeds@[idx as int].url == old(self).feeds@[idx as int].url,
            final(self).feeds@[idx as int].update_interval == old(self).feeds@[
                idx as int
            ].update_interval,
            final(self).feeds@[idx as int].tracker == old(self).feeds@[idx as int].tracker,
            forall|j: int|
                0 <= j < old(self).feeds@.len() && j != idx ==> final(self).feeds@[j] == old(
                    self,
                ).feeds@[j],
            final(self).next_update == old(self).next_update,
            final(self).seen() == old(self).seen(),
    {
        self.feeds[idx].last_announce = epoch;
    }

    /// Close a cycle: remember the wait handed back to the driver.
    pub fn finish_cycle(&mut self, wait: u32)
        ensures
            final(self).feeds == old(self).feeds,
            final(self).next_update == wait,
            final(self).seen() == old(self).seen(),
    {
        self.next_update = wait;
    }

    /// The tracker name of each feed, in feed order: the names to upsert
    /// before any item can be attributed.
    pub fn tracker_names(&self) -> (r: Vec<String>)
        ensures
            r@.len() == self.feeds@.len(),
            forall|i: int| 0 <= i < r@.len() ==> (#[trigger] r@[i])@ == self.feeds@[i].tracker@,
    {
        let n = self.feeds.len();
        let mut r: Vec<String> = Vec::new();
        let mut j: usize = 0;
        while j < n
            invariant
                n == self.feeds@.len(),
                j <= n,
                r@.len() == j,
                forall|i: int| 0 <= i < j ==> (#[trigger] r@[i])@ == self.feeds@[i].tracker@,
            decreases n - j,
        {
            r.push(self.feeds[j].tracker.clone());
            j = j + 1;
        }
        r
    }
}

/// The tag identities that resolved: the ids the store handed back, in
/// order, with unresolved tags dropped.
pub open spec fn somes_of(ids: Seq<Option<i32>>) -> Seq<i32>
    decreases ids.len(),
{
    if ids.len() == 0 {
        Seq::empty()
    } else if ids.last() is Some {
        somes_of(ids.drop_last()).push(ids.last().unwrap())
    } else {
        somes_of(ids.drop_last())
    }
}

/// Keep the tag identities that the store resolved, in order; a tag whose
/// identity could not be resolved after its upsert is dropped without
/// disturbing the other tags.
pub fn resolve_tag_ids(ids: &Vec<Option<i32>>) -> (r: Vec<i32>)
    ensures
        r@ == somes_of(ids@),
{
    let n = ids.len();
    let mut r: Vec<i32> = Vec::new();
    let mut j: usize = 0;
    proof {
        assert(ids@.subrange(0, 0) =~= Seq::<Option<i32>>::empty());
    }
    while j < n
        invariant
            n == ids@.len(),
            j <= n,
            r@ == somes_of(ids@.subrange(0, j as int)),
        decreases n - j,
    {
        let ghost pre = ids@.subrange(0, j as int);
        let ghost cur = ids@.subrange(0, j as int + 1);
        proof {
            assert(cur.drop_last() =~= pre);
            assert(cur.last() == ids@[j as int]);
        }
        match ids[j] {
            Some(id) => {
                r.push(id);
            },
            None => {},
        }
        j = j + 1;
    }
    proof {
        assert(ids@.subrange(0, n as int) =~= ids@);
    }
    r
}

/// Ingestion is idempotent across cycles. When every record a feed yields
/// was already marked seen - as happens after a cycle whose persistence
/// succeeded - any index list that satisfies the freshness contract is
/// empty: nothing reaches persistence a second time.
pub proof fn lemma_seen_records_stay_out(
    m: FeedManager,
    records: Seq<TorrentData>,
    picked: Seq<usize>,
)
    requires
        forall|i: int|
            0 <= i < records.len() ==> m.seen().contains((#[trigger] records[i]).item_hash),
        forall|k: int| 0 <= k < picked.len() ==> (#[trigger] picked[k]) < records.len(),
        forall|i: int|
            0 <= i < records.len() ==> (!m.seen().contains((#[trigger] records[i]).item_hash)
                <==> picked.contains(i as usize)),
    ensures
        picked.len() == 0,
{
    if picked.len() > 0 {
        let k0 = picked[0];
        assert(picked.contains(k0));
        assert(!m.seen().contains(records[k0 as int].item_hash));
    }
}

/// Presenting the same feed document in a second cycle adds nothing. Two
/// conversions of one raw item list agree on every content hash, so once the
/// first cycle's hashes are all marked seen, any index list that satisfies
/// the freshness contract over the second conversion is empty.
pub proof fn lemma_second_parse_all_seen(
    m: FeedManager,
    items: Seq<Item>,
    first: Seq<TorrentData>,
    second: Seq<TorrentData>,
    picked: Seq<usize>,
)
    requires
        first.len() == kept_items(items).len(),
        forall|i: int|
            0 <= i < first.len() ==> record_of(#[trigger] first[i], kept_items(items)[i]),
        second.len() == kept_items(items).len(),
        forall|i: int|
            0 <= i < second.len() ==> record_of(#[trigger] second[i], kept_items(items)[i]),
        forall|i: int|
            0 <= i < first.len() ==> m.seen().contains((#[trigger] first[i]).item_hash),
        forall|k: int| 0 <= k < picked.len() ==> (#[trigger] picked[k]) < second.len(),
        forall|i: int|
            0 <= i < second.len() ==> (!m.seen().contains((#[trigger] second[i]).item_hash)
                <==> picked.contains(i as usize)),
    ensures
        picked.len() == 0,
{
    assert forall|i: int| 0 <= i < second.len() implies m.seen().contains(
        (#[trigger] second[i]).item_hash,
    ) by {
        assert(record_of(first[i], kept_items(items)[i]));
        assert(second[i].item_hash == first[i].item_hash);
    };
    lemma_seen_records_stay_out(m, second, picked);
}

} // verus!


//! The intent queue: a topic-partitioned, append-only log.  A topic is named
//! by the SHA3-256 hash of its name; every entry of a topic carries a
//! monotonic index (the first entry has index 1), and readers page through a
//! topic with `get_after`.
use vstd::prelude::*;
use vstd::string::StringSliceAdditionalSpecFns;
use crate::codec::{spec_hex_of, sha3_256_of, sha3_256, hex_encode};

verus! {

/// The floor, in milliseconds, between two polls of a topic.
pub const QUEUE_POLL_INTERVAL_MS: u64 = 100;

/// The subtopic bytes of the `pack` topic.
pub const SUBTOPIC_PACK_BUILD_REQUEST: u8 = 0;

pub const SUBTOPIC_PACK_BUILD_RESPONSE: u8 = 1;

/// The subtopic bytes of the `state` topic.
pub const SUBTOPIC_STATE_PEER: u8 = 0;

pub const SUBTOPIC_STATE_ACCOUNT: u8 = 2;

pub const SUBTOPIC_STATE_INSTANCE: u8 = 4;

pub const SUBTOPIC_STATE_AGENT: u8 = 8;

/// One topic of the queue: its 32-byte name hash and its entries in write
/// order.
pub struct Topic {
    pub hash: Vec<u8>,
    pub entries: Vec<Vec<u8>>,
}

/// The whole queue: the topics that have been written to, each appearing
/// once.
pub struct IntentQueue {
    pub topics: Vec<Topic>,
}

/// The answer of a queue operation.
#[derive(Clone, Debug)]
pub enum QueueResponse {
    OpSuccess,
    Failure { reason: Option<String> },
    List(Vec<Vec<u8>>),
}

/// A framed write: the hex-encoded topic hash and the content bytes, whose
/// first byte is the subtopic.
pub struct QueueWriteRequest {
    pub topic: String,
    pub content: Vec<u8>,
}

/// The contents of a sequence of entries, as byte strings.
pub open spec fn entries_view(entries: Seq<Vec<u8>>) -> Seq<Seq<u8>> {
    entries.map(|i: int, e: Vec<u8>| e@)
}

/// The index of the topic with the given hash, or -1 when no topic has it.
pub open spec fn spec_topic_index(topics: Seq<Topic>, hash: Seq<u8>) -> int
    decreases topics.len(),
{
    if topics.len() == 0 {
        -1
    } else if topics[0].hash@ == hash {
        0
    } else {
        let rest = spec_topic_index(topics.drop_first(), hash);
        if rest < 0 {
            -1
        } else {
            rest + 1
        }
    }
}

/// The entries of a topic, empty when the topic has never been written.
pub open spec fn spec_topic_entries(q: IntentQueue, hash: Seq<u8>) -> Seq<Seq<u8>> {
    let i = spec_topic_index(q.topics@, hash);
    if i < 0 {
        Seq::empty()
    } else {
        entries_view(q.topics@[i].entries@)
    }
}

/// Every topic hash appears at most once.
pub open spec fn queue_well_formed(q: IntentQueue) -> bool {
    forall|i: int, j: int|
        0 <= i < j < q.topics@.len() ==> (#[trigger] q.topics@[i].hash)@ != (
        #[trigger] q.topics@[j].hash)@
}

proof fn lemma_topic_index_bounds(topics: Seq<Topic>, hash: Seq<u8>)
    ensures
        -1 <= spec_topic_index(topics, hash) < topics.len(),
        spec_topic_index(topics, hash) >= 0 ==> topics[spec_topic_index(topics, hash)].hash@
            == hash,
    decreases topics.len(),
{
    if topics.len() > 0 && topics[0].hash@ != hash {
        lemma_topic_index_bounds(topics.drop_first(), hash);
    }
}

proof fn lemma_topic_index_of_match(topics: Seq<Topic>, hash: Seq<u8>, i: int)
    requires
        0 <= i < topics.len(),
        topics[i].hash@ == hash,
        forall|k: int| 0 <= k < i ==> (#[trigger] topics[k].hash)@ != hash,
    ensures
        spec_topic_index(topics, hash) == i,
    decreases i,
{
    if i == 0 {
    } else {
        assert(topics.drop_first()[i - 1] == topics[i]);
        assert(forall|k: int|
            0 <= k < i - 1 ==> (#[trigger] topics.drop_first()[k].hash)@ == topics[k + 1].hash@);
        lemma_topic_index_of_match(topics.drop_first(), hash, i - 1);
    }
}

proof fn lemma_topic_index_of_none(topics: Seq<Topic>, hash: Seq<u8>)
    requires
        forall|k: int| 0 <= k < topics.len() ==> (#[trigger] topics[k].hash)@ != hash,
    ensures
        spec_topic_index(topics, hash) == -1,
    decreases topics.len(),
{
    if topics.len() > 0 {
        assert(forall|k: int|
            0 <= k < topics.len() - 1 ==> (#[trigger] topics.drop_first()[k].hash)@ == topics[k
                + 1].hash@);
        lemma_topic_index_of_none(topics.drop_first(), hash);
    }
}

proof fn lemma_index_stable_under_entry_change(pre: Seq<Topic>, post: Seq<Topic>, h: Seq<u8>)
    requires
        pre.len() == post.len(),
        forall|k: int| 0 <= k < pre.len() ==> (#[trigger] post[k].hash)@ == pre[k].hash@,
    ensures
        spec_topic_index(post, h) == spec_topic_index(pre, h),
    decreases pre.len(),
{
    if pre.len() > 0 {
        assert(forall|k: int|
            0 <= k < pre.len() - 1 ==> (#[trigger] post.drop_first()[k].hash)@ == post[k
                + 1].hash@ && (#[trigger] pre.drop_first()[k].hash)@ == pre[k + 1].hash@);
        lemma_index_stable_under_entry_change(pre.drop_first(), post.drop_first(), h);
    }
}

proof fn lemma_index_push_other(pre: Seq<Topic>, t: Topic, h: Seq<u8>)
    requires
        t.hash@ != h,
    ensures
        spec_topic_index(pre.push(t), h) == spec_topic_index(pre, h),
    decreases pre.len(),
{
    if pre.len() == 0 {
        assert(pre.push(t)[0] == t);
        assert(pre.push(t).drop_first() =~= Seq::<Topic>::empty());
        assert(spec_topic_index(Seq::<Topic>::empty(), h) == -1);
        assert(spec_topic_index(pre.push(t), h) == -1);
        assert(spec_topic_index(pre, h) == -1);
    } else {
        assert(pre.push(t)[0] == pre[0]);
        assert(pre.push(t).drop_first() =~= pre.drop_first().push(t));
        lemma_index_push_other(pre.drop_first(), t, h);
        assert(spec_topic_index(pre.push(t).drop_first(), h) == spec_topic_index(
            pre.drop_first(),
            h,
        ));
    }
}

/// Bytewise equality of two byte slices.
pub fn bytes_eq(a: &[u8], b: &[u8]) -> (r: bool)
    ensures
        r == (a@ == b@),
{
    if a.len() != b.len() {
        proof {
            assert(a@ != b@);
        }
        return false;
    }
    let mut i: usize = 0;
    while i < a.len()
        invariant
            i <= a.len(),
            a@.len() == b@.len(),
            forall|k: int| 0 <= k < i ==> a@[k] == b@[k],
        decreases a.len() - i,
    {
        if a[i] != b[i] {
            return false;
        }
        i = i + 1;
    }
    proof {
        assert(a@ =~= b@);
    }
    true
}

/// A copy of a byte vector.
pub fn copy_bytes(v: &Vec<u8>) -> (r: Vec<u8>)
    ensures
        r@ == v@,
{
    let mut out: Vec<u8> = Vec::new();
    let mut i: usize = 0;
    while i < v.len()
        invariant
            i <= v.len(),
            out@ == v@.take(i as int),
        decreases v.len() - i,
    {
        out.push(v[i]);
        i = i + 1;
        proof {
            assert(out@ =~= v@.take(i as int));
        }
    }
    proof {
        assert(out@ =~= v@);
    }
    out
}

impl IntentQueue {
    /// An empty queue.
    pub fn new() -> (r: IntentQueue)
        ensures
            queue_well_formed(r),
            r.topics@.len() == 0,
    {
        IntentQueue { topics: Vec::new() }
    }

    /// The index of the topic with this hash, if it has been written to.
    fn find_topic(&self, hash: &[u8]) -> (r: Option<usize>)
        ensures
            r matches Some(i) ==> (i as int) < self.topics@.len() && self.topics@[i as int].hash@
                == hash@ && spec_topic_index(self.topics@, hash@) == i as int,
            r is None ==> spec_topic_index(self.topics@, hash@) == -1 && forall|k: int|
                0 <= k < self.topics@.len() ==> (#[trigger] self.topics@[k].hash)@ != hash@,
    {
        let mut i: usize = 0;
        while i < self.topics.len()
            invariant
                i <= self.topics@.len(),
                forall|k: int| 0 <= k < i ==> (#[trigger] self.topics@[k].hash)@ != hash@,
            decreases self.topics@.len() - i,
        {
            if bytes_eq(self.topics[i].hash.as_slice(), hash) {
                proof {
                    lemma_topic_index_of_match(self.topics@, hash@, i as int);
                }
                return Some(i);
            }
            i = i + 1;
        }
        proof {
            lemma_topic_index_of_none(self.topics@, hash@);
        }
        None
    }

    /// Appends an entry to a topic, creating the topic on first write.  The
    /// entry becomes the last of the topic; no other topic changes.
    pub fn write_local(&mut self, topic_hash: Vec<u8>, content: Vec<u8>) -> (r: QueueResponse)
        requires
            queue_well_formed(*old(self)),
        ensures
            queue_well_formed(*final(self)),
            r is OpSuccess,
            spec_topic_entries(*final(self), topic_hash@) == spec_topic_entries(
                *old(self),
                topic_hash@,
            ).push(content@),
            forall|h: Seq<u8>|
                h != topic_hash@ ==> #[trigger] spec_topic_entries(*final(self), h)
                    == spec_topic_entries(*old(self), h),
    {
        let ghost pre = *self;
        match self.find_topic(topic_hash.as_slice()) {
            Some(i) => {
                let topic = &mut self.topics[i];
                topic.entries.push(content);
                proof {
                    assert(self.topics@.len() == pre.topics@.len());
                    assert(forall|k: int|
                        0 <= k < self.topics@.len() && k != i ==> self.topics@[k]
                            == pre.topics@[k]);
                    assert(forall|k: int|
                        0 <= k < self.topics@.len() ==> (#[trigger] self.topics@[k].hash)@
                            == pre.topics@[k].hash@);
                    assert forall|h: Seq<u8>| true implies #[trigger] spec_topic_index(
                        self.topics@,
                        h,
                    ) == spec_topic_index(pre.topics@, h) by {
                        lemma_index_stable_under_entry_change(pre.topics@, self.topics@, h);
                    }
                    assert(entries_view(self.topics@[i as int].entries@) =~= entries_view(
                        pre.topics@[i as int].entries@,
                    ).push(content@));
                    assert(spec_topic_entries(*self, topic_hash@) =~= spec_topic_entries(
                        pre,
                        topic_hash@,
                    ).push(content@));
                    assert forall|h: Seq<u8>| h != topic_hash@ implies #[trigger] spec_topic_entries(
                        *self,
                        h,
                    ) == spec_topic_entries(pre, h) by {
                        lemma_topic_index_bounds(pre.topics@, h);
                        let j = spec_topic_index(pre.topics@, h);
                        if j >= 0 {
                            assert(j != i as int);
                            assert(entries_view(self.topics@[j].entries@) =~= entries_view(
                                pre.topics@[j].entries@,
                            ));
                        }
                    }
                }
                QueueResponse::OpSuccess
            },
            None => {
                let mut entries: Vec<Vec<u8>> = Vec::new();
                entries.push(content);
                let ghost new_hash = topic_hash@;
                self.topics.push(Topic { hash: topic_hash, entries });
                proof {
                    let n = pre.topics@.len() as int;
                    assert(self.topics@ =~= pre.topics@.push(self.topics@[n]));
                    assert(self.topics@[n].hash@ == new_hash);
                    assert(forall|k: int| 0 <= k < n ==> self.topics@[k] == pre.topics@[k]);
                    lemma_topic_index_of_match(self.topics@, new_hash, n);
                    assert(entries_view(self.topics@[n].entries@) =~= Seq::empty().push(
                        content@,
                    ));
                    assert(spec_topic_entries(pre, new_hash) =~= Seq::<Seq<u8>>::empty());
                    assert(spec_topic_entries(*self, new_hash) =~= spec_topic_entries(
                        pre,
                        new_hash,
                    ).push(content@));
                    assert forall|h: Seq<u8>| h != new_hash implies #[trigger] spec_topic_entries(
                        *self,
                        h,
                    ) == spec_topic_entries(pre, h) by {
                        lemma_index_push_other(pre.topics@, self.topics@[n], h);
                        lemma_topic_index_bounds(pre.topics@, h);
                        let j = spec_topic_index(pre.topics@, h);
                        if j >= 0 {
                            assert(entries_view(self.topics@[j].entries@) =~= entries_view(
                                pre.topics@[j].entries@,
                            ));
                        }
                    }
                }
                QueueResponse::OpSuccess
            },
        }
    }

    /// The entries of a topic whose index is strictly greater than `idx`,
    /// in ascending index order: exactly the topic's suffix from `idx` on.
    pub fn get_after(&self, topic_hash: &[u8], idx: usize) -> (r: Vec<Vec<u8>>)
        ensures
            entries_view(r@) == if idx as int <= spec_topic_entries(*self, topic_hash@).len() {
                spec_topic_entries(*self, topic_hash@).skip(idx as int)
            } else {
                Seq::<Seq<u8>>::empty()
            },
    {
        let mut out: Vec<Vec<u8>> = Vec::new();
        match self.find_topic(topic_hash) {
            Some(i) => {
                let ghost es = entries_view(self.topics@[i as int].entries@);
                proof {
                    assert(spec_topic_entries(*self, topic_hash@) == es);
                }
                let n = self.topics[i].entries.len();
                if idx > n {
                    proof {
                        assert(entries_view(out@) =~= Seq::<Seq<u8>>::empty());
                    }
                    return out;
                }
                let mut k: usize = idx;
                while k < n
                    invariant
                        idx <= k <= n,
                        (i as int) < self.topics@.len(),
                        self.topics@[i as int].entries@.len() == n,
                        es == entries_view(self.topics@[i as int].entries@),
                        out@.len() == k - idx,
                        forall|j: int|
                            0 <= j < out@.len() ==> (#[trigger] out@[j])@ == es[idx + j],
                    decreases n - k,
                {
                    out.push(copy_bytes(&self.topics[i].entries[k]));
                    k = k + 1;
                }
                proof {
                    let target = es.skip(idx as int);
                    assert(entries_view(out@).len() == target.len());
                    assert forall|j: int|
                        0 <= j < target.len() implies entries_view(out@)[j] == target[j] by {
                        assert(entries_view(out@)[j] == out@[j]@);
                        assert(out@[j]@ == es[idx + j]);
                    }
                    assert(entries_view(out@) =~= target);
                }
                out
            },
            None => {
                proof {
                    assert(entries_view(out@) =~= Seq::<Seq<u8>>::empty());
                    assert(spec_topic_entries(*self, topic_hash@) =~= Seq::<Seq<u8>>::empty());
                }
                out
            },
        }
    }

    /// At most the first `n` entries with index strictly greater than `idx`.
    pub fn get_n_after(&self, topic_hash: &[u8], idx: usize, n: usize) -> (r: Vec<Vec<u8>>)
        ensures
            entries_view(r@) == if idx as int <= spec_topic_entries(*self, topic_hash@).len() {
                let rest = spec_topic_entries(*self, topic_hash@).skip(idx as int);
                if n as int <= rest.len() {
                    rest.take(n as int)
                } else {
                    rest
                }
            } else {
                Seq::<Seq<u8>>::empty()
            },
    {
        let all = self.get_after(topic_hash, idx);
        let mut out: Vec<Vec<u8>> = Vec::new();
        let mut k: usize = 0;
        while k < all.len() && k < n
            invariant
                k <= all@.len(),
                k <= n,
                out@.len() == k,
                forall|j: int| 0 <= j < k ==> (#[trigger] out@[j])@ == all@[j]@,
            decreases all@.len() - k,
        {
            out.push(copy_bytes(&all[k]));
            k = k + 1;
        }
        proof {
            let av = entries_view(all@);
            let target = if n as int <= av.len() {
                av.take(n as int)
            } else {
                av
            };
            assert(entries_view(out@).len() == target.len());
            assert forall|j: int| 0 <= j < target.len() implies entries_view(out@)[j]
                == target[j] by {
                assert(entries_view(out@)[j] == out@[j]@);
                assert(out@[j]@ == all@[j]@);
                assert(av[j] == all@[j]@);
            }
            assert(entries_view(out@) =~= target);
        }
        out
    }

    /// All entries of a topic, in write order.
    pub fn get(&self, topic_hash: &[u8]) -> (r: Vec<Vec<u8>>)
        ensures
            entries_view(r@) == spec_topic_entries(*self, topic_hash@),
    {
        let r = self.get_after(topic_hash, 0);
        proof {
            assert(spec_topic_entries(*self, topic_hash@).skip(0) =~= spec_topic_entries(
                *self,
                topic_hash@,
            ));
        }
        r
    }

    /// At most the first `n` entries of a topic.
    pub fn get_n(&self, topic_hash: &[u8], n: usize) -> (r: Vec<Vec<u8>>)
        ensures
            entries_view(r@) == if n as int <= spec_topic_entries(*self, topic_hash@).len() {
                spec_topic_entries(*self, topic_hash@).take(n as int)
            } else {
                spec_topic_entries(*self, topic_hash@)
            },
    {
        let r = self.get_n_after(topic_hash, 0, n);
        proof {
            assert(spec_topic_entries(*self, topic_hash@).skip(0) =~= spec_topic_entries(
                *self,
                topic_hash@,
            ));
        }
        r
    }
}

/// Frames a queue write: the topic name is hashed with SHA3-256 and hex
/// encoded, and the subtopic byte is prepended to the payload.
pub fn build_queue_write(topic_name: &str, subtopic: u8, payload: &[u8]) -> (r: QueueWriteRequest)
    ensures
        r.topic@ == spec_hex_of(sha3_256_of(topic_name.spec_bytes())),
        r.content@ == seq![subtopic] + payload@,
{
    let digest = sha3_256(topic_name.as_bytes());
    let topic = hex_encode(digest.as_slice());
    let mut content: Vec<u8> = Vec::new();
    content.push(subtopic);
    let mut i: usize = 0;
    while i < payload.len()
        invariant
            i <= payload@.len(),
            content@ == seq![subtopic] + payload@.take(i as int),
        decreases payload@.len() - i,
    {
        content.push(payload[i]);
        i = i + 1;
        proof {
            assert(content@ =~= seq![subtopic] + payload@.take(i as int));
        }
    }
    proof {
        assert(content@ =~= seq![subtopic] + payload@);
    }
    QueueWriteRequest { topic, content }
}

} // verus!

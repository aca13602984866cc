use crate::error::Error;
use vstd::bytes::*;
use vstd::map::*;
use vstd::prelude::*;
use vstd::slice::*;

verus! {

/// The mathematical shape of a stored envelope.
pub struct EnvModel {
    pub topic: Seq<u8>,
    pub tag: u8,
    pub timestamp: u64,
    pub payload: Seq<u8>,
}

/// The stored unit for one topic: the latest encoded payload together with
/// its type tag, the topic name and a write stamp.
#[derive(Debug)]
pub struct Envelope {
    /// The topic this envelope is filed under.
    pub topic: Vec<u8>,
    /// The tag byte of the payload type that was published.
    pub tag: u8,
    /// The host's write stamp of the publish that produced this envelope.
    pub timestamp: u64,
    /// The encoded payload.
    pub payload: Vec<u8>,
}

impl View for Envelope {
    type V = EnvModel;

    open spec fn view(&self) -> EnvModel {
        EnvModel { topic: self.topic@, tag: self.tag, timestamp: self.timestamp, payload: self.payload@ }
    }
}

/// An envelope whose variable-length fields fit the length prefixes of the
/// wire and persistence formats.
pub open spec fn spec_env_wf(e: EnvModel) -> bool {
    e.topic.len() <= 0xffff && e.payload.len() <= 0xffff_ffff
}

/// No two entries file under the same topic.
pub open spec fn spec_topics_distinct(es: Seq<EnvModel>) -> bool {
    forall|i: int, j: int| 0 <= i < j < es.len() ==> es[i].topic != es[j].topic
}

/// The first entry filed under `topic`, scanning front to back.
pub open spec fn spec_lookup(es: Seq<EnvModel>, topic: Seq<u8>) -> Option<EnvModel>
    decreases es.len(),
{
    if es.len() == 0 {
        None
    } else if es[0].topic == topic {
        Some(es[0])
    } else {
        spec_lookup(es.drop_first(), topic)
    }
}

/// When no entry files under `topic`, the lookup finds nothing.
pub proof fn lemma_lookup_none(es: Seq<EnvModel>, topic: Seq<u8>)
    requires
        forall|j: int| 0 <= j < es.len() ==> es[j].topic != topic,
    ensures
        spec_lookup(es, topic) is None,
    decreases es.len(),
{
    if es.len() > 0 {
        lemma_lookup_none(es.drop_first(), topic);
    }
}

/// When some entry files under `topic`, the lookup finds one.
pub proof fn lemma_lookup_some(es: Seq<EnvModel>, topic: Seq<u8>, i: int)
    requires
        0 <= i < es.len(),
        es[i].topic == topic,
    ensures
        spec_lookup(es, topic) is Some,
    decreases es.len(),
{
    if es[0].topic != topic {
        lemma_lookup_some(es.drop_first(), topic, i - 1);
    }
}

/// When entry `i` files under `topic` and no earlier entry does, the lookup
/// finds exactly entry `i`.
pub proof fn lemma_lookup_at(es: Seq<EnvModel>, topic: Seq<u8>, i: int)
    requires
        0 <= i < es.len(),
        es[i].topic == topic,
        forall|j: int| 0 <= j < i ==> es[j].topic != topic,
    ensures
        spec_lookup(es, topic) == Some(es[i]),
    decreases es.len(),
{
    if i > 0 {
        lemma_lookup_at(es.drop_first(), topic, i - 1);
    }
}

/// Replacing the entry at `i` by one under the same topic moves the lookup
/// of that topic to the new entry and no other.
pub proof fn lemma_lookup_update(es: Seq<EnvModel>, i: int, e: EnvModel)
    requires
        0 <= i < es.len(),
        es[i].topic == e.topic,
    ensures
        forall|k: Seq<u8>| k != e.topic ==> spec_lookup(es.update(i, e), k) == spec_lookup(es, k),
    decreases es.len(),
{
    if i == 0 {
        assert(es.update(0, e).drop_first() =~= es.drop_first());
    } else {
        lemma_lookup_update(es.drop_first(), i - 1, e);
        assert(es.update(i, e).drop_first() =~= es.drop_first().update(i - 1, e));
        assert(es.update(i, e)[0] == es[0]);
        assert forall|k: Seq<u8>| k != e.topic implies spec_lookup(es.update(i, e), k)
            == spec_lookup(es, k) by {
            assert(spec_lookup(es.drop_first().update(i - 1, e), k) == spec_lookup(
                es.drop_first(),
                k,
            ));
        }
    }
}

/// Appending an entry adds its topic to the lookup and changes no other.
pub proof fn lemma_lookup_push(es: Seq<EnvModel>, e: EnvModel)
    ensures
        forall|k: Seq<u8>| k != e.topic ==> spec_lookup(es.push(e), k) == spec_lookup(es, k),
        spec_lookup(es, e.topic) is None ==> spec_lookup(es.push(e), e.topic) == Some(e),
    decreases es.len(),
{
    if es.len() == 0 {
        assert(es.push(e)[0] == e);
        assert(es.push(e).drop_first() =~= Seq::<EnvModel>::empty());
        assert forall|k: Seq<u8>| k != e.topic implies spec_lookup(es.push(e), k) == spec_lookup(
            es,
            k,
        ) by {
            assert(spec_lookup(es.push(e).drop_first(), k) is None);
        }
    } else {
        lemma_lookup_push(es.drop_first(), e);
        assert(es.push(e).drop_first() =~= es.drop_first().push(e));
        assert(es.push(e)[0] == es[0]);
        assert forall|k: Seq<u8>| k != e.topic implies spec_lookup(es.push(e), k) == spec_lookup(
            es,
            k,
        ) by {
            assert(spec_lookup(es.drop_first().push(e), k) == spec_lookup(es.drop_first(), k));
        }
        if spec_lookup(es, e.topic) is None {
            assert(es[0].topic != e.topic);
        }
    }
}

/// The models of a run of envelopes, in order.
pub open spec fn spec_models(es: Seq<Envelope>) -> Seq<EnvModel> {
    es.map_values(|e: Envelope| e@)
}

/// A run of entries as a mapping from topic to the entry filed under it.
pub open spec fn spec_store_map(es: Seq<EnvModel>) -> Map<Seq<u8>, EnvModel> {
    Map::new(
        |t: Seq<u8>| spec_lookup(es, t) is Some,
        |t: Seq<u8>| spec_lookup(es, t)->Some_0,
    )
}

/// Compares two byte strings by contents.
pub fn bytes_eq(a: &[u8], b: &[u8]) -> (r: bool)
    ensures
        r == (a@ == b@),
{
    if a.len() != b.len() {
        return false;
    }
    let mut i: usize = 0;
    while i < a.len()
        invariant
            i <= a@.len(),
            a@.len() == b@.len(),
            forall|j: int| 0 <= j < i ==> a@[j] == b@[j],
        decreases a@.len() - i,
    {
        if *slice_index_get(a, i) != *slice_index_get(b, i) {
            return false;
        }
        i = i + 1;
    }
    proof {
        assert(a@ =~= b@);
    }
    true
}

/// The persistent mapping from topic name to the latest envelope published
/// under it.  A write replaces the topic's envelope or files a new one; a
/// read never blocks and sees exactly the latest write.
#[derive(Debug)]
pub struct TopicStore {
    entries: Vec<Envelope>,
}

impl TopicStore {
    /// The entries as they stand, in filing order.
    pub closed spec fn entries_spec(&self) -> Seq<EnvModel> {
        spec_models(self.entries@)
    }

    /// Topics are filed at most once and every envelope fits the codecs.
    pub open spec fn wf(&self) -> bool {
        spec_topics_distinct(self.entries_spec()) && forall|i: int|
            0 <= i < self.entries_spec().len() ==> spec_env_wf(self.entries_spec()[i])
    }

    /// The store as a mapping from topic to latest envelope.
    pub open spec fn view(&self) -> Map<Seq<u8>, EnvModel> {
        spec_store_map(self.entries_spec())
    }

    /// Every envelope in the store's mapping is well formed.
    pub proof fn lemma_view_wf(&self, t: Seq<u8>)
        requires
            self.wf(),
            self@.contains_key(t),
        ensures
            spec_env_wf(self@[t]),
            self@[t].topic == t,
    {
        self.lemma_lookup_is_at(t);
    }

    /// A key the mapping contains is found at some entry index.
    proof fn lemma_lookup_is_at(&self, t: Seq<u8>)
        requires
            self@.contains_key(t),
        ensures
            exists|i: int|
                0 <= i < self.entries_spec().len() && self.entries_spec()[i] == self@[t]
                    && self.entries_spec()[i].topic == t,
    {
        Self::lemma_lookup_found(self.entries_spec(), t);
    }

    /// A lookup that finds an entry finds it at some index, under its topic.
    proof fn lemma_lookup_found(es: Seq<EnvModel>, t: Seq<u8>)
        requires
            spec_lookup(es, t) is Some,
        ensures
            exists|i: int|
                0 <= i < es.len() && es[i] == spec_lookup(es, t)->Some_0 && es[i].topic == t,
        decreases es.len(),
    {
        if es.len() > 0 && es[0].topic != t {
            Self::lemma_lookup_found(es.drop_first(), t);
            let i = choose|i: int|
                0 <= i < es.drop_first().len() && es.drop_first()[i] == spec_lookup(
                    es.drop_first(),
                    t,
                )->Some_0 && es.drop_first()[i].topic == t;
            assert(es[i + 1] == es.drop_first()[i]);
        }
    }

    /// Builds an empty store.
    pub fn new() -> (r: Self)
        ensures
            r.wf(),
            r@ == Map::<Seq<u8>, EnvModel>::empty(),
    {
        let r = TopicStore { entries: Vec::new() };
        proof {
            assert forall|t: Seq<u8>| !(spec_lookup(r.entries_spec(), t) is Some) by {}
            assert(r@ =~= Map::<Seq<u8>, EnvModel>::empty());
        }
        r
    }

    /// Replaces the envelope filed under `topic`, or files the first one.
    /// Always succeeds: publishing a topic creates it.
    pub fn write(&mut self, topic: Vec<u8>, tag: u8, timestamp: u64, payload: Vec<u8>)
        requires
            old(self).wf(),
            topic@.len() <= 0xffff,
            payload@.len() <= 0xffff_ffff,
        ensures
            final(self).wf(),
            final(self)@ == old(self)@.insert(
                topic@,
                EnvModel { topic: topic@, tag, timestamp, payload: payload@ },
            ),
    {
        let ghost env = EnvModel { topic: topic@, tag, timestamp, payload: payload@ };
        let ghost old_es = self.entries_spec();
        let n = self.entries.len();
        let mut i: usize = 0;
        while i < n
            invariant
                n == self.entries@.len(),
                i <= n,
                self.entries_spec() == old_es,
                old_es == old(self).entries_spec(),
                old(self).wf(),
                env == (EnvModel { topic: topic@, tag, timestamp, payload: payload@ }),
                spec_env_wf(env),
                forall|j: int| 0 <= j < i ==> self.entries_spec()[j].topic != topic@,
            decreases n - i,
        {
            let hit = bytes_eq(self.entries[i].topic.as_slice(), topic.as_slice());
            if hit {
                let e = Envelope { topic, tag, timestamp, payload };
                proof {
                    assert(self.entries_spec()[i as int].topic == topic@);
                }
                self.entries.set(i, e);
                proof {
                    let es_new = self.entries_spec();
                    assert(self.entries@.len() == old_es.len());
                    assert forall|j: int| 0 <= j < es_new.len() implies es_new[j] == old_es.update(
                        i as int,
                        env,
                    )[j] by {
                        assert(es_new[j] == self.entries@[j]@);
                        if j == i {
                            assert(self.entries@[j] == e);
                            assert(e@ == env);
                        } else {
                            assert(es_new[j] == old_es[j]);
                        }
                    }
                    assert(es_new =~= old_es.update(i as int, env));
                    assert forall|a: int, b: int| 0 <= a < b < es_new.len() implies es_new[a].topic
                        != es_new[b].topic by {
                        assert(es_new[a].topic == old_es[a].topic);
                        assert(es_new[b].topic == old_es[b].topic);
                    }
                    assert forall|a: int| 0 <= a < es_new.len() implies spec_env_wf(
                        es_new[a],
                    ) by {
                        if a == i {
                            assert(es_new[a] == env);
                        } else {
                            assert(es_new[a] == old_es[a]);
                            assert(spec_env_wf(old_es[a]));
                        }
                    }
                    lemma_lookup_update(old_es, i as int, env);
                    lemma_lookup_at(es_new, topic@, i as int);
                    assert(self@ =~= old(self)@.insert(topic@, env));
                }
                return;
            }
            i = i + 1;
        }
        let e = Envelope { topic, tag, timestamp, payload };
        self.entries.push(e);
        proof {
            let es_new = self.entries_spec();
            assert forall|j: int| 0 <= j < es_new.len() implies es_new[j] == old_es.push(env)[j] by {
                if j == n {
                    assert(self.entries@[j] == e);
                } else {
                    assert(es_new[j] == old_es[j]);
                }
            }
            assert(es_new =~= old_es.push(env));
            lemma_lookup_none(old_es, topic@);
            lemma_lookup_push(old_es, env);
            assert(es_new[n as int] == env);
            assert forall|a: int, b: int| 0 <= a < b < es_new.len() implies es_new[a].topic
                != es_new[b].topic by {
                if b < n {
                    assert(es_new[a] == old_es[a]);
                    assert(es_new[b] == old_es[b]);
                } else {
                    assert(es_new[b] == env);
                    assert(es_new[a] == old_es[a]);
                }
            }
            assert forall|a: int| 0 <= a < es_new.len() implies spec_env_wf(es_new[a]) by {}
            lemma_lookup_at(es_new, topic@, n as int);
            assert(self@ =~= old(self)@.insert(topic@, env));
        }
    }

    /// Reads the envelope filed under `topic`; fails with `TopicNotFound`
    /// exactly when nothing was ever published to it.
    pub fn read(&self, topic: &[u8]) -> (r: Result<&Envelope, Error>)
        ensures
            match r {
                Ok(e) => self@.contains_key(topic@) && e@ == self@[topic@],
                Err(err) => err == Error::TopicNotFound && !self@.contains_key(topic@),
            },
    {
        let n = self.entries.len();
        let mut i: usize = 0;
        while i < n
            invariant
                n == self.entries@.len(),
                i <= n,
                forall|j: int| 0 <= j < i ==> self.entries_spec()[j].topic != topic@,
            decreases n - i,
        {
            let hit = bytes_eq(self.entries[i].topic.as_slice(), topic);
            if hit {
                proof {
                    lemma_lookup_at(self.entries_spec(), topic@, i as int);
                }
                return Ok(&self.entries[i]);
            }
            i = i + 1;
        }
        proof {
            lemma_lookup_none(self.entries_spec(), topic@);
        }
        Err(Error::TopicNotFound)
    }
}

// ---------------------------------------------------------------------------
// Persistence: the store as bytes.
//
// Layout: [entry count: u64 le] then one block per entry in filing order:
// [topic len: u16 le][topic][tag][timestamp: u64 le][payload len: u32 le]
// [payload].  Restoring accepts exactly what a snapshot wrote.
// ---------------------------------------------------------------------------
/// The byte encoding of one stored envelope.
pub open spec fn spec_enc_env(e: EnvModel) -> Seq<u8> {
    spec_u16_to_le_bytes(e.topic.len() as u16) + e.topic + seq![e.tag] + spec_u64_to_le_bytes(
        e.timestamp,
    ) + spec_u32_to_le_bytes(e.payload.len() as u32) + e.payload
}

/// The byte encoding of a run of envelopes, in order.
pub open spec fn spec_enc_entries(es: Seq<EnvModel>) -> Seq<u8>
    decreases es.len(),
{
    if es.len() == 0 {
        Seq::empty()
    } else {
        spec_enc_env(es[0]) + spec_enc_entries(es.drop_first())
    }
}

/// The byte encoding of a whole store.
pub open spec fn spec_enc_store(es: Seq<EnvModel>) -> Seq<u8> {
    spec_u64_to_le_bytes(es.len() as u64) + spec_enc_entries(es)
}

/// The envelope at the head of `b` and the bytes it occupies, if any.
pub open spec fn spec_dec_env_at(b: Seq<u8>) -> Option<(EnvModel, int)> {
    if b.len() < 2 {
        None
    } else {
        let tlen = spec_u16_from_le_bytes(b.subrange(0, 2)) as int;
        if b.len() >= 15 + tlen {
            let plen = spec_u32_from_le_bytes(b.subrange(11 + tlen, 15 + tlen)) as int;
            if b.len() >= 15 + tlen + plen {
                Some(
                    (
                        EnvModel {
                            topic: b.subrange(2, 2 + tlen),
                            tag: b[2 + tlen],
                            timestamp: spec_u64_from_le_bytes(b.subrange(3 + tlen, 11 + tlen)),
                            payload: b.subrange(15 + tlen, 15 + tlen + plen),
                        },
                        15 + tlen + plen,
                    ),
                )
            } else {
                None
            }
        } else {
            None
        }
    }
}

/// What `b` decodes to as a run of exactly `n` envelopes, if anything.
pub open spec fn spec_dec_entries(b: Seq<u8>, n: nat) -> Option<Seq<EnvModel>>
    decreases n,
{
    if n == 0 {
        if b.len() == 0 {
            Some(Seq::empty())
        } else {
            None
        }
    } else {
        match spec_dec_env_at(b) {
            None => None,
            Some((e, used)) => match spec_dec_entries(b.skip(used), (n - 1) as nat) {
                None => None,
                Some(rest) => Some(seq![e] + rest),
            },
        }
    }
}

/// What `b` decodes to as a whole store, if anything.
pub open spec fn spec_dec_store(b: Seq<u8>) -> Option<Seq<EnvModel>> {
    if b.len() < 8 {
        None
    } else {
        spec_dec_entries(b.skip(8), spec_u64_from_le_bytes(b.subrange(0, 8)) as nat)
    }
}

/// Decoding finds a well-formed envelope at the head of its own encoding,
/// whatever follows it.
pub proof fn lemma_env_round_trip_at(e: EnvModel, rest: Seq<u8>)
    requires
        spec_env_wf(e),
    ensures
        spec_dec_env_at(spec_enc_env(e) + rest) == Some((e, spec_enc_env(e).len() as int)),
{
    lemma_auto_spec_u16_to_from_le_bytes();
    lemma_auto_spec_u32_to_from_le_bytes();
    lemma_auto_spec_u64_to_from_le_bytes();
    let b = spec_enc_env(e) + rest;
    let tlen = e.topic.len() as int;
    let plen = e.payload.len() as int;
    assert(spec_enc_env(e).len() == 15 + tlen + plen);
    assert(b.subrange(0, 2) =~= spec_u16_to_le_bytes(e.topic.len() as u16));
    assert(b.subrange(2, 2 + tlen) =~= e.topic);
    assert(b[2 + tlen] == e.tag);
    assert(b.subrange(3 + tlen, 11 + tlen) =~= spec_u64_to_le_bytes(e.timestamp));
    assert(b.subrange(11 + tlen, 15 + tlen) =~= spec_u32_to_le_bytes(e.payload.len() as u32));
    assert(b.subrange(15 + tlen, 15 + tlen + plen) =~= e.payload);
}

/// Decoding inverts encoding for a run of well-formed envelopes.
pub proof fn lemma_entries_round_trip(es: Seq<EnvModel>)
    requires
        forall|i: int| 0 <= i < es.len() ==> spec_env_wf(es[i]),
    ensures
        spec_dec_entries(spec_enc_entries(es), es.len()) == Some(es),
    decreases es.len(),
{
    if es.len() > 0 {
        let head = spec_enc_env(es[0]);
        let tail = spec_enc_entries(es.drop_first());
        lemma_env_round_trip_at(es[0], tail);
        assert((head + tail).skip(head.len() as int) =~= tail);
        lemma_entries_round_trip(es.drop_first());
        assert(seq![es[0]] + es.drop_first() =~= es);
    }
}

/// Restoring a snapshot of any well-formed store yields its entries back.
pub proof fn lemma_store_round_trip(es: Seq<EnvModel>)
    requires
        forall|i: int| 0 <= i < es.len() ==> spec_env_wf(es[i]),
        es.len() <= 0xffff_ffff_ffff_ffff,
    ensures
        spec_dec_store(spec_enc_store(es)) == Some(es),
{
    lemma_auto_spec_u64_to_from_le_bytes();
    let b = spec_enc_store(es);
    assert(b.subrange(0, 8) =~= spec_u64_to_le_bytes(es.len() as u64));
    assert(b.skip(8) =~= spec_enc_entries(es));
    lemma_entries_round_trip(es);
}

/// Encoding a run of envelopes with one more at the end appends its block.
pub proof fn lemma_enc_entries_snoc(es: Seq<EnvModel>, e: EnvModel)
    ensures
        spec_enc_entries(es.push(e)) == spec_enc_entries(es) + spec_enc_env(e),
    decreases es.len(),
{
    if es.len() == 0 {
        assert(es.push(e)[0] == e);
        assert(es.push(e).drop_first() =~= Seq::<EnvModel>::empty());
        assert(spec_enc_env(e) + spec_enc_entries(Seq::<EnvModel>::empty()) =~= spec_enc_entries(
            es,
        ) + spec_enc_env(e));
    } else {
        lemma_enc_entries_snoc(es.drop_first(), e);
        assert(es.push(e).drop_first() =~= es.drop_first().push(e));
        assert(es.push(e)[0] == es[0]);
        assert(spec_enc_env(es[0]) + (spec_enc_entries(es.drop_first()) + spec_enc_env(e)) =~= (
        spec_enc_env(es[0]) + spec_enc_entries(es.drop_first())) + spec_enc_env(e));
    }
}

/// Whether some entry of `entries` files under `topic`.
fn has_topic(entries: &Vec<Envelope>, topic: &[u8]) -> (r: bool)
    ensures
        r == (spec_lookup(spec_models(entries@), topic@) is Some),
{
    let n = entries.len();
    let mut i: usize = 0;
    while i < n
        invariant
            n == entries@.len(),
            i <= n,
            forall|j: int| 0 <= j < i ==> spec_models(entries@)[j].topic != topic@,
        decreases n - i,
    {
        let hit = bytes_eq(entries[i].topic.as_slice(), topic);
        if hit {
            proof {
                lemma_lookup_some(spec_models(entries@), topic@, i as int);
            }
            return true;
        }
        i = i + 1;
    }
    proof {
        lemma_lookup_none(spec_models(entries@), topic@);
    }
    false
}

impl TopicStore {
    /// Writes the store out as bytes, ready to be persisted.
    pub fn snapshot(&self) -> (r: Vec<u8>)
        requires
            self.wf(),
        ensures
            r@ == spec_enc_store(self.entries_spec()),
            spec_dec_store(r@) == Some(self.entries_spec()),
    {
        let ghost es = self.entries_spec();
        let n = self.entries.len();
        let mut out: Vec<u8> = u64_to_le_bytes(n as u64);
        let mut i: usize = 0;
        while i < n
            invariant
                n == self.entries@.len(),
                i <= n,
                es == self.entries_spec(),
                self.wf(),
                out@ == spec_u64_to_le_bytes(n as u64) + spec_enc_entries(es.take(i as int)),
            decreases n - i,
        {
            let ghost before = out@;
            let e = &self.entries[i];
            proof {
                assert(spec_env_wf(es[i as int]));
                assert(e@ == es[i as int]);
            }
            let mut tl = u16_to_le_bytes(e.topic.len() as u16);
            out.append(&mut tl);
            let mut tb = slice_to_vec(e.topic.as_slice());
            out.append(&mut tb);
            out.push(e.tag);
            let mut ts = u64_to_le_bytes(e.timestamp);
            out.append(&mut ts);
            let mut pl = u32_to_le_bytes(e.payload.len() as u32);
            out.append(&mut pl);
            let mut pb = slice_to_vec(e.payload.as_slice());
            out.append(&mut pb);
            proof {
                assert(out@ =~= before + spec_enc_env(es[i as int]));
                lemma_enc_entries_snoc(es.take(i as int), es[i as int]);
                assert(es.take(i as int).push(es[i as int]) =~= es.take(i + 1));
                assert(out@ =~= spec_u64_to_le_bytes(n as u64) + spec_enc_entries(es.take(i + 1)));
            }
            i = i + 1;
        }
        proof {
            assert(es.take(n as int) =~= es);
            lemma_store_round_trip(es);
        }
        out
    }

    /// Reads a store back from persisted bytes.  Succeeds exactly on bytes
    /// that decode as a store whose topics are pairwise distinct, and then
    /// returns that store.
    pub fn restore(b: &[u8]) -> (r: Option<TopicStore>)
        ensures
            match r {
                Some(s) => {
                    &&& s.wf()
                    &&& spec_dec_store(b@) == Some(s.entries_spec())
                },
                None => spec_dec_store(b@) is None || !spec_topics_distinct(
                    spec_dec_store(b@)->Some_0,
                ),
            },
    {
        if b.len() < 8 {
            return None;
        }
        let n = u64_from_le_bytes(slice_subrange(b, 0, 8));
        let mut acc: Vec<Envelope> = Vec::new();
        let mut off: usize = 8;
        let mut i: u64 = 0;
        while i < n
            invariant
                b@.len() >= 8,
                n == spec_u64_from_le_bytes(b@.subrange(0, 8)),
                8 <= off <= b@.len(),
                i <= n,
                spec_topics_distinct(spec_models(acc@)),
                forall|j: int|
                    0 <= j < acc@.len() ==> spec_env_wf(spec_models(acc@)[j]),
                spec_dec_entries(b@.skip(8), n as nat) == (match spec_dec_entries(
                    b@.skip(off as int),
                    (n - i) as nat,
                ) {
                    Option::None => Option::<Seq<EnvModel>>::None,
                    Option::Some(rest) => Option::Some(spec_models(acc@) + rest),
                }),
            decreases n - i,
        {
            let ghost sub = b@.skip(off as int);
            let ghost m = (n - i) as nat;
            let rem = b.len() - off;
            if rem < 2 {
                proof {
                    assert(spec_dec_env_at(sub) is None);
                }
                return None;
            }
            let tlen = u16_from_le_bytes(slice_subrange(b, off, off + 2)) as usize;
            proof {
                assert(b@.subrange(off as int, off as int + 2) =~= sub.subrange(0, 2));
            }
            if rem < 15 || rem - 15 < tlen {
                proof {
                    assert(sub.len() < 15 + tlen);
                    assert(spec_dec_env_at(sub) is None);
                }
                return None;
            }
            let plen = u32_from_le_bytes(slice_subrange(b, off + 11 + tlen, off + 15 + tlen))
                as usize;
            proof {
                assert(b@.subrange(off + 11 + tlen, off + 15 + tlen) =~= sub.subrange(
                    11 + tlen,
                    15 + tlen,
                ));
            }
            if rem - 15 - tlen < plen {
                proof {
                    assert(sub.len() < 15 + tlen + plen);
                    assert(spec_dec_env_at(sub) is None);
                }
                return None;
            }
            let topic = slice_to_vec(slice_subrange(b, off + 2, off + 2 + tlen));
            let tag = *slice_index_get(b, off + 2 + tlen);
            let timestamp = u64_from_le_bytes(slice_subrange(b, off + 3 + tlen, off + 11 + tlen));
            let payload = slice_to_vec(
                slice_subrange(b, off + 15 + tlen, off + 15 + tlen + plen),
            );
            let e = Envelope { topic, tag, timestamp, payload };
            let used = 15 + tlen + plen;
            proof {
                assert(topic@ =~= sub.subrange(2, 2 + tlen));
                assert(tag == sub[2 + tlen]);
                assert(b@.subrange(off + 3 + tlen, off + 11 + tlen) =~= sub.subrange(
                    3 + tlen,
                    11 + tlen,
                ));
                assert(payload@ =~= sub.subrange(15 + tlen, 15 + tlen + plen));
                assert(spec_dec_env_at(sub) == Some((e@, used as int)));
            }
            let dup = has_topic(&acc, e.topic.as_slice());
            if dup {
                proof {
                    if spec_dec_entries(sub, m) is Some {
                        let ms = spec_models(acc@);
                        let rest = spec_dec_entries(sub.skip(used as int), (m - 1) as nat);
                        assert(rest is Some);
                        let full = ms + (seq![e@] + rest->Some_0);
                        assert(spec_dec_entries(b@.skip(8), n as nat) == Some(full));
                        TopicStore::lemma_lookup_found(ms, e@.topic);
                        let a = choose|a: int|
                            0 <= a < ms.len() && ms[a] == spec_lookup(ms, e@.topic)->Some_0
                                && ms[a].topic == e@.topic;
                        assert(full[a].topic == e@.topic);
                        assert(full[ms.len() as int] == e@);
                        assert(!spec_topics_distinct(full));
                    }
                    assert(spec_dec_store(b@) == spec_dec_entries(b@.skip(8), n as nat));
                }
                return None;
            }
            let ghost old_acc = acc@;
            acc.push(e);
            proof {
                assert(spec_models(acc@) =~= spec_models(old_acc).push(e@));
                assert forall|x: int, y: int|
                    0 <= x < y < spec_models(acc@).len() implies spec_models(acc@)[x].topic
                    != spec_models(acc@)[y].topic by {
                    let ms = spec_models(old_acc);
                    if y < ms.len() {
                        assert(spec_models(acc@)[x] == ms[x]);
                        assert(spec_models(acc@)[y] == ms[y]);
                    } else {
                        assert(spec_models(acc@)[y] == e@);
                        assert(spec_models(acc@)[x] == ms[x]);
                        if ms[x].topic == e@.topic {
                            lemma_lookup_some(ms, e@.topic, x);
                        }
                    }
                }
                assert(sub.skip(used as int) =~= b@.skip(off + used));
                assert(spec_models(old_acc) + (seq![e@] + spec_dec_entries(
                    sub.skip(used as int),
                    (m - 1) as nat,
                )->Some_0) =~= spec_models(acc@) + spec_dec_entries(
                    sub.skip(used as int),
                    (m - 1) as nat,
                )->Some_0);
            }
            off = off + used;
            i = i + 1;
        }
        if off != b.len() {
            proof {
                assert(b@.skip(off as int).len() != 0);
                assert(spec_dec_entries(b@.skip(off as int), 0) is None);
            }
            return None;
        }
        proof {
            assert(b@.skip(off as int).len() == 0);
            assert(spec_dec_entries(b@.skip(off as int), 0) == Some(Seq::<EnvModel>::empty()));
            assert(spec_models(acc@) + Seq::<EnvModel>::empty() =~= spec_models(acc@));
            assert(spec_dec_store(b@) == Some(spec_models(acc@)));
        }
        let s = TopicStore { entries: acc };
        Some(s)
    }
}

} // verus!

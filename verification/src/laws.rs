use crate::error::Error;
use crate::host::HostModel;
use crate::host::lemma_host_snapshot_round_trip;
use crate::host::spec_dec_host_snapshot;
use crate::host::spec_enc_host_snapshot;
use crate::host::spec_next_stamp;
use crate::node::Msg;
use crate::node::spec_publish;
use crate::node::spec_request;
use crate::payload::Payload;
use crate::store::EnvModel;
use crate::store::spec_env_wf;
use crate::store::spec_store_map;
use vstd::prelude::*;

verus! {

/// Round-trip identity: publishing any value of a supported payload type
/// and then requesting the same topic of the same host returns that value,
/// stamped with the write that stored it.
pub proof fn lemma_publish_then_request_round_trip<T: Payload>(h: HostModel, topic: Seq<u8>, v: T)
    requires
        h.state is Started,
    ensures
        spec_request::<T>(spec_publish::<T>(h, topic, v), topic) == Ok::<Msg<T>, Error>(
            Msg { data: v, timestamp: h.stamp },
        ),
{
    T::lemma_enc_dec(v);
}

/// Requesting a topic that nothing was ever published to fails with
/// `TopicNotFound`, whatever else the host holds.
pub proof fn lemma_request_before_publish<T: Payload>(h: HostModel, topic: Seq<u8>)
    requires
        h.state is Started,
        !h.store.contains_key(topic),
    ensures
        spec_request::<T>(h, topic) == Err::<Msg<T>, Error>(Error::TopicNotFound),
{
}

/// Last write wins: after two publishes to one topic, a request returns the
/// second value; the first is overwritten, never merged or appended to.
pub proof fn lemma_last_write_wins<T: Payload>(h: HostModel, topic: Seq<u8>, v1: T, v2: T)
    requires
        h.state is Started,
    ensures
        ({
            let h2 = spec_publish::<T>(spec_publish::<T>(h, topic, v1), topic, v2);
            h2.store[topic].payload == v2.enc_spec() && spec_request::<T>(h2, topic) == Ok::<
                Msg<T>,
                Error,
            >(Msg { data: v2, timestamp: spec_next_stamp(h.stamp) })
        }),
{
    T::lemma_enc_dec(v2);
}

/// Publishing to one topic leaves what a request of any other topic
/// returns exactly as it was: topics never interfere.
pub proof fn lemma_other_topics_unaffected<T: Payload, U: Payload>(
    h: HostModel,
    t1: Seq<u8>,
    t2: Seq<u8>,
    u: U,
)
    requires
        t1 != t2,
    ensures
        spec_request::<T>(spec_publish::<U>(h, t2, u), t1) == spec_request::<T>(h, t1),
{
}

/// Publishes from two nodes to two different topics do not interfere: in
/// either serialization order, each topic afterwards reads back exactly the
/// value published to it.
pub proof fn lemma_concurrent_publishes_do_not_interfere<T: Payload, U: Payload>(
    h: HostModel,
    t1: Seq<u8>,
    t2: Seq<u8>,
    v: T,
    u: U,
)
    requires
        h.state is Started,
        t1 != t2,
    ensures
        ({
            let hab = spec_publish::<U>(spec_publish::<T>(h, t1, v), t2, u);
            let hba = spec_publish::<T>(spec_publish::<U>(h, t2, u), t1, v);
            &&& spec_request::<T>(hab, t1) == Ok::<Msg<T>, Error>(
                Msg { data: v, timestamp: h.stamp },
            )
            &&& spec_request::<U>(hab, t2) == Ok::<Msg<U>, Error>(
                Msg { data: u, timestamp: spec_next_stamp(h.stamp) },
            )
            &&& spec_request::<T>(hba, t1) == Ok::<Msg<T>, Error>(
                Msg { data: v, timestamp: spec_next_stamp(h.stamp) },
            )
            &&& spec_request::<U>(hba, t2) == Ok::<Msg<U>, Error>(
                Msg { data: u, timestamp: h.stamp },
            )
        }),
{
    T::lemma_enc_dec(v);
    U::lemma_enc_dec(u);
}

/// A value stored under another payload type's tag is reported as a decode
/// failure, never silently misread as `T`.
pub proof fn lemma_type_mismatch_is_decode_error<T: Payload, U: Payload>(
    h: HostModel,
    topic: Seq<u8>,
    u: U,
)
    requires
        h.state is Started,
        T::tag_spec() != U::tag_spec(),
    ensures
        spec_request::<T>(spec_publish::<U>(h, topic, u), topic) == Err::<Msg<T>, Error>(
            Error::DecodeError,
        ),
{
}

/// Durability of the latest values: a snapshot of a host read back after a
/// restart carries the same write stamp and maps every topic to the same
/// envelope as before the stop.
pub proof fn lemma_restart_preserves_store(stamp: u64, es: Seq<EnvModel>)
    requires
        forall|i: int| 0 <= i < es.len() ==> spec_env_wf(es[i]),
        es.len() <= 0xffff_ffff_ffff_ffff,
    ensures
        ({
            let d = spec_dec_host_snapshot(spec_enc_host_snapshot(stamp, es));
            &&& d is Some
            &&& d->Some_0.0 == stamp
            &&& spec_store_map(d->Some_0.1) == spec_store_map(es)
        }),
{
    lemma_host_snapshot_round_trip(stamp, es);
}

} // verus!

use crate::error::Error;
use crate::store::EnvModel;
use crate::store::TopicStore;
use crate::store::lemma_store_round_trip;
use crate::store::spec_dec_store;
use crate::store::spec_enc_store;
use crate::store::spec_env_wf;
use crate::store::spec_store_map;
use crate::store::spec_topics_distinct;
use crate::wire::Frame;
use crate::wire::FrameModel;
use crate::wire::Response;
use crate::wire::ResponseModel;
use crate::wire::decode_frame;
use crate::wire::encode_response;
use crate::wire::spec_dec_frame;
use crate::wire::spec_enc_resp;
use crate::wire::spec_frame_wf;
use crate::wire::spec_resp_wf;
use vstd::bytes::*;
use vstd::map::*;
use vstd::prelude::*;
use vstd::slice::*;
use vstd::string::*;

verus! {

/// Where a host stands in its lifecycle: built, serving, or shut down.
#[derive(Clone, Copy, Debug, PartialEq, Eq, Structural)]
pub enum HostState {
    Created,
    Started,
    Stopped,
}

/// The mathematical shape of a host: its lifecycle state, its store as a
/// mapping from topic to latest envelope, and the stamp its next write will
/// carry.
pub struct HostModel {
    pub state: HostState,
    pub store: Map<Seq<u8>, EnvModel>,
    pub stamp: u64,
}

/// The stamp after one more write; it sticks at the top instead of wrapping.
pub open spec fn spec_next_stamp(s: u64) -> u64 {
    if s == 0xffff_ffff_ffff_ffff {
        s
    } else {
        (s + 1) as u64
    }
}

/// What one frame does to a host: the host afterwards, and the response.
/// A host that is not started answers every frame with an error and changes
/// nothing.  A publish files the payload under its topic, overwriting any
/// earlier envelope there and touching no other topic.  A request answers
/// with the topic's current envelope, or reports that the topic was never
/// published to, and changes nothing.
pub open spec fn spec_apply(h: HostModel, f: FrameModel) -> (HostModel, ResponseModel) {
    if !(h.state is Started) {
        (h, ResponseModel::ErrHostNotRunning)
    } else {
        match f {
            FrameModel::Publish { topic, tag, payload } => (
                HostModel {
                    state: h.state,
                    store: h.store.insert(
                        topic,
                        EnvModel { topic, tag, timestamp: h.stamp, payload },
                    ),
                    stamp: spec_next_stamp(h.stamp),
                },
                ResponseModel::PublishOk,
            ),
            FrameModel::Request { topic } => if h.store.contains_key(topic) {
                (
                    h,
                    ResponseModel::Value {
                        tag: h.store[topic].tag,
                        timestamp: h.store[topic].timestamp,
                        payload: h.store[topic].payload,
                    },
                )
            } else {
                (h, ResponseModel::ErrTopicNotFound)
            },
        }
    }
}

/// The byte encoding of a host snapshot: the write stamp, then the store.
pub open spec fn spec_enc_host_snapshot(stamp: u64, es: Seq<EnvModel>) -> Seq<u8> {
    spec_u64_to_le_bytes(stamp) + spec_enc_store(es)
}

/// What a byte sequence decodes to as a host snapshot, if anything.
pub open spec fn spec_dec_host_snapshot(b: Seq<u8>) -> Option<(u64, Seq<EnvModel>)> {
    if b.len() < 8 {
        None
    } else {
        match spec_dec_store(b.skip(8)) {
            None => None,
            Some(es) => Some((spec_u64_from_le_bytes(b.subrange(0, 8)), es)),
        }
    }
}

/// Decoding inverts encoding for a snapshot of any well-formed store: the
/// latest value of every topic, and the write stamp, survive a restart
/// through the snapshot bytes.
pub proof fn lemma_host_snapshot_round_trip(stamp: u64, es: Seq<EnvModel>)
    requires
        forall|i: int| 0 <= i < es.len() ==> spec_env_wf(es[i]),
        es.len() <= 0xffff_ffff_ffff_ffff,
    ensures
        spec_dec_host_snapshot(spec_enc_host_snapshot(stamp, es)) == Some((stamp, es)),
{
    lemma_auto_spec_u64_to_from_le_bytes();
    let b = spec_enc_host_snapshot(stamp, es);
    assert(b.subrange(0, 8) =~= spec_u64_to_le_bytes(stamp));
    assert(b.skip(8) =~= spec_enc_store(es));
    lemma_store_round_trip(es);
}

/// Configuration of a host: where to listen and where to persist.
#[derive(Debug)]
pub struct HostConfig {
    /// The address the host's transport should bind.
    pub address: String,
    /// The directory or file the host's store should persist under.
    pub store_location: String,
}

impl Default for HostConfig {
    /// The well-known local endpoint and a store beside it.
    fn default() -> (r: Self)
        ensures
            r.address@ == "127.0.0.1:25000"@,
            r.store_location@ == "store"@,
    {
        HostConfig { address: "127.0.0.1:25000".to_owned(), store_location: "store".to_owned() }
    }
}

impl HostConfig {
    /// Replaces the bind address, builder style.
    pub fn address(self, address: &str) -> (r: Self)
        ensures
            r.address@ == address@,
            r.store_location == self.store_location,
    {
        HostConfig { address: address.to_owned(), store_location: self.store_location }
    }

    /// Replaces the persistence location, builder style.
    pub fn store_location(self, store_location: &str) -> (r: Self)
        ensures
            r.store_location@ == store_location@,
            r.address == self.address,
    {
        HostConfig { address: self.address, store_location: store_location.to_owned() }
    }

    /// Builds a host in its created state, with an empty store.
    pub fn build(self) -> (r: Host)
        ensures
            r.wf(),
            r@ == (HostModel {
                state: HostState::Created,
                store: Map::<Seq<u8>, EnvModel>::empty(),
                stamp: 0,
            }),
            r.config_spec() == self,
    {
        Host { state: HostState::Created, store: TopicStore::new(), stamp: 0, config: self }
    }
}

/// The broker process: the single owner of the topic store, dispatching
/// publish and request frames to it while it is started.
#[derive(Debug)]
pub struct Host {
    state: HostState,
    store: TopicStore,
    stamp: u64,
    /// The configuration the host was built with.
    pub config: HostConfig,
}

impl Host {
    /// The configuration the host was built with, as contracts see it.
    pub closed spec fn config_spec(&self) -> HostConfig {
        self.config
    }

    /// The host as its mathematical shape.
    pub closed spec fn view(&self) -> HostModel {
        HostModel { state: self.state, store: self.store@, stamp: self.stamp }
    }

    /// The host's store is well formed.
    pub closed spec fn wf(&self) -> bool {
        self.store.wf()
    }

    /// Whether the host is in its started state, accepting operations.
    pub fn is_running(&self) -> (r: bool)
        ensures
            r == (self@.state is Started),
    {
        match self.state {
            HostState::Started => true,
            _ => false,
        }
    }

    /// An envelope the started host's store holds is well formed and filed
    /// under its own topic.
    pub proof fn lemma_store_env_wf(&self, t: Seq<u8>)
        requires
            self.wf(),
            self@.store.contains_key(t),
        ensures
            spec_env_wf(self@.store[t]),
            self@.store[t].topic == t,
    {
        self.store.lemma_view_wf(t);
    }

    /// Moves a freshly built host into its started state.  Starting twice,
    /// or starting again after a stop, fails cleanly and changes nothing.
    pub fn start(&mut self) -> (r: Result<(), Error>)
        ensures
            final(self).wf() == old(self).wf(),
            final(self).config_spec() == old(self).config_spec(),
            old(self)@.state is Created ==> r is Ok && final(self)@ == (HostModel {
                state: HostState::Started,
                store: old(self)@.store,
                stamp: old(self)@.stamp,
            }),
            !(old(self)@.state is Created) ==> r == Err::<(), Error>(Error::BindError) && final(self)@ == old(self)@,
    {
        match self.state {
            HostState::Created => {
                self.state = HostState::Started;
                Ok(())
            },
            _ => Err(Error::BindError),
        }
    }

    /// Moves a freshly built host into its started state with the store
    /// read back from snapshot bytes.  Fails with `StoreOpenError`, and
    /// changes nothing, exactly when the bytes are not a valid snapshot;
    /// fails with `BindError` when the host is not freshly built.
    pub fn start_from_snapshot(&mut self, bytes: &[u8]) -> (r: Result<(), Error>)
        requires
            old(self).wf(),
        ensures
            final(self).wf(),
            final(self).config_spec() == old(self).config_spec(),
            !(old(self)@.state is Created) ==> r == Err::<(), Error>(Error::BindError) && final(self)@ == old(self)@ && final(self).wf() == old(self).wf(),
            old(self)@.state is Created ==> match spec_dec_host_snapshot(bytes@) {
                Some((stamp, es)) => if spec_topics_distinct(es) {
                    r is Ok && final(self)@ == (HostModel {
                        state: HostState::Started,
                        store: spec_store_map(es),
                        stamp,
                    })
                } else {
                    r == Err::<(), Error>(Error::StoreOpenError) && final(self)@ == old(self)@
                },
                None => r == Err::<(), Error>(Error::StoreOpenError) && final(self)@ == old(self)@,
            },
    {
        match self.state {
            HostState::Created => {
                if bytes.len() < 8 {
                    return Err(Error::StoreOpenError);
                }
                let stamp = u64_from_le_bytes(slice_subrange(bytes, 0, 8));
                let rest = slice_subrange(bytes, 8, bytes.len());
                proof {
                    assert(rest@ =~= bytes@.skip(8));
                }
                match TopicStore::restore(rest) {
                    Some(store) => {
                        self.store = store;
                        self.stamp = stamp;
                        self.state = HostState::Started;
                        Ok(())
                    },
                    None => Err(Error::StoreOpenError),
                }
            },
            _ => Err(Error::BindError),
        }
    }

    /// Writes the host's state out as bytes an app can persist, so that the
    /// latest value of every topic survives a restart.
    pub fn snapshot(&self) -> (r: Vec<u8>)
        requires
            self.wf(),
        ensures
            r@ == spec_enc_host_snapshot(self@.stamp, self.store_entries()),
            spec_dec_host_snapshot(r@) == Some((self@.stamp, self.store_entries())),
            spec_store_map(self.store_entries()) == self@.store,
            spec_topics_distinct(self.store_entries()),
    {
        let mut out = u64_to_le_bytes(self.stamp);
        let mut body = self.store.snapshot();
        let ghost body_bytes = body@;
        out.append(&mut body);
        proof {
            lemma_auto_spec_u64_to_from_le_bytes();
            assert(out@.subrange(0, 8) =~= spec_u64_to_le_bytes(self.stamp));
            assert(out@.skip(8) =~= body_bytes);
        }
        out
    }

    /// The entries of the host's store, in filing order.
    pub closed spec fn store_entries(&self) -> Seq<EnvModel> {
        self.store.entries_spec()
    }

    /// Moves a started host to its stopped state; every later frame is then
    /// answered with an error.  Stopping a host that is not started fails
    /// cleanly and changes nothing.
    pub fn stop(&mut self) -> (r: Result<(), Error>)
        ensures
            final(self).wf() == old(self).wf(),
            final(self).config_spec() == old(self).config_spec(),
            old(self)@.state is Started ==> r is Ok && final(self)@ == (HostModel {
                state: HostState::Stopped,
                store: old(self)@.store,
                stamp: old(self)@.stamp,
            }),
            !(old(self)@.state is Started) ==> r == Err::<(), Error>(Error::HostNotRunning)
                && final(self)@ == old(self)@,
    {
        match self.state {
            HostState::Started => {
                self.state = HostState::Stopped;
                Ok(())
            },
            _ => Err(Error::HostNotRunning),
        }
    }

    /// Dispatches one decoded frame against the store.
    pub fn apply(&mut self, f: &Frame) -> (r: Response)
        requires
            old(self).wf(),
            spec_frame_wf(f@),
        ensures
            final(self).wf(),
            final(self).config_spec() == old(self).config_spec(),
            final(self)@ == spec_apply(old(self)@, f@).0,
            r@ == spec_apply(old(self)@, f@).1,
            spec_resp_wf(r@),
    {
        match self.state {
            HostState::Started => match f {
                Frame::Publish { topic, tag, payload } => {
                    let t = slice_to_vec(topic.as_slice());
                    let p = slice_to_vec(payload.as_slice());
                    self.store.write(t, *tag, self.stamp, p);
                    self.stamp = if self.stamp == 0xffff_ffff_ffff_ffff {
                        self.stamp
                    } else {
                        self.stamp + 1
                    };
                    Response::PublishOk
                },
                Frame::Request { topic } => match self.store.read(topic.as_slice()) {
                    Ok(env) => {
                        proof {
                            self.store.lemma_view_wf(topic@);
                        }
                        Response::Value {
                            tag: env.tag,
                            timestamp: env.timestamp,
                            payload: slice_to_vec(env.payload.as_slice()),
                        }
                    },
                    Err(_) => Response::ErrTopicNotFound,
                },
            },
            _ => Response::ErrHostNotRunning,
        }
    }

    /// Serves one request: decodes the frame, dispatches it, and encodes
    /// the response.  Bytes that are no frame are answered with an error
    /// response and change nothing.
    pub fn handle_frame(&mut self, req: &[u8]) -> (resp: Vec<u8>)
        requires
            old(self).wf(),
        ensures
            final(self).wf(),
            final(self).config_spec() == old(self).config_spec(),
            match spec_dec_frame(req@) {
                None => final(self)@ == old(self)@ && resp@ == spec_enc_resp(
                    ResponseModel::ErrBadFrame,
                ),
                Some(fm) => final(self)@ == spec_apply(old(self)@, fm).0 && resp@ == spec_enc_resp(
                    spec_apply(old(self)@, fm).1,
                ),
            },
    {
        match decode_frame(req) {
            Some(f) => {
                let r = self.apply(&f);
                encode_response(&r)
            },
            None => encode_response(&Response::ErrBadFrame),
        }
    }
}

} // verus!

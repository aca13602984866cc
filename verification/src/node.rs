use crate::error::Error;
use crate::host::Host;
use crate::host::HostModel;
use crate::host::HostState;
use crate::host::spec_apply;
use crate::payload::Payload;
use crate::wire::Frame;
use crate::wire::FrameModel;
use crate::wire::Response;
use crate::wire::decode_response;
use crate::wire::encode_frame;
use crate::wire::lemma_frame_round_trip;
use crate::wire::lemma_resp_round_trip;
use crate::wire::spec_resp_wf;
use core::marker::PhantomData;
use vstd::prelude::*;
use vstd::slice::*;
use vstd::string::*;

verus! {

/// The decoded reply to a request: the payload typed as `T`, together with
/// the write stamp of the publish that stored it.
#[derive(Clone, Copy, Debug)]
pub struct Msg<T> {
    /// The payload, decoded.
    pub data: T,
    /// The host's write stamp of the publish that stored the payload.
    pub timestamp: u64,
}

/// A topic name a node can be bound to: nonempty, and short enough for its
/// length prefix on the wire.
pub open spec fn spec_topic_ok(t: Seq<u8>) -> bool {
    1 <= t.len() <= 0xffff
}

/// What publishing `v` under `topic` does to a host (the host must be
/// started for the publish to land).
pub open spec fn spec_publish<T: Payload>(h: HostModel, topic: Seq<u8>, v: T) -> HostModel {
    spec_apply(
        h,
        FrameModel::Publish { topic, tag: T::tag_spec(), payload: v.enc_spec() },
    ).0
}

/// What requesting `topic` from a host returns: the latest published value,
/// typed; or why there is none.
pub open spec fn spec_request<T: Payload>(h: HostModel, topic: Seq<u8>) -> Result<Msg<T>, Error> {
    if !(h.state is Started) {
        Err(Error::HostNotRunning)
    } else if !h.store.contains_key(topic) {
        Err(Error::TopicNotFound)
    } else {
        let env = h.store[topic];
        if env.tag == T::tag_spec() {
            match T::dec_spec(env.payload) {
                Some(v) => Ok(Msg { data: v, timestamp: env.timestamp }),
                None => Err(Error::DecodeError),
            }
        } else {
            Err(Error::DecodeError)
        }
    }
}

/// Configuration of a node: a diagnostic name, the topic it will be bound
/// to, and the address of the host to reach.  Nothing is validated here;
/// validation happens at connect time, so a configuration can be built
/// before any host exists.
#[derive(Debug)]
pub struct NodeConfig<T: Payload> {
    /// A diagnostic identifier for the node.
    pub name: String,
    /// The topic the node will publish to and request from.
    pub topic: Vec<u8>,
    /// The address of the host to reach.
    pub address: String,
    /// Carries the payload type the node is fixed to.
    pub marker: PhantomData<T>,
}

impl<T: Payload> NodeConfig<T> {
    /// Starts a configuration under `name`, bound to the topic of the same
    /// name and aimed at the well-known local endpoint.
    pub fn new(name: &str) -> (r: Self)
        ensures
            r.name@ == name@,
            r.topic@ == name.spec_bytes(),
            r.address@ == "127.0.0.1:25000"@,
    {
        NodeConfig {
            name: name.to_owned(),
            topic: name.as_bytes_vec(),
            address: "127.0.0.1:25000".to_owned(),
            marker: PhantomData,
        }
    }

    /// Replaces the bound topic, builder style.
    pub fn topic(self, topic: &str) -> (r: Self)
        ensures
            r.topic@ == topic.spec_bytes(),
            r.name == self.name,
            r.address == self.address,
    {
        NodeConfig {
            name: self.name,
            topic: topic.as_bytes_vec(),
            address: self.address,
            marker: PhantomData,
        }
    }

    /// Replaces the host address, builder style.
    pub fn address(self, address: &str) -> (r: Self)
        ensures
            r.address@ == address@,
            r.name == self.name,
            r.topic == self.topic,
    {
        NodeConfig {
            name: self.name,
            topic: self.topic,
            address: address.to_owned(),
            marker: PhantomData,
        }
    }

    /// Builds the node.  The node is not yet connected; `connect` validates
    /// the configuration and reaches the host.
    pub fn build(self) -> (r: Node<T>)
        ensures
            r.topic_spec() == self.topic@,
            r.name_spec() == self.name@,
            !r.connected_spec(),
            r.wf(),
    {
        Node {
            name: self.name,
            topic: self.topic,
            address: self.address,
            connected: false,
            marker: PhantomData,
        }
    }
}

/// A typed client bound to one topic of one host for its whole life.  It
/// publishes values of `T` and requests the latest one back; the codec and
/// the frame protocol stay hidden behind it.  The host is handed to each
/// call as the explicitly owned broker object; every call is one complete
/// frame round trip, the same exchange a deployment carries over a socket.
#[derive(Debug)]
pub struct Node<T: Payload> {
    name: String,
    topic: Vec<u8>,
    address: String,
    connected: bool,
    marker: PhantomData<T>,
}

impl<T: Payload> Node<T> {
    /// The topic the node is bound to.
    pub closed spec fn topic_spec(&self) -> Seq<u8> {
        self.topic@
    }

    /// The node's diagnostic name.
    pub closed spec fn name_spec(&self) -> Seq<char> {
        self.name@
    }

    /// Whether the node has connected to a host.
    pub closed spec fn connected_spec(&self) -> bool {
        self.connected
    }

    /// A connected node's topic went through validation.
    pub closed spec fn wf(&self) -> bool {
        self.connected ==> spec_topic_ok(self.topic@)
    }

    /// Validates the configuration and establishes the connection.  Fails
    /// with `ConnectionError`, and stays unconnected, exactly when the
    /// topic is empty or too long for the wire, or the host is not started.
    pub fn connect(&mut self, host: &Host) -> (r: Result<(), Error>)
        requires
            old(self).wf(),
        ensures
            final(self).wf(),
            final(self).topic_spec() == old(self).topic_spec(),
            final(self).name_spec() == old(self).name_spec(),
            final(self).connected_spec() == (spec_topic_ok(old(self).topic_spec()) && host@.state
                is Started),
            r is Ok <==> final(self).connected_spec(),
            r is Err ==> r == Err::<(), Error>(Error::ConnectionError),
    {
        if self.topic.len() == 0 || self.topic.len() > 0xffff {
            self.connected = false;
            return Err(Error::ConnectionError);
        }
        if !host.is_running() {
            self.connected = false;
            return Err(Error::ConnectionError);
        }
        self.connected = true;
        Ok(())
    }

    /// Encodes `value` and publishes it under the node's topic: the host
    /// overwrites whatever the topic held before.  A connected node
    /// publishing to a started host always succeeds; the failures are a
    /// node that never connected and a host that is no longer running, and
    /// neither touches the store.
    pub fn publish(&self, host: &mut Host, value: &T) -> (r: Result<(), Error>)
        requires
            old(host).wf(),
            self.wf(),
        ensures
            final(host).wf(),
            final(host).config_spec() == old(host).config_spec(),
            !self.connected_spec() ==> r == Err::<(), Error>(Error::ConnectionError) && final(host)@ == old(host)@,
            self.connected_spec() && !(old(host)@.state is Started)
                ==> r == Err::<(), Error>(Error::HostNotRunning) && final(host)@ == old(host)@,
            self.connected_spec() && old(host)@.state is Started
                ==> r is Ok && final(host)@ == spec_publish::<T>(
                old(host)@,
                self.topic_spec(),
                *value,
            ),
    {
        if !self.connected {
            return Err(Error::ConnectionError);
        }
        let payload = value.encode();
        proof {
            T::lemma_enc_len(*value);
        }
        let frame = Frame::Publish {
            topic: slice_to_vec(self.topic.as_slice()),
            tag: T::tag(),
            payload,
        };
        let req = encode_frame(&frame);
        let ghost fm = frame@;
        let ghost h0 = host@;
        let resp_bytes = host.handle_frame(req.as_slice());
        proof {
            lemma_frame_round_trip(fm);
            assert(spec_resp_wf(spec_apply(h0, fm).1));
            lemma_resp_round_trip(spec_apply(h0, fm).1);
        }
        let resp = decode_response(resp_bytes.as_slice());
        match resp {
            Some(Response::PublishOk) => Ok(()),
            Some(Response::ErrHostNotRunning) => Err(Error::HostNotRunning),
            _ => Err(Error::DecodeError),
        }
    }

    /// Requests the latest value of the node's topic and decodes it as
    /// `T`, returning it with the write stamp of the publish that stored
    /// it.  The host is read, never changed.  The failures: a node that
    /// never connected, a host that is not running, a topic nothing was
    /// ever published to, and a stored value of another payload type.
    pub fn request(&self, host: &mut Host) -> (r: Result<Msg<T>, Error>)
        requires
            old(host).wf(),
            self.wf(),
        ensures
            final(host).wf(),
            final(host)@ == old(host)@,
            final(host).config_spec() == old(host).config_spec(),
            !self.connected_spec() ==> r == Err::<Msg<T>, Error>(Error::ConnectionError),
            self.connected_spec() ==> r == spec_request::<T>(old(host)@, self.topic_spec()),
    {
        if !self.connected {
            return Err(Error::ConnectionError);
        }
        let frame = Frame::Request { topic: slice_to_vec(self.topic.as_slice()) };
        let req = encode_frame(&frame);
        let ghost fm = frame@;
        let ghost h0 = host@;
        let resp_bytes = host.handle_frame(req.as_slice());
        proof {
            lemma_frame_round_trip(fm);
            if h0.state is Started && h0.store.contains_key(
                self.topic@,
            ) {
                host.lemma_store_env_wf(self.topic@);
            }
            assert(spec_resp_wf(spec_apply(h0, fm).1));
            lemma_resp_round_trip(spec_apply(h0, fm).1);
        }
        let resp = decode_response(resp_bytes.as_slice());
        match resp {
            Some(Response::Value { tag, timestamp, payload }) => {
                let expected = T::tag();
                if tag == expected {
                    match T::decode(payload.as_slice()) {
                        Some(v) => Ok(Msg { data: v, timestamp }),
                        None => Err(Error::DecodeError),
                    }
                } else {
                    Err(Error::DecodeError)
                }
            },
            Some(Response::ErrTopicNotFound) => Err(Error::TopicNotFound),
            Some(Response::ErrHostNotRunning) => Err(Error::HostNotRunning),
            _ => Err(Error::DecodeError),
        }
    }
}

} // verus!

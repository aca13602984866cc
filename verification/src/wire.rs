use vstd::bytes::*;
use vstd::prelude::*;
use vstd::slice::*;

verus! {

// ---------------------------------------------------------------------------
// Frames: what a node sends to the host.
//
// Layout of a publish frame:   [1][topic len: u16 le][topic][tag][payload
// len: u32 le][payload].  Layout of a request frame: [2][topic len: u16 le]
// [topic].  A decoder accepts exactly the encodings and nothing else, so
// encoding and decoding invert each other.
// ---------------------------------------------------------------------------
/// The mathematical shape of a frame.
pub enum FrameModel {
    Publish { topic: Seq<u8>, tag: u8, payload: Seq<u8> },
    Request { topic: Seq<u8> },
}

/// An operation as sent from a node to the host.
#[derive(Debug)]
pub enum Frame {
    Publish { topic: Vec<u8>, tag: u8, payload: Vec<u8> },
    Request { topic: Vec<u8> },
}

impl View for Frame {
    type V = FrameModel;

    open spec fn view(&self) -> FrameModel {
        match self {
            Frame::Publish { topic, tag, payload } => FrameModel::Publish {
                topic: topic@,
                tag: *tag,
                payload: payload@,
            },
            Frame::Request { topic } => FrameModel::Request { topic: topic@ },
        }
    }
}

/// A frame whose variable-length fields fit their length prefixes.
pub open spec fn spec_frame_wf(f: FrameModel) -> bool {
    match f {
        FrameModel::Publish { topic, tag, payload } => topic.len() <= 0xffff && payload.len()
            <= 0xffff_ffff,
        FrameModel::Request { topic } => topic.len() <= 0xffff,
    }
}

/// The byte encoding of a frame.
pub open spec fn spec_enc_frame(f: FrameModel) -> Seq<u8> {
    match f {
        FrameModel::Publish { topic, tag, payload } => seq![1u8] + spec_u16_to_le_bytes(
            topic.len() as u16,
        ) + topic + seq![tag] + spec_u32_to_le_bytes(payload.len() as u32) + payload,
        FrameModel::Request { topic } => seq![2u8] + spec_u16_to_le_bytes(topic.len() as u16)
            + topic,
    }
}

/// What a byte sequence decodes to as a frame, if anything.
pub open spec fn spec_dec_frame(b: Seq<u8>) -> Option<FrameModel> {
    if b.len() < 3 {
        None
    } else {
        let tlen = spec_u16_from_le_bytes(b.subrange(1, 3)) as int;
        if b[0] == 1 {
            if b.len() >= 8 + tlen {
                let plen = spec_u32_from_le_bytes(b.subrange(4 + tlen, 8 + tlen)) as int;
                if b.len() == 8 + tlen + plen {
                    Some(
                        FrameModel::Publish {
                            topic: b.subrange(3, 3 + tlen),
                            tag: b[3 + tlen],
                            payload: b.subrange(8 + tlen, 8 + tlen + plen),
                        },
                    )
                } else {
                    None
                }
            } else {
                None
            }
        } else if b[0] == 2 {
            if b.len() == 3 + tlen {
                Some(FrameModel::Request { topic: b.subrange(3, 3 + tlen) })
            } else {
                None
            }
        } else {
            None
        }
    }
}

/// Decoding inverts encoding for every well-formed frame.
pub proof fn lemma_frame_round_trip(f: FrameModel)
    requires
        spec_frame_wf(f),
    ensures
        spec_dec_frame(spec_enc_frame(f)) == Some(f),
{
    lemma_auto_spec_u16_to_from_le_bytes();
    lemma_auto_spec_u32_to_from_le_bytes();
    match f {
        FrameModel::Publish { topic, tag, payload } => {
            let b = spec_enc_frame(f);
            let tlen = topic.len() as int;
            let plen = payload.len() as int;
            assert(b.len() == 8 + tlen + plen);
            assert(b.subrange(1, 3) =~= spec_u16_to_le_bytes(topic.len() as u16));
            assert(b.subrange(3, 3 + tlen) =~= topic);
            assert(b[3 + tlen] == tag);
            assert(b.subrange(4 + tlen, 8 + tlen) =~= spec_u32_to_le_bytes(payload.len() as u32));
            assert(b.subrange(8 + tlen, 8 + tlen + plen) =~= payload);
        },
        FrameModel::Request { topic } => {
            let b = spec_enc_frame(f);
            let tlen = topic.len() as int;
            assert(b.len() == 3 + tlen);
            assert(b.subrange(1, 3) =~= spec_u16_to_le_bytes(topic.len() as u16));
            assert(b.subrange(3, 3 + tlen) =~= topic);
        },
    }
}

/// Encodes a frame for the wire.
pub fn encode_frame(f: &Frame) -> (r: Vec<u8>)
    requires
        spec_frame_wf(f@),
    ensures
        r@ == spec_enc_frame(f@),
{
    match f {
        Frame::Publish { topic, tag, payload } => {
            let mut r: Vec<u8> = Vec::new();
            r.push(1u8);
            let mut tl = u16_to_le_bytes(topic.len() as u16);
            r.append(&mut tl);
            let mut tb = slice_to_vec(topic.as_slice());
            r.append(&mut tb);
            r.push(*tag);
            let mut pl = u32_to_le_bytes(payload.len() as u32);
            r.append(&mut pl);
            let mut pb = slice_to_vec(payload.as_slice());
            r.append(&mut pb);
            r
        },
        Frame::Request { topic } => {
            let mut r: Vec<u8> = Vec::new();
            r.push(2u8);
            let mut tl = u16_to_le_bytes(topic.len() as u16);
            r.append(&mut tl);
            let mut tb = slice_to_vec(topic.as_slice());
            r.append(&mut tb);
            r
        },
    }
}

/// Decodes a frame from the wire, accepting exactly the valid encodings.
pub fn decode_frame(b: &[u8]) -> (r: Option<Frame>)
    ensures
        match r {
            Some(f) => spec_dec_frame(b@) == Some(f@) && spec_frame_wf(f@),
            None => spec_dec_frame(b@) is None,
        },
{
    if b.len() < 3 {
        return None;
    }
    let tlen = u16_from_le_bytes(slice_subrange(b, 1, 3)) as usize;
    let op = *slice_index_get(b, 0);
    if op == 1 {
        if b.len() >= 8 + tlen {
            let plen = u32_from_le_bytes(slice_subrange(b, 4 + tlen, 8 + tlen));
            if b.len() - (8 + tlen) == plen as usize {
                let topic = slice_to_vec(slice_subrange(b, 3, 3 + tlen));
                let tag = *slice_index_get(b, 3 + tlen);
                let payload = slice_to_vec(slice_subrange(b, 8 + tlen, b.len()));
                Some(Frame::Publish { topic, tag, payload })
            } else {
                None
            }
        } else {
            None
        }
    } else if op == 2 {
        if b.len() == 3 + tlen {
            let topic = slice_to_vec(slice_subrange(b, 3, 3 + tlen));
            Some(Frame::Request { topic })
        } else {
            None
        }
    } else {
        None
    }
}

// ---------------------------------------------------------------------------
// Responses: what the host sends back.
//
// Layout of a value response: [0][tag][timestamp: u64 le][payload len: u32
// le][payload]; it carries the stored envelope's metadata alongside the
// payload.  The other responses are single status bytes.
// ---------------------------------------------------------------------------
/// The mathematical shape of a response.
pub enum ResponseModel {
    Value { tag: u8, timestamp: u64, payload: Seq<u8> },
    PublishOk,
    ErrTopicNotFound,
    ErrHostNotRunning,
    ErrBadFrame,
}

/// The host's answer to one frame.
#[derive(Debug)]
pub enum Response {
    /// The current envelope of the requested topic.
    Value { tag: u8, timestamp: u64, payload: Vec<u8> },
    /// A publish was stored.
    PublishOk,
    /// The requested topic has never been published to.
    ErrTopicNotFound,
    /// The host is not in its started state.
    ErrHostNotRunning,
    /// The incoming bytes were not a valid frame.
    ErrBadFrame,
}

impl View for Response {
    type V = ResponseModel;

    open spec fn view(&self) -> ResponseModel {
        match self {
            Response::Value { tag, timestamp, payload } => ResponseModel::Value {
                tag: *tag,
                timestamp: *timestamp,
                payload: payload@,
            },
            Response::PublishOk => ResponseModel::PublishOk,
            Response::ErrTopicNotFound => ResponseModel::ErrTopicNotFound,
            Response::ErrHostNotRunning => ResponseModel::ErrHostNotRunning,
            Response::ErrBadFrame => ResponseModel::ErrBadFrame,
        }
    }
}

/// A response whose payload fits its length prefix.
pub open spec fn spec_resp_wf(r: ResponseModel) -> bool {
    match r {
        ResponseModel::Value { tag, timestamp, payload } => payload.len() <= 0xffff_ffff,
        _ => true,
    }
}

/// The byte encoding of a response.
pub open spec fn spec_enc_resp(r: ResponseModel) -> Seq<u8> {
    match r {
        ResponseModel::Value { tag, timestamp, payload } => seq![0u8, tag] + spec_u64_to_le_bytes(
            timestamp,
        ) + spec_u32_to_le_bytes(payload.len() as u32) + payload,
        ResponseModel::PublishOk => seq![1u8],
        ResponseModel::ErrTopicNotFound => seq![2u8],
        ResponseModel::ErrHostNotRunning => seq![3u8],
        ResponseModel::ErrBadFrame => seq![4u8],
    }
}

/// What a byte sequence decodes to as a response, if anything.
pub open spec fn spec_dec_resp(b: Seq<u8>) -> Option<ResponseModel> {
    if b.len() < 1 {
        None
    } else if b[0] == 0 {
        if b.len() >= 14 {
            let plen = spec_u32_from_le_bytes(b.subrange(10, 14)) as int;
            if b.len() == 14 + plen {
                Some(
                    ResponseModel::Value {
                        tag: b[1],
                        timestamp: spec_u64_from_le_bytes(b.subrange(2, 10)),
                        payload: b.subrange(14, 14 + plen),
                    },
                )
            } else {
                None
            }
        } else {
            None
        }
    } else if b[0] == 1 {
        if b.len() == 1 {
            Some(ResponseModel::PublishOk)
        } else {
            None
        }
    } else if b[0] == 2 {
        if b.len() == 1 {
            Some(ResponseModel::ErrTopicNotFound)
        } else {
            None
        }
    } else if b[0] == 3 {
        if b.len() == 1 {
            Some(ResponseModel::ErrHostNotRunning)
        } else {
            None
        }
    } else if b[0] == 4 {
        if b.len() == 1 {
            Some(ResponseModel::ErrBadFrame)
        } else {
            None
        }
    } else {
        None
    }
}

/// Decoding inverts encoding for every well-formed response.
pub proof fn lemma_resp_round_trip(r: ResponseModel)
    requires
        spec_resp_wf(r),
    ensures
        spec_dec_resp(spec_enc_resp(r)) == Some(r),
{
    lemma_auto_spec_u32_to_from_le_bytes();
    lemma_auto_spec_u64_to_from_le_bytes();
    match r {
        ResponseModel::Value { tag, timestamp, payload } => {
            let b = spec_enc_resp(r);
            let plen = payload.len() as int;
            assert(b.len() == 14 + plen);
            assert(b.subrange(2, 10) =~= spec_u64_to_le_bytes(timestamp));
            assert(b.subrange(10, 14) =~= spec_u32_to_le_bytes(payload.len() as u32));
            assert(b.subrange(14, 14 + plen) =~= payload);
        },
        _ => {},
    }
}

/// Encodes a response for the wire.
pub fn encode_response(r: &Response) -> (out: Vec<u8>)
    requires
        spec_resp_wf(r@),
    ensures
        out@ == spec_enc_resp(r@),
{
    match r {
        Response::Value { tag, timestamp, payload } => {
            let mut out: Vec<u8> = Vec::new();
            out.push(0u8);
            out.push(*tag);
            let mut ts = u64_to_le_bytes(*timestamp);
            out.append(&mut ts);
            let mut pl = u32_to_le_bytes(payload.len() as u32);
            out.append(&mut pl);
            let mut pb = slice_to_vec(payload.as_slice());
            out.append(&mut pb);
            out
        },
        Response::PublishOk => {
            let mut out: Vec<u8> = Vec::new();
            out.push(1u8);
            out
        },
        Response::ErrTopicNotFound => {
            let mut out: Vec<u8> = Vec::new();
            out.push(2u8);
            out
        },
        Response::ErrHostNotRunning => {
            let mut out: Vec<u8> = Vec::new();
            out.push(3u8);
            out
        },
        Response::ErrBadFrame => {
            let mut out: Vec<u8> = Vec::new();
            out.push(4u8);
            out
        },
    }
}

/// Decodes a response from the wire, accepting exactly the valid encodings.
pub fn decode_response(b: &[u8]) -> (r: Option<Response>)
    ensures
        match r {
            Some(resp) => spec_dec_resp(b@) == Some(resp@) && spec_resp_wf(resp@),
            None => spec_dec_resp(b@) is None,
        },
{
    if b.len() < 1 {
        return None;
    }
    let status = *slice_index_get(b, 0);
    if status == 0 {
        if b.len() >= 14 {
            let plen = u32_from_le_bytes(slice_subrange(b, 10, 14));
            if b.len() - 14 == plen as usize {
                let tag = *slice_index_get(b, 1);
                let timestamp = u64_from_le_bytes(slice_subrange(b, 2, 10));
                let payload = slice_to_vec(slice_subrange(b, 14, b.len()));
                Some(Response::Value { tag, timestamp, payload })
            } else {
                None
            }
        } else {
            None
        }
    } else if status == 1 {
        if b.len() == 1 {
            Some(Response::PublishOk)
        } else {
            None
        }
    } else if status == 2 {
        if b.len() == 1 {
            Some(Response::ErrTopicNotFound)
        } else {
            None
        }
    } else if status == 3 {
        if b.len() == 1 {
            Some(Response::ErrHostNotRunning)
        } else {
            None
        }
    } else if status == 4 {
        if b.len() == 1 {
            Some(Response::ErrBadFrame)
        } else {
            None
        }
    } else {
        None
    }
}

} // verus!

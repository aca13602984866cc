use vstd::bytes::*;
use vstd::prelude::*;
use vstd::slice::*;

verus! {

/// A value that can travel over the wire and live in the topic store.
///
/// Each payload type has a tag byte that distinguishes it from every other
/// payload type, a byte encoding, and a decoder that inverts the encoder.
/// The numeric fields of the concrete payload types below carry IEEE-754
/// bit patterns as plain `u32` values, so the codec and everything proved
/// about it works on exact integers; callers that think in fractional units
/// convert at the edge with `f32::to_bits` / `f32::from_bits`, which lose
/// nothing.
pub trait Payload: Sized {
    /// The tag byte of this payload type.
    spec fn tag_spec() -> u8;

    /// The byte encoding of a value.
    spec fn enc_spec(self) -> Seq<u8>;

    /// What a byte sequence decodes to, if anything.
    spec fn dec_spec(bytes: Seq<u8>) -> Option<Self>;

    /// Decoding an encoded value gives the value back.
    proof fn lemma_enc_dec(self)
        ensures
            Self::dec_spec(self.enc_spec()) == Some(self),
    ;

    /// An encoding always fits in a length-prefixed wire field.
    proof fn lemma_enc_len(self)
        ensures
            self.enc_spec().len() <= 0xffff_ffff,
    ;

    fn tag() -> (t: u8)
        ensures
            t == Self::tag_spec(),
    ;

    fn encode(&self) -> (r: Vec<u8>)
        ensures
            r@ == self.enc_spec(),
    ;

    fn decode(bytes: &[u8]) -> (r: Option<Self>)
        ensures
            r == Self::dec_spec(bytes@),
    ;
}

/// A movement command: forward speed and turn rate, as `f32` bit patterns.
#[derive(Clone, Copy, Debug, PartialEq, Eq, Structural)]
pub struct UserInput {
    /// Bit pattern of the commanded forward speed.
    pub forward: u32,
    /// Bit pattern of the commanded turn rate.
    pub turn: u32,
}

impl UserInput {
    /// Builder-style update of the forward command.
    pub fn forward(self, forward: u32) -> (r: Self)
        ensures
            r == (UserInput { forward, turn: self.turn }),
    {
        UserInput { forward, turn: self.turn }
    }

    /// Builder-style update of the turn command.
    pub fn turn(self, turn: u32) -> (r: Self)
        ensures
            r == (UserInput { forward: self.forward, turn }),
    {
        UserInput { forward: self.forward, turn }
    }
}

impl Default for UserInput {
    /// The rest command: no forward speed, no turn.
    fn default() -> (r: Self)
        ensures
            r == (UserInput { forward: 0, turn: 0 }),
    {
        UserInput { forward: 0, turn: 0 }
    }
}

impl Payload for UserInput {
    open spec fn tag_spec() -> u8 {
        1
    }

    open spec fn enc_spec(self) -> Seq<u8> {
        spec_u32_to_le_bytes(self.forward) + spec_u32_to_le_bytes(self.turn)
    }

    open spec fn dec_spec(bytes: Seq<u8>) -> Option<Self> {
        if bytes.len() == 8 {
            Some(
                UserInput {
                    forward: spec_u32_from_le_bytes(bytes.subrange(0, 4)),
                    turn: spec_u32_from_le_bytes(bytes.subrange(4, 8)),
                },
            )
        } else {
            None
        }
    }

    proof fn lemma_enc_dec(self)
    {
        lemma_auto_spec_u32_to_from_le_bytes();
        let e = self.enc_spec();
        assert(e.subrange(0, 4) =~= spec_u32_to_le_bytes(self.forward));
        assert(e.subrange(4, 8) =~= spec_u32_to_le_bytes(self.turn));
    }

    proof fn lemma_enc_len(self)
    {
        lemma_auto_spec_u32_to_from_le_bytes();
    }

    fn tag() -> u8 {
        1
    }

    fn encode(&self) -> (r: Vec<u8>)
    {
        let mut r = u32_to_le_bytes(self.forward);
        let mut tail = u32_to_le_bytes(self.turn);
        r.append(&mut tail);
        r
    }

    fn decode(bytes: &[u8]) -> (r: Option<Self>)
    {
        if bytes.len() == 8 {
            let forward = u32_from_le_bytes(slice_subrange(bytes, 0, 4));
            let turn = u32_from_le_bytes(slice_subrange(bytes, 4, 8));
            Some(UserInput { forward, turn })
        } else {
            None
        }
    }
}

/// A pose report: position and heading, as `f32` bit patterns.
#[derive(Clone, Copy, Debug, PartialEq, Eq, Structural)]
pub struct Position {
    /// Bit pattern of the x coordinate.
    pub x: u32,
    /// Bit pattern of the y coordinate.
    pub y: u32,
    /// Bit pattern of the heading angle.
    pub yaw: u32,
}

impl Default for Position {
    /// The origin pose with zero heading.
    fn default() -> (r: Self)
        ensures
            r == (Position { x: 0, y: 0, yaw: 0 }),
    {
        Position { x: 0, y: 0, yaw: 0 }
    }
}

impl Payload for Position {
    open spec fn tag_spec() -> u8 {
        2
    }

    open spec fn enc_spec(self) -> Seq<u8> {
        spec_u32_to_le_bytes(self.x) + spec_u32_to_le_bytes(self.y) + spec_u32_to_le_bytes(
            self.yaw,
        )
    }

    open spec fn dec_spec(bytes: Seq<u8>) -> Option<Self> {
        if bytes.len() == 12 {
            Some(
                Position {
                    x: spec_u32_from_le_bytes(bytes.subrange(0, 4)),
                    y: spec_u32_from_le_bytes(bytes.subrange(4, 8)),
                    yaw: spec_u32_from_le_bytes(bytes.subrange(8, 12)),
                },
            )
        } else {
            None
        }
    }

    proof fn lemma_enc_dec(self)
    {
        lemma_auto_spec_u32_to_from_le_bytes();
        let e = self.enc_spec();
        assert(e.subrange(0, 4) =~= spec_u32_to_le_bytes(self.x));
        assert(e.subrange(4, 8) =~= spec_u32_to_le_bytes(self.y));
        assert(e.subrange(8, 12) =~= spec_u32_to_le_bytes(self.yaw));
    }

    proof fn lemma_enc_len(self)
    {
        lemma_auto_spec_u32_to_from_le_bytes();
    }

    fn tag() -> u8 {
        2
    }

    fn encode(&self) -> (r: Vec<u8>)
    {
        let mut r = u32_to_le_bytes(self.x);
        let mut mid = u32_to_le_bytes(self.y);
        let mut tail = u32_to_le_bytes(self.yaw);
        r.append(&mut mid);
        r.append(&mut tail);
        r
    }

    fn decode(bytes: &[u8]) -> (r: Option<Self>)
    {
        if bytes.len() == 12 {
            let x = u32_from_le_bytes(slice_subrange(bytes, 0, 4));
            let y = u32_from_le_bytes(slice_subrange(bytes, 4, 8));
            let yaw = u32_from_le_bytes(slice_subrange(bytes, 8, 12));
            Some(Position { x, y, yaw })
        } else {
            None
        }
    }
}

} // verus!

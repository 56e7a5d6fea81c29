//! Message codec: the binary wire protocol of the display devices. A frame
//! is a 4-byte big-endian total size `S` (counting from the type field on),
//! a 4-byte big-endian type code, and, while fewer than `S` bytes have been
//! consumed after the size field, a 4-byte big-endian length followed by
//! that many bytes of UTF-8 text.
use vstd::prelude::*;
use vstd::slice::slice_to_vec;
use crate::flaps::flap_payload_spec;
use crate::flaps::flaps_from_string;

verus! {

/// A wire message. Only `Echo`, `AuthAssociate` and `Idle` are ever
/// received from a device; only `Okay`, `Echo` and `SetCounterValue` are
/// ever sent to one. The other variants encode to nothing.
#[derive(Debug, PartialEq)]
pub enum Message {
    Authenticate,
    Okay,
    Echo,
    AuthAssociate(String, String, String),
    SetCounterValue(String),
    Idle,
}

/// The mathematical image of a message: its strings as character sequences.
pub enum MessageView {
    Authenticate,
    Okay,
    Echo,
    AuthAssociate(Seq<char>, Seq<char>, Seq<char>),
    SetCounterValue(Seq<char>),
    Idle,
}

impl View for Message {
    type V = MessageView;

    open spec fn view(&self) -> MessageView {
        match self {
            Message::Authenticate => MessageView::Authenticate,
            Message::Okay => MessageView::Okay,
            Message::Echo => MessageView::Echo,
            Message::AuthAssociate(a, b, c) => MessageView::AuthAssociate(a@, b@, c@),
            Message::SetCounterValue(t) => MessageView::SetCounterValue(t@),
            Message::Idle => MessageView::Idle,
        }
    }
}

/// Why a frame failed to decode: it ran out of bytes, its type code is not
/// one of the known ones, or a string argument is not valid UTF-8.
#[derive(Debug, PartialEq, Eq, Structural, Clone, Copy)]
pub enum DecodeError {
    ShortRead,
    UnknownType,
    InvalidText,
}

/// The characters a byte sequence decodes to under UTF-8, or nothing where
/// the bytes are not valid UTF-8.
pub uninterp spec fn utf8_of(bytes: Seq<u8>) -> Option<Seq<char>>;

/// Relies on String::from_utf8: it succeeds exactly on valid UTF-8, and the
/// decoded characters depend on the bytes alone.
#[verifier::external_body]
fn utf8_decode(bytes: Vec<u8>) -> (r: Option<String>)
    ensures
        r is Some <==> utf8_of(bytes@) is Some,
        r is Some ==> r.unwrap()@ == utf8_of(bytes@).unwrap(),
{
    String::from_utf8(bytes).ok()
}

/// A 4-byte big-endian unsigned integer.
pub open spec fn be32(s: Seq<u8>) -> int {
    s[0] * 0x100_0000 + s[1] * 0x1_0000 + s[2] * 0x100 + s[3]
}

fn read_be32(bytes: &[u8], pos: usize) -> (r: u32)
    requires
        pos + 4 <= bytes@.len(),
    ensures
        r as int == be32(bytes@.subrange(pos as int, pos as int + 4)),
{
    let b0 = bytes[pos] as u32;
    let b1 = bytes[pos + 1] as u32;
    let b2 = bytes[pos + 2] as u32;
    let b3 = bytes[pos + 3] as u32;
    b0 * 0x100_0000 + b1 * 0x1_0000 + b2 * 0x100 + b3
}

/// The string arguments read from `pos` on, while fewer than `end` bytes of
/// the buffer are consumed: a 4-byte big-endian length, then that many
/// bytes of UTF-8 text, repeatedly. Returns the arguments and the position
/// after the last one.
pub open spec fn read_args(bytes: Seq<u8>, pos: int, end: int) -> Result<
    (Seq<Seq<char>>, int),
    DecodeError,
>
    decreases bytes.len() - pos,
{
    if pos >= end {
        Ok((Seq::empty(), pos))
    } else if pos + 4 > bytes.len() {
        Err(DecodeError::ShortRead)
    } else {
        let l = be32(bytes.subrange(pos, pos + 4));
        if pos + 4 + l > bytes.len() {
            Err(DecodeError::ShortRead)
        } else {
            match utf8_of(bytes.subrange(pos + 4, pos + 4 + l)) {
                None => Err(DecodeError::InvalidText),
                Some(s) => match read_args(bytes, pos + 4 + l, end) {
                    Ok((rest, q)) => Ok((Seq::empty().push(s) + rest, q)),
                    Err(e) => Err(e),
                },
            }
        }
    }
}

/// The `i`-th argument, or the empty string where fewer were sent.
pub open spec fn arg_or_empty(args: Seq<Seq<char>>, i: int) -> Seq<char> {
    if 0 <= i < args.len() {
        args[i]
    } else {
        Seq::empty()
    }
}

/// What a buffer decodes to: the message and the number of bytes consumed,
/// or the error. Type code 4 is `Echo`, 5 is `AuthAssociate` (its first
/// three arguments; missing ones are empty), 6 is `Idle` (arguments
/// ignored); every other code is unknown.
pub open spec fn decode_spec(bytes: Seq<u8>) -> Result<(MessageView, int), DecodeError> {
    if bytes.len() < 4 {
        Err(DecodeError::ShortRead)
    } else if bytes.len() < 8 {
        Err(DecodeError::ShortRead)
    } else {
        let size = be32(bytes.subrange(0, 4));
        let mtype = be32(bytes.subrange(4, 8));
        match read_args(bytes, 8, size + 4) {
            Err(e) => Err(e),
            Ok((args, q)) => if mtype == 4 {
                Ok((MessageView::Echo, q))
            } else if mtype == 5 {
                Ok(
                    (
                        MessageView::AuthAssociate(
                            arg_or_empty(args, 0),
                            arg_or_empty(args, 1),
                            arg_or_empty(args, 2),
                        ),
                        q,
                    ),
                )
            } else if mtype == 6 {
                Ok((MessageView::Idle, q))
            } else {
                Err(DecodeError::UnknownType)
            },
        }
    }
}

/// The bytes a message puts on the wire. `Echo` and `Okay` are fixed 8-byte
/// frames; `SetCounterValue` is the 15-byte display command; the variants
/// that are never sent encode to nothing.
pub open spec fn encode_spec(m: MessageView) -> Seq<u8> {
    match m {
        MessageView::Echo => Seq::empty().push(0u8).push(0u8).push(0u8).push(4u8).push(0u8).push(
            0u8,
        ).push(0u8).push(4u8),
        MessageView::Okay => Seq::empty().push(0u8).push(0u8).push(0u8).push(4u8).push(0u8).push(
            0u8,
        ).push(0u8).push(1u8),
        MessageView::SetCounterValue(text) => flap_payload_spec(text),
        _ => Seq::empty(),
    }
}

spec fn join_args(
    prefix: Seq<Seq<char>>,
    r: Result<(Seq<Seq<char>>, int), DecodeError>,
) -> Result<(Seq<Seq<char>>, int), DecodeError> {
    match r {
        Ok((rest, q)) => Ok((prefix + rest, q)),
        Err(e) => Err(e),
    }
}

fn arg_or_default(args: &Vec<String>, i: usize) -> (r: String)
    ensures
        r@ == arg_or_empty(args.deep_view(), i as int),
{
    if i < args.len() {
        args[i].clone()
    } else {
        String::new()
    }
}

impl Message {
    /// Decode one frame from the front of `bytes`; return the message and
    /// the number of bytes consumed. `ShortRead` means the buffer ends
    /// before the frame does: a caller reading from a stream may append
    /// more bytes and try again.
    pub fn decode(bytes: &[u8]) -> (r: Result<(Message, usize), DecodeError>)
        ensures
            ({
                let d = decode_spec(bytes@);
                match r {
                    Ok(p) => d == Ok::<(MessageView, int), DecodeError>((p.0@, p.1 as int)),
                    Err(e) => d == Err::<(MessageView, int), DecodeError>(e),
                }
            }),
    {
        if bytes.len() < 8 {
            return Err(DecodeError::ShortRead);
        }
        let size = read_be32(bytes, 0);
        let mtype = read_be32(bytes, 4);
        let ghost end: int = size as int + 4;
        let mut pos: usize = 8;
        let mut args: Vec<String> = Vec::new();
        proof {
            assert(args.deep_view() =~= Seq::<Seq<char>>::empty());
            match read_args(bytes@, 8, end) {
                Ok((rest, q)) => {
                    assert(Seq::<Seq<char>>::empty() + rest =~= rest);
                },
                Err(_) => {},
            }
        }
        while (pos as u64) < (size as u64) + 4
            invariant
                bytes@.len() >= 8,
                8 <= pos <= bytes@.len(),
                end == size as int + 4,
                size as int == be32(bytes@.subrange(0, 4)),
                mtype as int == be32(bytes@.subrange(4, 8)),
                read_args(bytes@, 8, end) == join_args(
                    args.deep_view(),
                    read_args(bytes@, pos as int, end),
                ),
            decreases bytes@.len() - pos,
        {
            if bytes.len() - pos < 4 {
                proof {
                    assert(read_args(bytes@, pos as int, end) == Err::<
                        (Seq<Seq<char>>, int),
                        DecodeError,
                    >(DecodeError::ShortRead));
                }
                return Err(DecodeError::ShortRead);
            }
            let l = read_be32(bytes, pos);
            if (l as u64) > (bytes.len() as u64) - (pos as u64) - 4 {
                proof {
                    assert(read_args(bytes@, pos as int, end) == Err::<
                        (Seq<Seq<char>>, int),
                        DecodeError,
                    >(DecodeError::ShortRead));
                }
                return Err(DecodeError::ShortRead);
            }
            let arg_bytes = slice_to_vec(&bytes[pos + 4..pos + 4 + (l as usize)]);
            match utf8_decode(arg_bytes) {
                None => {
                    return Err(DecodeError::InvalidText);
                },
                Some(s) => {
                    proof {
                        let rest = read_args(bytes@, pos + 4 + l, end);
                        assert(read_args(bytes@, pos as int, end) == (match rest {
                            Ok((tail, q)) => Ok::<(Seq<Seq<char>>, int), DecodeError>(
                                (Seq::empty().push(s@) + tail, q),
                            ),
                            Err(e) => Err(e),
                        }));
                        assert(args.deep_view().push(s@) =~= args.deep_view() + Seq::empty().push(
                            s@,
                        ));
                        if rest is Ok {
                            assert(args.deep_view() + (Seq::empty().push(s@)
                                + rest.unwrap().0) =~= (args.deep_view() + Seq::empty().push(s@))
                                + rest.unwrap().0);
                        }
                    }
                    let ghost old_args = args.deep_view();
                    args.push(s);
                    proof {
                        assert(args.deep_view() =~= old_args.push(s@));
                    }
                    pos = pos + 4 + (l as usize);
                },
            }
        }
        proof {
            assert(read_args(bytes@, pos as int, end) == Ok::<(Seq<Seq<char>>, int), DecodeError>(
                (Seq::empty(), pos as int),
            ));
            assert(args.deep_view() + Seq::<Seq<char>>::empty() =~= args.deep_view());
        }
        if mtype == 4 {
            Ok((Message::Echo, pos))
        } else if mtype == 5 {
            let a0 = arg_or_default(&args, 0);
            let a1 = arg_or_default(&args, 1);
            let a2 = arg_or_default(&args, 2);
            Ok((Message::AuthAssociate(a0, a1, a2), pos))
        } else if mtype == 6 {
            Ok((Message::Idle, pos))
        } else {
            Err(DecodeError::UnknownType)
        }
    }

    /// Encode this message for the wire.
    pub fn encode(&self) -> (r: Vec<u8>)
        ensures
            r@ == encode_spec(self@),
    {
        match self {
            Message::SetCounterValue(text) => flaps_from_string(text),
            Message::Echo => {
                let mut v: Vec<u8> = Vec::new();
                v.push(0);
                v.push(0);
                v.push(0);
                v.push(4);
                v.push(0);
                v.push(0);
                v.push(0);
                v.push(4);
                v
            },
            Message::Okay => {
                let mut v: Vec<u8> = Vec::new();
                v.push(0);
                v.push(0);
                v.push(0);
                v.push(4);
                v.push(0);
                v.push(0);
                v.push(0);
                v.push(1);
                v
            },
            _ => {
                let v: Vec<u8> = Vec::new();
                proof {
                    assert(v@ =~= encode_spec(self@));
                }
                v
            },
        }
    }
}

/// A value with a fixed wire encoding.
pub trait Serialize {
    /// The bytes this value puts on the wire.
    spec fn wire_bytes(&self) -> Seq<u8>;

    fn serialize(&self) -> (r: Vec<u8>)
        ensures
            r@ == self.wire_bytes(),
    ;
}

impl Serialize for Message {
    open spec fn wire_bytes(&self) -> Seq<u8> {
        encode_spec(self@)
    }

    fn serialize(&self) -> (r: Vec<u8>) {
        self.encode()
    }
}

/// A value that can be decoded from the front of a byte buffer, yielding
/// the value and the number of bytes consumed.
pub trait Deserialize {
    type Output;

    /// What it means for `bytes` to decode to `out`, consuming `used` bytes.
    spec fn decodes_to(bytes: Seq<u8>, out: Self::Output, used: int) -> bool;

    /// What it means for `bytes` to fail to decode with error `e`.
    spec fn decode_fails(bytes: Seq<u8>, e: DecodeError) -> bool;

    fn deserialize(bytes: &[u8]) -> (r: Result<(Self::Output, usize), DecodeError>)
        ensures
            match r {
                Ok(p) => Self::decodes_to(bytes@, p.0, p.1 as int),
                Err(e) => Self::decode_fails(bytes@, e),
            },
    ;
}

impl Deserialize for Message {
    type Output = Message;

    open spec fn decodes_to(bytes: Seq<u8>, out: Message, used: int) -> bool {
        decode_spec(bytes) == Ok::<(MessageView, int), DecodeError>((out@, used))
    }

    open spec fn decode_fails(bytes: Seq<u8>, e: DecodeError) -> bool {
        decode_spec(bytes) == Err::<(MessageView, int), DecodeError>(e)
    }

    fn deserialize(bytes: &[u8]) -> (r: Result<(Message, usize), DecodeError>) {
        Message::decode(bytes)
    }
}

/// Round-trip: a message that is both sent and received decodes, from its
/// own encoding, back to itself, consuming the whole 8-byte frame. `Echo`
/// is the one such message: `Ok` is sent but its type code is not a
/// decodable one, and the device-to-server messages are never sent.
pub proof fn lemma_round_trip(m: MessageView)
    requires
        m is Echo,
    ensures
        decode_spec(encode_spec(m)) == Ok::<(MessageView, int), DecodeError>((m, 8)),
{
    let bytes = encode_spec(m);
    assert(be32(bytes.subrange(0, 4)) == 4);
    assert(be32(bytes.subrange(4, 8)) == 4);
    assert(read_args(bytes, 8, 8) == Ok::<(Seq<Seq<char>>, int), DecodeError>((Seq::empty(), 8)));
}

} // verus!

//! The messages that travel between client and server, and their bytes.
//!
//! A frame is a sequence of fields, each a key followed by a value. The
//! envelope carries a correlation identifier in field 1 and at most one body
//! in fields 2 to 4; the two insert bodies carry a name in field 1 and a
//! payload in field 2. A field at its default (zero, empty) is left out when
//! writing. When reading, a field may come more than once, the last one
//! counting, and fields with other numbers are passed over.

use vstd::prelude::*;
use vstd::string::*;
use vstd::utf8::*;
use crate::encoding::DecodeFailure;
use crate::encoding::WireType;
use crate::encoding::key;
use crate::encoding::length_delimited;
use crate::encoding::parse_key;
use crate::encoding::parse_length_delimited;
use crate::encoding::parse_varint;
use crate::encoding::skipped_len;
use crate::encoding::varint;
use crate::encoding::decode_key;
use crate::encoding::decode_length_delimited;
use crate::encoding::decode_string;
use crate::encoding::decode_varint;
use crate::encoding::encode_key;
use crate::encoding::encode_length_delimited;
use crate::encoding::put_varint;
use crate::encoding::skip_unknown;
use crate::encoding::lemma_key_round_trip;
use crate::encoding::lemma_length_delimited_round_trip;
use crate::encoding::lemma_parse_varint_bounds;
use crate::encoding::lemma_varint_round_trip;

verus! {

/// The field of the envelope that holds the correlation identifier.
pub const ID_TAG: u32 = 1;

/// The field of the envelope that holds a `SetInsert` body.
pub const SET_INSERT_TAG: u32 = 2;

/// The field of the envelope that holds a `SetAdd` body.
pub const SET_ADD_TAG: u32 = 3;

/// The field of the envelope that holds an `UnrecognizedMessageError` body.
pub const UNRECOGNIZED_MESSAGE_ERROR_TAG: u32 = 4;

/// The field of an insert body that holds the name of the set.
pub const NAME_TAG: u32 = 1;

/// The field of an insert body that holds the bytes to insert.
pub const BYTES_TAG: u32 = 2;

/// A request to insert `value` into the set called `name`.
#[derive(Debug)]
pub struct SetInsert {
    pub name: String,
    pub value: Vec<u8>,
}

/// The older form of `SetInsert`, with the same meaning.
#[derive(Debug)]
pub struct SetAdd {
    pub name: String,
    pub data: Vec<u8>,
}

/// The server's answer to a frame that it could not make sense of.
#[derive(Debug)]
pub struct UnrecognizedMessageError {}

/// The body of a message: exactly one of the kinds that exist.
#[derive(Debug)]
pub enum Inner {
    SetInsert(SetInsert),
    SetAdd(SetAdd),
    UnrecognizedMessageError(UnrecognizedMessageError),
}

/// The envelope: a correlation identifier chosen by the client, and a body.
/// A message without a body is malformed.
#[derive(Debug)]
pub struct WireMessage {
    pub id: u32,
    pub inner: Option<Inner>,
}

/// A name and a payload, as plain values.
pub struct NamedBytes {
    pub name: Seq<char>,
    pub bytes: Seq<u8>,
}

/// A body, as plain values.
pub enum InnerView {
    SetInsert(NamedBytes),
    SetAdd(NamedBytes),
    UnrecognizedMessageError,
}

/// An envelope, as plain values.
pub struct WireMessageView {
    pub id: u32,
    pub inner: Option<InnerView>,
}

impl View for SetInsert {
    type V = NamedBytes;

    open spec fn view(&self) -> NamedBytes {
        NamedBytes { name: self.name@, bytes: self.value@ }
    }
}

impl View for SetAdd {
    type V = NamedBytes;

    open spec fn view(&self) -> NamedBytes {
        NamedBytes { name: self.name@, bytes: self.data@ }
    }
}

impl View for Inner {
    type V = InnerView;

    open spec fn view(&self) -> InnerView {
        match self {
            Inner::SetInsert(m) => InnerView::SetInsert(m@),
            Inner::SetAdd(m) => InnerView::SetAdd(m@),
            Inner::UnrecognizedMessageError(_) => InnerView::UnrecognizedMessageError,
        }
    }
}

impl View for WireMessage {
    type V = WireMessageView;

    open spec fn view(&self) -> WireMessageView {
        WireMessageView { id: self.id, inner: body_view(self.inner) }
    }
}

/// The body of an envelope, if it has one, as plain values.
pub open spec fn body_view(inner: Option<Inner>) -> Option<InnerView> {
    match inner {
        Some(inner) => Some(inner@),
        None => None,
    }
}

/// A name and payload that are both empty: what a body holds before any field
/// of it was read.
pub open spec fn empty_named_bytes() -> NamedBytes {
    NamedBytes { name: Seq::empty(), bytes: Seq::empty() }
}

/// An envelope with identifier zero and no body: what an envelope holds before
/// any field of it was read.
pub open spec fn empty_message() -> WireMessageView {
    WireMessageView { id: 0, inner: None }
}

/// The bytes of a string field: nothing for the empty string, else key, length
/// and the string in UTF-8.
pub open spec fn string_field(tag: u32, s: Seq<char>) -> Seq<u8> {
    if s.len() == 0 {
        Seq::empty()
    } else {
        key(tag, WireType::LengthDelimited) + length_delimited(encode_utf8(s))
    }
}

/// The bytes of a bytes field: nothing for no bytes, else key, length and the
/// bytes.
pub open spec fn bytes_field(tag: u32, b: Seq<u8>) -> Seq<u8> {
    if b.len() == 0 {
        Seq::empty()
    } else {
        key(tag, WireType::LengthDelimited) + length_delimited(b)
    }
}

/// The bytes of an unsigned integer field: nothing for zero, else key and
/// value.
pub open spec fn uint32_field(tag: u32, v: u32) -> Seq<u8> {
    if v == 0 {
        Seq::empty()
    } else {
        key(tag, WireType::Varint) + varint(v as u64)
    }
}

/// The bytes of a field that holds a nested message: key, length and the
/// message's own bytes. It is written even when the message is empty.
pub open spec fn message_field(tag: u32, body: Seq<u8>) -> Seq<u8> {
    key(tag, WireType::LengthDelimited) + length_delimited(body)
}

/// The bytes of an insert body.
pub open spec fn encode_named_bytes(m: NamedBytes) -> Seq<u8> {
    string_field(NAME_TAG, m.name) + bytes_field(BYTES_TAG, m.bytes)
}

/// The bytes of a body, in the envelope's field for its kind.
pub open spec fn encode_inner(inner: InnerView) -> Seq<u8> {
    match inner {
        InnerView::SetInsert(m) => message_field(SET_INSERT_TAG, encode_named_bytes(m)),
        InnerView::SetAdd(m) => message_field(SET_ADD_TAG, encode_named_bytes(m)),
        InnerView::UnrecognizedMessageError => message_field(
            UNRECOGNIZED_MESSAGE_ERROR_TAG,
            Seq::empty(),
        ),
    }
}

/// The bytes of an envelope: the identifier, then the body.
pub open spec fn encode_message(m: WireMessageView) -> Seq<u8> {
    uint32_field(ID_TAG, m.id) + match m.inner {
        Some(inner) => encode_inner(inner),
        None => Seq::empty(),
    }
}

/// Passes over a field that the message being read does not know: what
/// follows it, or the failure.
pub open spec fn after_unknown(wire_type: WireType, tag: u32, bytes: Seq<u8>) -> Result<
    Seq<u8>,
    DecodeFailure,
> {
    match skipped_len(wire_type.number(), tag, bytes) {
        Some(taken) => if 0 <= taken <= bytes.len() {
            Ok(bytes.skip(taken))
        } else {
            Err(DecodeFailure::InvalidUnknownField)
        },
        None => Err(DecodeFailure::InvalidUnknownField),
    }
}

/// Reads the fields of a message that has none of its own: every field is
/// passed over.
pub open spec fn merge_nothing(bytes: Seq<u8>) -> Result<(), DecodeFailure>
    decreases bytes.len(),
{
    if bytes.len() == 0 {
        Ok(())
    } else {
        match parse_key(bytes) {
            Err(e) => Err(e),
            Ok((tag, wire_type, taken)) => {
                proof {
                    lemma_parse_varint_bounds(bytes);
                }
                match after_unknown(wire_type, tag, bytes.skip(taken)) {
                    Err(e) => Err(e),
                    Ok(rest) => merge_nothing(rest),
                }
            },
        }
    }
}

/// Reads the fields of an insert body into `acc`, field after field, until
/// the bytes end.
pub open spec fn merge_named_bytes(bytes: Seq<u8>, acc: NamedBytes) -> Result<
    NamedBytes,
    DecodeFailure,
>
    decreases bytes.len(),
{
    if bytes.len() == 0 {
        Ok(acc)
    } else {
        match parse_key(bytes) {
            Err(e) => Err(e),
            Ok((tag, wire_type, taken)) => {
                proof {
                    lemma_parse_varint_bounds(bytes);
                    lemma_parse_varint_bounds(bytes.skip(taken));
                }
                let rest = bytes.skip(taken);
                if tag == NAME_TAG || tag == BYTES_TAG {
                    if wire_type != WireType::LengthDelimited {
                        Err(DecodeFailure::UnexpectedWireType)
                    } else {
                        match parse_length_delimited(rest) {
                            Err(e) => Err(e),
                            Ok((payload, used)) => if tag == BYTES_TAG {
                                merge_named_bytes(
                                    rest.skip(used),
                                    NamedBytes { name: acc.name, bytes: payload },
                                )
                            } else if !valid_utf8(payload) {
                                Err(DecodeFailure::InvalidString)
                            } else {
                                merge_named_bytes(
                                    rest.skip(used),
                                    NamedBytes { name: decode_utf8(payload), bytes: acc.bytes },
                                )
                            },
                        }
                    }
                } else {
                    match after_unknown(wire_type, tag, rest) {
                        Err(e) => Err(e),
                        Ok(rest) => merge_named_bytes(rest, acc),
                    }
                }
            },
        }
    }
}

/// Reads a body of the kind that envelope field `tag` holds from `payload`.
/// Where the envelope already holds a body of that kind, the fields read are
/// laid over it; a body of another kind is replaced.
pub open spec fn merge_inner(tag: u32, payload: Seq<u8>, current: Option<InnerView>) -> Result<
    InnerView,
    DecodeFailure,
> {
    if tag == SET_INSERT_TAG {
        let start = match current {
            Some(InnerView::SetInsert(m)) => m,
            _ => empty_named_bytes(),
        };
        match merge_named_bytes(payload, start) {
            Ok(m) => Ok(InnerView::SetInsert(m)),
            Err(e) => Err(e),
        }
    } else if tag == SET_ADD_TAG {
        let start = match current {
            Some(InnerView::SetAdd(m)) => m,
            _ => empty_named_bytes(),
        };
        match merge_named_bytes(payload, start) {
            Ok(m) => Ok(InnerView::SetAdd(m)),
            Err(e) => Err(e),
        }
    } else {
        match merge_nothing(payload) {
            Ok(_) => Ok(InnerView::UnrecognizedMessageError),
            Err(e) => Err(e),
        }
    }
}

/// Reads the fields of an envelope into `acc`, field after field, until the
/// bytes end.
pub open spec fn merge_message(bytes: Seq<u8>, acc: WireMessageView) -> Result<
    WireMessageView,
    DecodeFailure,
>
    decreases bytes.len(),
{
    if bytes.len() == 0 {
        Ok(acc)
    } else {
        match parse_key(bytes) {
            Err(e) => Err(e),
            Ok((tag, wire_type, taken)) => {
                proof {
                    lemma_parse_varint_bounds(bytes);
                    lemma_parse_varint_bounds(bytes.skip(taken));
                }
                let rest = bytes.skip(taken);
                if tag == ID_TAG {
                    if wire_type != WireType::Varint {
                        Err(DecodeFailure::UnexpectedWireType)
                    } else {
                        match parse_varint(rest) {
                            None => Err(DecodeFailure::InvalidVarint),
                            Some((value, used)) => merge_message(
                                rest.skip(used),
                                WireMessageView {
                                    id: (value % 0x1_0000_0000) as u32,
                                    inner: acc.inner,
                                },
                            ),
                        }
                    }
                } else if tag == SET_INSERT_TAG || tag == SET_ADD_TAG || tag
                    == UNRECOGNIZED_MESSAGE_ERROR_TAG {
                    if wire_type != WireType::LengthDelimited {
                        Err(DecodeFailure::UnexpectedWireType)
                    } else {
                        match parse_length_delimited(rest) {
                            Err(e) => Err(e),
                            Ok((payload, used)) => match merge_inner(tag, payload, acc.inner) {
                                Err(e) => Err(e),
                                Ok(inner) => merge_message(
                                    rest.skip(used),
                                    WireMessageView { id: acc.id, inner: Some(inner) },
                                ),
                            },
                        }
                    }
                } else {
                    match after_unknown(wire_type, tag, rest) {
                        Err(e) => Err(e),
                        Ok(rest) => merge_message(rest, acc),
                    }
                }
            },
        }
    }
}

/// The envelope that a frame holds, or why it holds none.
pub open spec fn decode_message(bytes: Seq<u8>) -> Result<WireMessageView, DecodeFailure> {
    merge_message(bytes, empty_message())
}

/// Appends a string field to `buf`.
fn encode_string_field(tag: u32, s: &String, buf: &mut Vec<u8>)
    requires
        crate::encoding::MIN_TAG <= tag <= crate::encoding::MAX_TAG,
    ensures
        final(buf)@ == old(buf)@ + string_field(tag, s@),
{
    let text = s.as_str();
    if !text.is_empty() {
        encode_key(tag, WireType::LengthDelimited, buf);
        encode_length_delimited(text.as_bytes(), buf);
        assert(buf@ =~= old(buf)@ + string_field(tag, s@));
    } else {
        assert(buf@ =~= old(buf)@ + string_field(tag, s@));
    }
}

/// Appends a bytes field to `buf`.
fn encode_bytes_field(tag: u32, b: &Vec<u8>, buf: &mut Vec<u8>)
    requires
        crate::encoding::MIN_TAG <= tag <= crate::encoding::MAX_TAG,
    ensures
        final(buf)@ == old(buf)@ + bytes_field(tag, b@),
{
    if b.len() > 0 {
        encode_key(tag, WireType::LengthDelimited, buf);
        encode_length_delimited(b.as_slice(), buf);
        assert(buf@ =~= old(buf)@ + bytes_field(tag, b@));
    } else {
        assert(buf@ =~= old(buf)@ + bytes_field(tag, b@));
    }
}

/// Appends a field that holds a nested message to `buf`.
fn encode_message_field(tag: u32, body: &Vec<u8>, buf: &mut Vec<u8>)
    requires
        crate::encoding::MIN_TAG <= tag <= crate::encoding::MAX_TAG,
    ensures
        final(buf)@ == old(buf)@ + message_field(tag, body@),
{
    encode_key(tag, WireType::LengthDelimited, buf);
    encode_length_delimited(body.as_slice(), buf);
    assert(buf@ =~= old(buf)@ + message_field(tag, body@));
}

/// The bytes of an insert body with the given name and payload.
fn encode_named_bytes_body(name: &String, bytes: &Vec<u8>) -> (body: Vec<u8>)
    ensures
        body@ == encode_named_bytes(NamedBytes { name: name@, bytes: bytes@ }),
{
    let mut body = Vec::new();
    encode_string_field(NAME_TAG, name, &mut body);
    encode_bytes_field(BYTES_TAG, bytes, &mut body);
    assert(body@ =~= encode_named_bytes(NamedBytes { name: name@, bytes: bytes@ }));
    body
}

/// Reads all fields of a message that has none of its own.
fn merge_nothing_from(payload: &[u8]) -> (r: Result<(), DecodeFailure>)
    ensures
        r == merge_nothing(payload@),
{
    let mut rest = payload;
    while rest.len() > 0
        invariant
            merge_nothing(payload@) == merge_nothing(rest@),
        decreases rest.len(),
    {
        let (tag, wire_type, after) = match decode_key(rest) {
            Ok(field) => field,
            Err(e) => { return Err(e); },
        };
        rest =
        match skip_unknown(wire_type, tag, after) {
            Ok(rest) => rest,
            Err(e) => { return Err(e); },
        };
    }
    Ok(())
}

/// Reads all fields of an insert body, laying them over `name` and `bytes`.
fn merge_named_bytes_from(payload: &[u8], name: String, bytes: Vec<u8>) -> (r: Result<
    (String, Vec<u8>),
    DecodeFailure,
>)
    ensures
        match r {
            Ok((n, b)) => merge_named_bytes(payload@, NamedBytes { name: name@, bytes: bytes@ })
                == Ok::<NamedBytes, DecodeFailure>(NamedBytes { name: n@, bytes: b@ }),
            Err(e) => merge_named_bytes(payload@, NamedBytes { name: name@, bytes: bytes@ })
                == Err::<NamedBytes, DecodeFailure>(e),
        },
{
    let mut rest = payload;
    let mut merged_name = name;
    let mut merged_bytes = bytes;
    while rest.len() > 0
        invariant
            merge_named_bytes(payload@, NamedBytes { name: name@, bytes: bytes@ })
                == merge_named_bytes(
                rest@,
                NamedBytes { name: merged_name@, bytes: merged_bytes@ },
            ),
        decreases rest.len(),
    {
        let (tag, wire_type, after) = match decode_key(rest) {
            Ok(field) => field,
            Err(e) => { return Err(e); },
        };
        if tag == NAME_TAG || tag == BYTES_TAG {
            if wire_type != WireType::LengthDelimited {
                return Err(DecodeFailure::UnexpectedWireType);
            }
            let (field, after) = match decode_length_delimited(after) {
                Ok(found) => found,
                Err(e) => { return Err(e); },
            };
            if tag == BYTES_TAG {
                merged_bytes = vstd::slice::slice_to_vec(field);
            } else {
                merged_name =
                match decode_string(field) {
                    Ok(s) => s,
                    Err(e) => { return Err(e); },
                };
            }
            rest = after;
        } else {
            rest =
            match skip_unknown(wire_type, tag, after) {
                Ok(rest) => rest,
                Err(e) => { return Err(e); },
            };
        }
    }
    Ok((merged_name, merged_bytes))
}

/// Reads the body that envelope field `tag` holds, laying it over `current`
/// where that is a body of the same kind.
fn merge_inner_from(tag: u32, payload: &[u8], current: Option<Inner>) -> (r: Result<
    Inner,
    DecodeFailure,
>)
    requires
        tag == SET_INSERT_TAG || tag == SET_ADD_TAG || tag == UNRECOGNIZED_MESSAGE_ERROR_TAG,
    ensures
        match r {
            Ok(inner) => merge_inner(tag, payload@, body_view(current)) == Ok::<
                InnerView,
                DecodeFailure,
            >(inner@),
            Err(e) => merge_inner(tag, payload@, body_view(current)) == Err::<
                InnerView,
                DecodeFailure,
            >(e),
        },
{
    if tag == SET_INSERT_TAG {
        let (name, value) = match current {
            Some(Inner::SetInsert(m)) => (m.name, m.value),
            _ => (String::new(), Vec::new()),
        };
        match merge_named_bytes_from(payload, name, value) {
            Ok((name, value)) => Ok(Inner::SetInsert(SetInsert { name, value })),
            Err(e) => Err(e),
        }
    } else if tag == SET_ADD_TAG {
        let (name, data) = match current {
            Some(Inner::SetAdd(m)) => (m.name, m.data),
            _ => (String::new(), Vec::new()),
        };
        match merge_named_bytes_from(payload, name, data) {
            Ok((name, data)) => Ok(Inner::SetAdd(SetAdd { name, data })),
            Err(e) => Err(e),
        }
    } else {
        match merge_nothing_from(payload) {
            Ok(_) => Ok(Inner::UnrecognizedMessageError(UnrecognizedMessageError {  })),
            Err(e) => Err(e),
        }
    }
}

impl SetInsert {
    /// The bytes of this body, without key and length.
    pub fn encode(&self) -> (body: Vec<u8>)
        ensures
            body@ == encode_named_bytes(self@),
    {
        encode_named_bytes_body(&self.name, &self.value)
    }
}

impl SetAdd {
    /// The bytes of this body, without key and length.
    pub fn encode(&self) -> (body: Vec<u8>)
        ensures
            body@ == encode_named_bytes(self@),
    {
        encode_named_bytes_body(&self.name, &self.data)
    }
}

impl Inner {
    /// Appends this body to `buf`, in the envelope's field for its kind.
    pub fn encode(&self, buf: &mut Vec<u8>)
        ensures
            final(buf)@ == old(buf)@ + encode_inner(self@),
    {
        match self {
            Inner::SetInsert(m) => {
                let body = m.encode();
                encode_message_field(SET_INSERT_TAG, &body, buf);
            },
            Inner::SetAdd(m) => {
                let body = m.encode();
                encode_message_field(SET_ADD_TAG, &body, buf);
            },
            Inner::UnrecognizedMessageError(_) => {
                let body = Vec::new();
                encode_message_field(UNRECOGNIZED_MESSAGE_ERROR_TAG, &body, buf);
            },
        }
    }
}

impl WireMessage {
    /// The frame that carries this message.
    pub fn encode(&self) -> (frame: Vec<u8>)
        ensures
            frame@ == encode_message(self@),
    {
        let mut frame = Vec::new();
        if self.id != 0 {
            encode_key(ID_TAG, WireType::Varint, &mut frame);
            put_varint(self.id as u64, &mut frame);
        }
        assert(frame@ =~= uint32_field(ID_TAG, self.id));
        match &self.inner {
            Some(inner) => {
                inner.encode(&mut frame);
            },
            None => {},
        }
        assert(frame@ =~= encode_message(self@));
        frame
    }

    /// Reads the fields in `frame` and lays them over this message: a field
    /// that `frame` holds replaces what the message had, every other field
    /// stays.
    pub fn merge(self, frame: &[u8]) -> (r: Result<WireMessage, DecodeFailure>)
        ensures
            match r {
                Ok(m) => merge_message(frame@, self@) == Ok::<WireMessageView, DecodeFailure>(m@),
                Err(e) => merge_message(frame@, self@) == Err::<WireMessageView, DecodeFailure>(
                    e,
                ),
            },
    {
        let mut rest = frame;
        let mut id: u32 = self.id;
        let mut inner: Option<Inner> = self.inner;
        while rest.len() > 0
            invariant
                merge_message(frame@, self@) == merge_message(
                    rest@,
                    WireMessageView { id, inner: body_view(inner) },
                ),
            decreases rest.len(),
        {
            let (tag, wire_type, after) = match decode_key(rest) {
                Ok(field) => field,
                Err(e) => { return Err(e); },
            };
            if tag == ID_TAG {
                if wire_type != WireType::Varint {
                    return Err(DecodeFailure::UnexpectedWireType);
                }
                let (value, after) = match decode_varint(after) {
                    Ok(found) => found,
                    Err(e) => { return Err(e); },
                };
                id = (value % 0x1_0000_0000) as u32;
                rest = after;
            } else if tag == SET_INSERT_TAG || tag == SET_ADD_TAG || tag
                == UNRECOGNIZED_MESSAGE_ERROR_TAG {
                if wire_type != WireType::LengthDelimited {
                    return Err(DecodeFailure::UnexpectedWireType);
                }
                let (payload, after) = match decode_length_delimited(after) {
                    Ok(found) => found,
                    Err(e) => { return Err(e); },
                };
                let merged = match merge_inner_from(tag, payload, inner) {
                    Ok(merged) => merged,
                    Err(e) => { return Err(e); },
                };
                inner = Some(merged);
                rest = after;
            } else {
                rest =
                match skip_unknown(wire_type, tag, after) {
                    Ok(rest) => rest,
                    Err(e) => { return Err(e); },
                };
            }
        }
        Ok(WireMessage { id, inner })
    }

    /// Reads the message that `frame` carries.
    ///
    /// Succeeds exactly on the frames that are a well-formed sequence of
    /// fields; every failure names the first thing that was wrong.
    pub fn decode(frame: &[u8]) -> (r: Result<WireMessage, DecodeFailure>)
        ensures
            match r {
                Ok(m) => decode_message(frame@) == Ok::<WireMessageView, DecodeFailure>(m@),
                Err(e) => decode_message(frame@) == Err::<WireMessageView, DecodeFailure>(e),
            },
    {
        let fresh = WireMessage { id: 0, inner: None };
        fresh.merge(frame)
    }
}

/// Whether the lengths in a name and payload fit the sixty-four bits of a
/// length prefix: that of the name in UTF-8, that of the payload, and that of
/// the body made of both.
pub open spec fn named_bytes_fit(m: NamedBytes) -> bool {
    &&& encode_utf8(m.name).len() <= u64::MAX
    &&& m.bytes.len() <= u64::MAX
    &&& encode_named_bytes(m).len() <= u64::MAX
}

/// Whether every length in an envelope fits the sixty-four bits of a length
/// prefix. Every message that fits in memory does.
pub open spec fn message_fits(m: WireMessageView) -> bool {
    match m.inner {
        Some(InnerView::SetInsert(body)) => named_bytes_fit(body),
        Some(InnerView::SetAdd(body)) => named_bytes_fit(body),
        _ => true,
    }
}

/// A key is at least one byte long.
proof fn lemma_key_nonempty(tag: u32, wire_type: WireType)
    ensures
        key(tag, wire_type).len() >= 1,
{
}

/// A name field at the front of an insert body sets the name, and reading
/// goes on behind it.
proof fn lemma_merge_name_field(name: Seq<char>, rest: Seq<u8>, acc: NamedBytes)
    requires
        name.len() > 0,
        encode_utf8(name).len() <= u64::MAX,
    ensures
        merge_named_bytes(string_field(NAME_TAG, name) + rest, acc) == merge_named_bytes(
            rest,
            NamedBytes { name, bytes: acc.bytes },
        ),
{
    let k = key(NAME_TAG, WireType::LengthDelimited);
    let text = encode_utf8(name);
    let field = length_delimited(text);
    let all = string_field(NAME_TAG, name) + rest;
    lemma_key_nonempty(NAME_TAG, WireType::LengthDelimited);
    assert(all =~= k + (field + rest));
    lemma_key_round_trip(NAME_TAG, WireType::LengthDelimited, field + rest);
    assert(all.skip(k.len() as int) =~= field + rest);
    lemma_length_delimited_round_trip(text, rest);
    assert((field + rest).skip(field.len() as int) =~= rest);
    encode_utf8_valid_utf8(name);
    encode_utf8_decode_utf8(name);
}

/// A payload field at the front of an insert body sets the payload, and
/// reading goes on behind it.
proof fn lemma_merge_bytes_field(bytes: Seq<u8>, rest: Seq<u8>, acc: NamedBytes)
    requires
        bytes.len() > 0,
        bytes.len() <= u64::MAX,
    ensures
        merge_named_bytes(bytes_field(BYTES_TAG, bytes) + rest, acc) == merge_named_bytes(
            rest,
            NamedBytes { name: acc.name, bytes },
        ),
{
    let k = key(BYTES_TAG, WireType::LengthDelimited);
    let field = length_delimited(bytes);
    let all = bytes_field(BYTES_TAG, bytes) + rest;
    lemma_key_nonempty(BYTES_TAG, WireType::LengthDelimited);
    assert(all =~= k + (field + rest));
    lemma_key_round_trip(BYTES_TAG, WireType::LengthDelimited, field + rest);
    assert(all.skip(k.len() as int) =~= field + rest);
    lemma_length_delimited_round_trip(bytes, rest);
    assert((field + rest).skip(field.len() as int) =~= rest);
}

/// Reading the bytes of an insert body gives back its name and payload.
pub proof fn lemma_named_bytes_round_trip(m: NamedBytes)
    requires
        named_bytes_fit(m),
    ensures
        merge_named_bytes(encode_named_bytes(m), empty_named_bytes()) == Ok::<
            NamedBytes,
            DecodeFailure,
        >(m),
{
    let tail = bytes_field(BYTES_TAG, m.bytes);
    let named = NamedBytes { name: m.name, bytes: Seq::<u8>::empty() };
    if m.name.len() > 0 {
        lemma_merge_name_field(m.name, tail, empty_named_bytes());
    } else {
        assert(encode_named_bytes(m) =~= tail);
        assert(m.name =~= Seq::<char>::empty());
    }
    assert(merge_named_bytes(encode_named_bytes(m), empty_named_bytes()) == merge_named_bytes(
        tail,
        named,
    ));
    if m.bytes.len() > 0 {
        lemma_merge_bytes_field(m.bytes, Seq::<u8>::empty(), named);
        assert(tail + Seq::<u8>::empty() =~= tail);
    } else {
        assert(m.bytes =~= Seq::<u8>::empty());
    }
}

/// An identifier field at the front of an envelope sets the identifier, and
/// reading goes on behind it.
proof fn lemma_merge_id_field(id: u32, rest: Seq<u8>, acc: WireMessageView)
    requires
        id != 0,
    ensures
        merge_message(uint32_field(ID_TAG, id) + rest, acc) == merge_message(
            rest,
            WireMessageView { id, inner: acc.inner },
        ),
{
    let k = key(ID_TAG, WireType::Varint);
    let value = varint(id as u64);
    let all = uint32_field(ID_TAG, id) + rest;
    lemma_key_nonempty(ID_TAG, WireType::Varint);
    assert(all =~= k + (value + rest));
    lemma_key_round_trip(ID_TAG, WireType::Varint, value + rest);
    assert(all.skip(k.len() as int) =~= value + rest);
    lemma_varint_round_trip(id as u64, rest);
    assert((value + rest).skip(value.len() as int) =~= rest);
}

/// A body field at the front of an envelope that has no body yet sets the
/// body, and reading goes on behind it.
proof fn lemma_merge_inner_field(inner: InnerView, rest: Seq<u8>, acc: WireMessageView)
    requires
        acc.inner is None,
        message_fits(WireMessageView { id: acc.id, inner: Some(inner) }),
    ensures
        merge_message(encode_inner(inner) + rest, acc) == merge_message(
            rest,
            WireMessageView { id: acc.id, inner: Some(inner) },
        ),
{
    let tag = match inner {
        InnerView::SetInsert(_) => SET_INSERT_TAG,
        InnerView::SetAdd(_) => SET_ADD_TAG,
        InnerView::UnrecognizedMessageError => UNRECOGNIZED_MESSAGE_ERROR_TAG,
    };
    let body = match inner {
        InnerView::SetInsert(m) => encode_named_bytes(m),
        InnerView::SetAdd(m) => encode_named_bytes(m),
        InnerView::UnrecognizedMessageError => Seq::<u8>::empty(),
    };
    let k = key(tag, WireType::LengthDelimited);
    let field = length_delimited(body);
    let all = encode_inner(inner) + rest;
    lemma_key_nonempty(tag, WireType::LengthDelimited);
    assert(all =~= k + (field + rest));
    lemma_key_round_trip(tag, WireType::LengthDelimited, field + rest);
    assert(all.skip(k.len() as int) =~= field + rest);
    lemma_length_delimited_round_trip(body, rest);
    assert((field + rest).skip(field.len() as int) =~= rest);
    match inner {
        InnerView::SetInsert(m) => {
            lemma_named_bytes_round_trip(m);
        },
        InnerView::SetAdd(m) => {
            lemma_named_bytes_round_trip(m);
        },
        InnerView::UnrecognizedMessageError => {},
    }
    assert(merge_inner(tag, body, acc.inner) == Ok::<InnerView, DecodeFailure>(inner));
}

/// Writing a message and reading the frame back gives the message that was
/// written: the same identifier, the same kind of body, the same name and
/// payload, also where name or payload are empty.
pub proof fn lemma_encode_decode_round_trip(m: WireMessageView)
    requires
        message_fits(m),
    ensures
        decode_message(encode_message(m)) == Ok::<WireMessageView, DecodeFailure>(m),
{
    let body = match m.inner {
        Some(inner) => encode_inner(inner),
        None => Seq::<u8>::empty(),
    };
    let with_id = WireMessageView { id: m.id, inner: None };
    if m.id != 0 {
        lemma_merge_id_field(m.id, body, empty_message());
    } else {
        assert(encode_message(m) =~= body);
    }
    assert(decode_message(encode_message(m)) == merge_message(body, with_id));
    match m.inner {
        Some(inner) => {
            lemma_merge_inner_field(inner, Seq::<u8>::empty(), with_id);
            assert(body + Seq::<u8>::empty() =~= body);
        },
        None => {},
    }
}

/// Every length in a message whose frame fits in memory fits a length prefix.
proof fn lemma_message_in_memory_fits(m: WireMessage, frame: Vec<u8>)
    requires
        frame@ == encode_message(m@),
    ensures
        message_fits(m@),
{
    assert(frame@.len() == frame.len());
    assert(frame@.len() <= u64::MAX);
    match m@.inner {
        Some(InnerView::SetInsert(body)) => {
            assert(encode_named_bytes(body).len() <= frame@.len());
        },
        Some(InnerView::SetAdd(body)) => {
            assert(encode_named_bytes(body).len() <= frame@.len());
        },
        _ => {},
    }
}

/// A frame that `encode` wrote is read back by `decode` as the message that
/// was written.
pub proof fn lemma_round_trip_of(m: WireMessage, frame: Vec<u8>)
    requires
        frame@ == encode_message(m@),
    ensures
        decode_message(frame@) == Ok::<WireMessageView, DecodeFailure>(m@),
{
    lemma_message_in_memory_fits(m, frame);
    lemma_encode_decode_round_trip(m@);
}

} // verus!

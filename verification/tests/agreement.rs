//! The frames of this crate against `prost`'s own reading and writing of the
//! same message layout.

use kv::messages as ours;
use prost::bytes::{Buf, BufMut};
use prost::encoding::{self, DecodeContext, WireType};
use prost::{DecodeError, Message};

#[derive(Clone, Debug, Default, PartialEq)]
struct NamedBytes {
    name: String,
    bytes: Vec<u8>,
}

impl Message for NamedBytes {
    fn encode_raw(&self, buf: &mut impl BufMut) {
        if !self.name.is_empty() {
            encoding::string::encode(1, &self.name, buf);
        }
        if !self.bytes.is_empty() {
            encoding::bytes::encode(2, &self.bytes, buf);
        }
    }

    fn merge_field(
        &mut self,
        tag: u32,
        wire_type: WireType,
        buf: &mut impl Buf,
        ctx: DecodeContext,
    ) -> Result<(), DecodeError> {
        match tag {
            1 => encoding::string::merge(wire_type, &mut self.name, buf, ctx),
            2 => encoding::bytes::merge(wire_type, &mut self.bytes, buf, ctx),
            _ => encoding::skip_field(wire_type, tag, buf, ctx),
        }
    }

    fn encoded_len(&self) -> usize {
        let name = if self.name.is_empty() {
            0
        } else {
            encoding::string::encoded_len(1, &self.name)
        };
        let bytes = if self.bytes.is_empty() {
            0
        } else {
            encoding::bytes::encoded_len(2, &self.bytes)
        };
        name + bytes
    }

    fn clear(&mut self) {
        self.name.clear();
        self.bytes.clear();
    }
}

#[derive(Clone, Debug, Default, PartialEq)]
struct Nothing;

impl Message for Nothing {
    fn encode_raw(&self, _buf: &mut impl BufMut) {}

    fn merge_field(
        &mut self,
        tag: u32,
        wire_type: WireType,
        buf: &mut impl Buf,
        ctx: DecodeContext,
    ) -> Result<(), DecodeError> {
        encoding::skip_field(wire_type, tag, buf, ctx)
    }

    fn encoded_len(&self) -> usize {
        0
    }

    fn clear(&mut self) {}
}

#[derive(Clone, Debug, PartialEq)]
enum Body {
    SetInsert(NamedBytes),
    SetAdd(NamedBytes),
    UnrecognizedMessageError(Nothing),
}

#[derive(Clone, Debug, Default, PartialEq)]
struct Envelope {
    id: u32,
    inner: Option<Body>,
}

impl Message for Envelope {
    fn encode_raw(&self, buf: &mut impl BufMut) {
        if self.id != 0 {
            encoding::uint32::encode(1, &self.id, buf);
        }
        match &self.inner {
            Some(Body::SetInsert(m)) => encoding::message::encode(2, m, buf),
            Some(Body::SetAdd(m)) => encoding::message::encode(3, m, buf),
            Some(Body::UnrecognizedMessageError(m)) => encoding::message::encode(4, m, buf),
            None => {}
        }
    }

    fn merge_field(
        &mut self,
        tag: u32,
        wire_type: WireType,
        buf: &mut impl Buf,
        ctx: DecodeContext,
    ) -> Result<(), DecodeError> {
        match tag {
            1 => encoding::uint32::merge(wire_type, &mut self.id, buf, ctx),
            2 => match &mut self.inner {
                Some(Body::SetInsert(m)) => encoding::message::merge(wire_type, m, buf, ctx),
                _ => {
                    let mut m = NamedBytes::default();
                    encoding::message::merge(wire_type, &mut m, buf, ctx)
                        .map(|_| self.inner = Some(Body::SetInsert(m)))
                }
            },
            3 => match &mut self.inner {
                Some(Body::SetAdd(m)) => encoding::message::merge(wire_type, m, buf, ctx),
                _ => {
                    let mut m = NamedBytes::default();
                    encoding::message::merge(wire_type, &mut m, buf, ctx)
                        .map(|_| self.inner = Some(Body::SetAdd(m)))
                }
            },
            4 => match &mut self.inner {
                Some(Body::UnrecognizedMessageError(m)) => {
                    encoding::message::merge(wire_type, m, buf, ctx)
                }
                _ => {
                    let mut m = Nothing;
                    encoding::message::merge(wire_type, &mut m, buf, ctx)
                        .map(|_| self.inner = Some(Body::UnrecognizedMessageError(m)))
                }
            },
            _ => encoding::skip_field(wire_type, tag, buf, ctx),
        }
    }

    fn encoded_len(&self) -> usize {
        let id = if self.id != 0 { encoding::uint32::encoded_len(1, &self.id) } else { 0 };
        let inner = match &self.inner {
            Some(Body::SetInsert(m)) => encoding::message::encoded_len(2, m),
            Some(Body::SetAdd(m)) => encoding::message::encoded_len(3, m),
            Some(Body::UnrecognizedMessageError(m)) => encoding::message::encoded_len(4, m),
            None => 0,
        };
        id + inner
    }

    fn clear(&mut self) {
        self.id = 0;
        self.inner = None;
    }
}

fn to_ours(m: &Envelope) -> ours::WireMessage {
    let inner = match &m.inner {
        Some(Body::SetInsert(b)) => Some(ours::Inner::SetInsert(ours::SetInsert {
            name: b.name.clone(),
            value: b.bytes.clone(),
        })),
        Some(Body::SetAdd(b)) => {
            Some(ours::Inner::SetAdd(ours::SetAdd { name: b.name.clone(), data: b.bytes.clone() }))
        }
        Some(Body::UnrecognizedMessageError(_)) => {
            Some(ours::Inner::UnrecognizedMessageError(ours::UnrecognizedMessageError {}))
        }
        None => None,
    };
    ours::WireMessage { id: m.id, inner }
}

fn from_ours(m: ours::WireMessage) -> Envelope {
    let inner = match m.inner {
        Some(ours::Inner::SetInsert(b)) => {
            Some(Body::SetInsert(NamedBytes { name: b.name, bytes: b.value }))
        }
        Some(ours::Inner::SetAdd(b)) => {
            Some(Body::SetAdd(NamedBytes { name: b.name, bytes: b.data }))
        }
        Some(ours::Inner::UnrecognizedMessageError(_)) => {
            Some(Body::UnrecognizedMessageError(Nothing))
        }
        None => None,
    };
    Envelope { id: m.id, inner }
}

struct Lcg(u64);

impl Lcg {
    fn next(&mut self) -> u64 {
        self.0 = self.0.wrapping_mul(6364136223846793005).wrapping_add(1442695040888963407);
        self.0 >> 33
    }

    fn below(&mut self, n: u64) -> u64 {
        self.next() % n
    }

    fn bytes(&mut self, max_len: u64) -> Vec<u8> {
        let len = self.below(max_len + 1);
        (0..len).map(|_| self.next() as u8).collect()
    }

    fn text(&mut self, max_len: u64) -> String {
        let alphabet = ['a', 'z', '0', ' ', '\n', 'é', 'ß', '€', '𝄞', '\0'];
        let len = self.below(max_len + 1);
        (0..len).map(|_| alphabet[self.below(alphabet.len() as u64) as usize]).collect()
    }

    fn envelope(&mut self) -> Envelope {
        let id = match self.below(4) {
            0 => 0,
            1 => self.below(128) as u32,
            2 => u32::MAX,
            _ => self.next() as u32,
        };
        let max = if self.below(8) == 0 { 400 } else { 12 };
        let inner = match self.below(4) {
            0 => None,
            1 => Some(Body::SetInsert(NamedBytes { name: self.text(max), bytes: self.bytes(max) })),
            2 => Some(Body::SetAdd(NamedBytes { name: self.text(max), bytes: self.bytes(max) })),
            _ => Some(Body::UnrecognizedMessageError(Nothing)),
        };
        Envelope { id, inner }
    }
}

fn agree_on(frame: &[u8]) {
    let theirs = Envelope::decode(frame).ok();
    let ours = ours::WireMessage::decode(frame).ok().map(from_ours);
    assert_eq!(ours, theirs, "frame {:?}", frame);
}

#[test]
fn frames_are_written_as_prost_writes_them() {
    let mut rng = Lcg(1);
    for _ in 0..2000 {
        let message = rng.envelope();
        assert_eq!(to_ours(&message).encode(), message.encode_to_vec(), "{:?}", message);
    }
}

#[test]
fn frames_are_read_as_prost_reads_them() {
    let mut rng = Lcg(2);
    for _ in 0..2000 {
        let message = rng.envelope();
        let frame = message.encode_to_vec();
        assert_eq!(ours::WireMessage::decode(&frame).ok().map(from_ours), Some(message));
    }
}

#[test]
fn arbitrary_bytes_are_read_as_prost_reads_them() {
    let mut rng = Lcg(3);
    for _ in 0..5000 {
        agree_on(&rng.bytes(24));
    }
}

#[test]
fn damaged_frames_are_read_as_prost_reads_them() {
    let mut rng = Lcg(4);
    for _ in 0..3000 {
        let mut frame = rng.envelope().encode_to_vec();
        match rng.below(5) {
            0 => {
                let keep = rng.below(frame.len() as u64 + 1) as usize;
                frame.truncate(keep);
            }
            1 => {
                if !frame.is_empty() {
                    let at = rng.below(frame.len() as u64) as usize;
                    frame[at] = rng.next() as u8;
                }
            }
            2 => {
                let at = rng.below(frame.len() as u64 + 1) as usize;
                frame.insert(at, rng.next() as u8);
            }
            3 => {
                // two messages in one frame: the fields of the second are
                // laid over the first
                frame.extend(rng.envelope().encode_to_vec());
            }
            _ => {
                // a field that the layout does not know, of any wire type
                let key = ((rng.below(40) as u8 + 5) << 3 | rng.below(8) as u8) as u64;
                let mut field = vec![];
                encoding::encode_varint(key, &mut field);
                field.extend(rng.bytes(10));
                let at = if rng.below(2) == 0 { 0 } else { frame.len() };
                frame.splice(at..at, field);
            }
        }
        agree_on(&frame);
    }
}

#[test]
fn groups_are_passed_over_as_prost_passes_over_them() {
    // field 9: start group 0x4b, end group 0x4c
    agree_on(&[0x4b, 0x4c]);
    agree_on(&[0x4b, 0x08, 0x01, 0x4c, 0x08, 0x02]);
    agree_on(&[0x4b, 0x4b, 0x4c, 0x4c, 0x08, 0x02]);
    agree_on(&[0x4b, 0x54, 0x08, 0x02]);
    agree_on(&[0x4b, 0x08, 0x01]);
    agree_on(&[0x4c]);
    // a group inside a body
    agree_on(&[0x12, 0x05, 0x4b, 0x4c, 0x0a, 0x01, 0x61]);
    let mut deep = vec![0x4b; 99];
    deep.extend(vec![0x4c; 99]);
    agree_on(&deep);
    let mut too_deep = vec![0x4b; 120];
    too_deep.extend(vec![0x4c; 120]);
    agree_on(&too_deep);
}

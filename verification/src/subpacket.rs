//! Subpacket framing: a 16-byte subpacket header, an optional 16-byte
//! game-message header (when the subpacket type is `SUBPACKET_TYPE_GAMEMESSAGE`)
//! and a payload, all fields little-endian.

use crate::time::unix_timestamp;
use crate::wire;
use crate::wire::{read_u16_le, read_u32_le, write_u16_le, write_u32_le};
use vstd::prelude::*;

verus! {

/// Length of the subpacket header.
pub const SUBPACKET_SIZE: usize = 0x10;

/// Length of the game-message header.
pub const GAMEMESSAGE_SIZE: usize = 0x10;

/// Subpacket type of a game message (a subpacket that carries a game-message header).
pub const SUBPACKET_TYPE_GAMEMESSAGE: u16 = 0x03;

/// Errors of subpacket parsing.
#[derive(Debug, Clone, Copy, PartialEq, Eq)]
pub enum PacketError {
    /// The buffer ends before a complete header.
    TooSmall { needed: usize, have: usize },
    /// The declared subpacket size is smaller than its headers or larger than what is left.
    SizeMismatch { declared: usize, available: usize },
}

/// The 16-byte subpacket header.
#[derive(Debug, Clone, Copy, PartialEq, Eq, Default)]
pub struct SubPacketHeader {
    pub subpacket_size: u16,
    pub packet_type: u16,
    pub source_id: u32,
    pub target_id: u32,
    pub unknown1: u32,
}

/// The 16-byte game-message header.
#[derive(Debug, Clone, Copy, PartialEq, Eq, Default)]
pub struct GameMessageHeader {
    pub unknown4: u16,
    pub opcode: u16,
    pub unknown5: u32,
    pub timestamp: u32,
    pub unknown6: u32,
}

impl SubPacketHeader {
    /// The header stored at `s[p..p + 16]`.
    pub open spec fn at(s: Seq<u8>, p: int) -> Self {
        SubPacketHeader {
            subpacket_size: wire::u16_at(s, p),
            packet_type: wire::u16_at(s, p + 2),
            source_id: wire::u32_at(s, p + 4),
            target_id: wire::u32_at(s, p + 8),
            unknown1: wire::u32_at(s, p + 12),
        }
    }

    /// The 16 bytes of this header.
    pub open spec fn bytes(self) -> Seq<u8> {
        wire::le16(self.subpacket_size) + wire::le16(self.packet_type) + wire::le32(self.source_id) + wire::le32(
            self.target_id,
        ) + wire::le32(self.unknown1)
    }

    /// The header with every field zero.
    pub open spec fn zeroed() -> Self {
        SubPacketHeader { subpacket_size: 0, packet_type: 0, source_id: 0, target_id: 0, unknown1: 0 }
    }

    /// Reads a header from the start of `buf`.
    pub fn read(buf: &[u8]) -> (r: Result<Self, PacketError>)
        ensures
            buf@.len() < SUBPACKET_SIZE ==> r == Err::<Self, PacketError>(
                PacketError::TooSmall { needed: SUBPACKET_SIZE, have: buf@.len() as usize },
            ),
            buf@.len() >= SUBPACKET_SIZE ==> r == Ok::<Self, PacketError>(Self::at(buf@, 0)),
    {
        if buf.len() < SUBPACKET_SIZE {
            return Err(PacketError::TooSmall { needed: SUBPACKET_SIZE, have: buf.len() });
        }
        Ok(Self::read_at(buf, 0))
    }

    /// Reads the header stored at `buf[pos..pos + 16]`.
    pub(crate) fn read_at(buf: &[u8], pos: usize) -> (h: Self)
        requires
            pos + SUBPACKET_SIZE <= buf.len(),
        ensures
            h == Self::at(buf@, pos as int),
    {
        SubPacketHeader {
            subpacket_size: read_u16_le(buf, pos),
            packet_type: read_u16_le(buf, pos + 2),
            source_id: read_u32_le(buf, pos + 4),
            target_id: read_u32_le(buf, pos + 8),
            unknown1: read_u32_le(buf, pos + 12),
        }
    }

    /// Writes the header into `out`.
    pub fn write(&self, out: &mut [u8; SUBPACKET_SIZE])
        ensures
            final(out)@ == self.bytes(),
    {
        self.write_at(out, 0);
        assert(final(out)@ =~= self.bytes());
    }

    /// Writes the header into `buf[pos..pos + 16]`, leaving the other bytes alone.
    pub(crate) fn write_at(&self, buf: &mut [u8], pos: usize)
        requires
            pos + SUBPACKET_SIZE <= old(buf).len(),
        ensures
            final(buf)@ == wire::splice(old(buf)@, pos as int, self.bytes()),
    {
        write_u16_le(buf, pos, self.subpacket_size);
        write_u16_le(buf, pos + 2, self.packet_type);
        write_u32_le(buf, pos + 4, self.source_id);
        write_u32_le(buf, pos + 8, self.target_id);
        write_u32_le(buf, pos + 12, self.unknown1);
        assert(buf@ =~= wire::splice(old(buf)@, pos as int, self.bytes()));
    }
}

impl GameMessageHeader {
    /// The header stored at `s[p..p + 16]`.
    pub open spec fn at(s: Seq<u8>, p: int) -> Self {
        GameMessageHeader {
            unknown4: wire::u16_at(s, p),
            opcode: wire::u16_at(s, p + 2),
            unknown5: wire::u32_at(s, p + 4),
            timestamp: wire::u32_at(s, p + 8),
            unknown6: wire::u32_at(s, p + 12),
        }
    }

    /// The 16 bytes of this header.
    pub open spec fn bytes(self) -> Seq<u8> {
        wire::le16(self.unknown4) + wire::le16(self.opcode) + wire::le32(self.unknown5) + wire::le32(self.timestamp) + wire::le32(
            self.unknown6,
        )
    }

    /// The header with every field zero.
    pub open spec fn zeroed() -> Self {
        GameMessageHeader { unknown4: 0, opcode: 0, unknown5: 0, timestamp: 0, unknown6: 0 }
    }

    fn zero() -> (h: Self)
        ensures
            h == Self::zeroed(),
    {
        GameMessageHeader { unknown4: 0, opcode: 0, unknown5: 0, timestamp: 0, unknown6: 0 }
    }

    /// Reads a header from the start of `buf`.
    pub fn read(buf: &[u8]) -> (r: Result<Self, PacketError>)
        ensures
            buf@.len() < GAMEMESSAGE_SIZE ==> r == Err::<Self, PacketError>(
                PacketError::TooSmall { needed: GAMEMESSAGE_SIZE, have: buf@.len() as usize },
            ),
            buf@.len() >= GAMEMESSAGE_SIZE ==> r == Ok::<Self, PacketError>(Self::at(buf@, 0)),
    {
        if buf.len() < GAMEMESSAGE_SIZE {
            return Err(PacketError::TooSmall { needed: GAMEMESSAGE_SIZE, have: buf.len() });
        }
        Ok(Self::read_at(buf, 0))
    }

    /// Reads the header stored at `buf[pos..pos + 16]`.
    pub(crate) fn read_at(buf: &[u8], pos: usize) -> (h: Self)
        requires
            pos + GAMEMESSAGE_SIZE <= buf.len(),
        ensures
            h == Self::at(buf@, pos as int),
    {
        GameMessageHeader {
            unknown4: read_u16_le(buf, pos),
            opcode: read_u16_le(buf, pos + 2),
            unknown5: read_u32_le(buf, pos + 4),
            timestamp: read_u32_le(buf, pos + 8),
            unknown6: read_u32_le(buf, pos + 12),
        }
    }

    /// Writes the header into `out`.
    pub fn write(&self, out: &mut [u8; GAMEMESSAGE_SIZE])
        ensures
            final(out)@ == self.bytes(),
    {
        self.write_at(out, 0);
        assert(final(out)@ =~= self.bytes());
    }

    /// Writes the header into `buf[pos..pos + 16]`, leaving the other bytes alone.
    pub(crate) fn write_at(&self, buf: &mut [u8], pos: usize)
        requires
            pos + GAMEMESSAGE_SIZE <= old(buf).len(),
        ensures
            final(buf)@ == wire::splice(old(buf)@, pos as int, self.bytes()),
    {
        write_u16_le(buf, pos, self.unknown4);
        write_u16_le(buf, pos + 2, self.opcode);
        write_u32_le(buf, pos + 4, self.unknown5);
        write_u32_le(buf, pos + 8, self.timestamp);
        write_u32_le(buf, pos + 12, self.unknown6);
        assert(buf@ =~= wire::splice(old(buf)@, pos as int, self.bytes()));
    }
}

/// Reading a subpacket header back from its bytes gives the header.
pub proof fn lemma_subpacket_header_at_bytes(h: SubPacketHeader, s: Seq<u8>, p: int)
    requires
        0 <= p,
        p + 16 <= s.len(),
        s.subrange(p, p + 16) == h.bytes(),
    ensures
        SubPacketHeader::at(s, p) == h,
{
    assert(s.subrange(p, p + 2) =~= s.subrange(p, p + 16).subrange(0, 2));
    assert(s.subrange(p + 2, p + 4) =~= s.subrange(p, p + 16).subrange(2, 4));
    assert(s.subrange(p + 4, p + 8) =~= s.subrange(p, p + 16).subrange(4, 8));
    assert(s.subrange(p + 8, p + 12) =~= s.subrange(p, p + 16).subrange(8, 12));
    assert(s.subrange(p + 12, p + 16) =~= s.subrange(p, p + 16).subrange(12, 16));
    let b = h.bytes();
    assert(b.subrange(0, 2) =~= wire::le16(h.subpacket_size));
    assert(b.subrange(2, 4) =~= wire::le16(h.packet_type));
    assert(b.subrange(4, 8) =~= wire::le32(h.source_id));
    assert(b.subrange(8, 12) =~= wire::le32(h.target_id));
    assert(b.subrange(12, 16) =~= wire::le32(h.unknown1));
    wire::lemma_u16_at_le16(s, p, h.subpacket_size);
    wire::lemma_u16_at_le16(s, p + 2, h.packet_type);
    wire::lemma_u32_at_le32(s, p + 4, h.source_id);
    wire::lemma_u32_at_le32(s, p + 8, h.target_id);
    wire::lemma_u32_at_le32(s, p + 12, h.unknown1);
}

/// The bytes of the subpacket header stored at `p` are the bytes found there.
pub proof fn lemma_subpacket_header_bytes_at(s: Seq<u8>, p: int)
    requires
        0 <= p,
        p + 16 <= s.len(),
    ensures
        SubPacketHeader::at(s, p).bytes() == s.subrange(p, p + 16),
{
    wire::lemma_le16_of_u16_at(s, p);
    wire::lemma_le16_of_u16_at(s, p + 2);
    wire::lemma_le32_of_u32_at(s, p + 4);
    wire::lemma_le32_of_u32_at(s, p + 8);
    wire::lemma_le32_of_u32_at(s, p + 12);
    assert(SubPacketHeader::at(s, p).bytes() =~= s.subrange(p, p + 16));
}

/// Reading a game-message header back from its bytes gives the header.
pub proof fn lemma_game_message_header_at_bytes(h: GameMessageHeader, s: Seq<u8>, p: int)
    requires
        0 <= p,
        p + 16 <= s.len(),
        s.subrange(p, p + 16) == h.bytes(),
    ensures
        GameMessageHeader::at(s, p) == h,
{
    assert(s.subrange(p, p + 2) =~= s.subrange(p, p + 16).subrange(0, 2));
    assert(s.subrange(p + 2, p + 4) =~= s.subrange(p, p + 16).subrange(2, 4));
    assert(s.subrange(p + 4, p + 8) =~= s.subrange(p, p + 16).subrange(4, 8));
    assert(s.subrange(p + 8, p + 12) =~= s.subrange(p, p + 16).subrange(8, 12));
    assert(s.subrange(p + 12, p + 16) =~= s.subrange(p, p + 16).subrange(12, 16));
    let b = h.bytes();
    assert(b.subrange(0, 2) =~= wire::le16(h.unknown4));
    assert(b.subrange(2, 4) =~= wire::le16(h.opcode));
    assert(b.subrange(4, 8) =~= wire::le32(h.unknown5));
    assert(b.subrange(8, 12) =~= wire::le32(h.timestamp));
    assert(b.subrange(12, 16) =~= wire::le32(h.unknown6));
    wire::lemma_u16_at_le16(s, p, h.unknown4);
    wire::lemma_u16_at_le16(s, p + 2, h.opcode);
    wire::lemma_u32_at_le32(s, p + 4, h.unknown5);
    wire::lemma_u32_at_le32(s, p + 8, h.timestamp);
    wire::lemma_u32_at_le32(s, p + 12, h.unknown6);
}

/// The bytes of the game-message header stored at `p` are the bytes found there.
pub proof fn lemma_game_message_header_bytes_at(s: Seq<u8>, p: int)
    requires
        0 <= p,
        p + 16 <= s.len(),
    ensures
        GameMessageHeader::at(s, p).bytes() == s.subrange(p, p + 16),
{
    wire::lemma_le16_of_u16_at(s, p);
    wire::lemma_le16_of_u16_at(s, p + 2);
    wire::lemma_le32_of_u32_at(s, p + 4);
    wire::lemma_le32_of_u32_at(s, p + 8);
    wire::lemma_le32_of_u32_at(s, p + 12);
    assert(GameMessageHeader::at(s, p).bytes() =~= s.subrange(p, p + 16));
}

/// A subpacket: its subpacket header, its game-message header (all zero unless
/// the subpacket is a game message) and its payload.
#[derive(Debug, Clone)]
pub struct SubPacket {
    pub header: SubPacketHeader,
    pub game_message: GameMessageHeader,
    pub data: Vec<u8>,
}

/// What a subpacket holds, with its payload as a sequence.
pub struct SubPacketModel {
    pub header: SubPacketHeader,
    pub game_message: GameMessageHeader,
    pub data: Seq<u8>,
}

impl View for SubPacket {
    type V = SubPacketModel;

    open spec fn view(&self) -> SubPacketModel {
        SubPacketModel { header: self.header, game_message: self.game_message, data: self.data@ }
    }
}

/// Length of the headers that a subpacket with header `h` carries before its payload.
pub open spec fn headers_len(h: SubPacketHeader) -> int {
    if h.packet_type == SUBPACKET_TYPE_GAMEMESSAGE {
        (SUBPACKET_SIZE + GAMEMESSAGE_SIZE) as int
    } else {
        SUBPACKET_SIZE as int
    }
}

/// The declared size is exactly the headers and the payload.
pub open spec fn is_well_formed(m: SubPacketModel) -> bool {
    m.header.subpacket_size == headers_len(m.header) + m.data.len()
}

/// The bytes of a subpacket: the subpacket header, the game-message header for
/// a game message, the payload, then zeros up to the declared size.
pub open spec fn encode(m: SubPacketModel) -> Seq<u8> {
    let body = m.header.bytes() + (if m.header.packet_type == SUBPACKET_TYPE_GAMEMESSAGE {
        m.game_message.bytes()
    } else {
        Seq::<u8>::empty()
    }) + m.data;
    body + Seq::new((m.header.subpacket_size - body.len()) as nat, |i: int| 0u8)
}

/// The subpacket that starts at `off` in `s`, with the offset just past it; or
/// the error that parsing it gives.
pub open spec fn parse_at(s: Seq<u8>, off: int) -> Result<(SubPacketModel, int), PacketError> {
    if s.len() < off + SUBPACKET_SIZE {
        Err(PacketError::TooSmall { needed: (off + SUBPACKET_SIZE) as usize, have: s.len() as usize })
    } else {
        let h = SubPacketHeader::at(s, off);
        let declared = h.subpacket_size as int;
        if declared < headers_len(h) || s.len() < off + declared {
            Err(
                PacketError::SizeMismatch {
                    declared: declared as usize,
                    available: (s.len() - off) as usize,
                },
            )
        } else {
            let gm = if h.packet_type == SUBPACKET_TYPE_GAMEMESSAGE {
                GameMessageHeader::at(s, off + SUBPACKET_SIZE)
            } else {
                GameMessageHeader::zeroed()
            };
            Ok(
                (
                    SubPacketModel {
                        header: h,
                        game_message: gm,
                        data: s.subrange(off + headers_len(h), off + declared),
                    },
                    off + declared,
                ),
            )
        }
    }
}

/// Stamping `target` into the zero target ids of the subpacket stream that
/// starts at `off` in `s`: the resulting bytes and how many headers were
/// stamped. The walk stops at an incomplete header, at a declared size below
/// 16 and at a subpacket that runs past the end of `s`.
pub open spec fn stamp_stream(s: Seq<u8>, off: int, target: u32) -> (Seq<u8>, nat)
    decreases s.len() - off,
{
    if off < 0 || s.len() < off + SUBPACKET_SIZE {
        (s, 0)
    } else {
        let size = wire::u16_at(s, off) as int;
        if size < SUBPACKET_SIZE || s.len() < off + size {
            (s, 0)
        } else if wire::u32_at(s, off + 8) == 0 {
            let rest = stamp_stream(wire::splice(s, off + 8, wire::le32(target)), off + size, target);
            (rest.0, rest.1 + 1)
        } else {
            stamp_stream(s, off + size, target)
        }
    }
}

/// A complete subpacket starts at `p` in `s`: its header fits, its declared
/// size covers at least the header, and it ends within `s`.
pub open spec fn frame_at(s: Seq<u8>, p: int) -> bool {
    &&& 0 <= p
    &&& p + SUBPACKET_SIZE <= s.len()
    &&& wire::u16_at(s, p) >= SUBPACKET_SIZE
    &&& p + wire::u16_at(s, p) <= s.len()
}

/// The starts of the subpackets of the stream that begins at `p` in `s`: each
/// follows the one before by its declared size, up to the first place where
/// no complete subpacket starts.
pub open spec fn frame_starts(s: Seq<u8>, p: int) -> Set<int>
    decreases s.len() - p,
{
    if frame_at(s, p) {
        frame_starts(s, p + wire::u16_at(s, p)).insert(p)
    } else {
        Set::empty()
    }
}

/// The starts of those subpackets whose target id is 0.
pub open spec fn untargeted_starts(s: Seq<u8>, p: int) -> Set<int> {
    frame_starts(s, p).filter(|f: int| wire::u32_at(s, f + 8) == 0)
}

/// The header that stamping `target` leaves in place of `h`.
pub open spec fn stamped_header(h: SubPacketHeader, target: u32) -> SubPacketHeader {
    if h.target_id == 0 {
        SubPacketHeader { target_id: target, ..h }
    } else {
        h
    }
}

/// The declared size found at `s[p..p + 2]`, or 0 where fewer than two bytes are there.
pub open spec fn u16_at_or_zero(s: Seq<u8>, p: int) -> int {
    if 0 <= p && p + 2 <= s.len() {
        wire::u16_at(s, p) as int
    } else {
        0
    }
}

/// `bytes_read` bytes of `s` hold a whole subpacket at `off`, by the size that
/// its first two bytes declare.
pub open spec fn is_ready_at(s: Seq<u8>, off: int, bytes_read: int) -> bool {
    &&& bytes_read > off
    &&& s.len() >= off + 2
    &&& bytes_read >= off + u16_at_or_zero(s, off)
    &&& s.len() >= off + u16_at_or_zero(s, off)
}

/// What `SubPacket::try_parse` gives: the parse at `off` once the subpacket
/// there is ready, and nothing while it is not or where it does not parse.
pub open spec fn try_parse_at(s: Seq<u8>, off: int, bytes_read: int) -> Option<(SubPacketModel, int)> {
    if is_ready_at(s, off, bytes_read) {
        match parse_at(s, off) {
            Ok(x) => Some(x),
            Err(_) => None,
        }
    } else {
        None
    }
}

/// The subpacket that `SubPacket::new_with_flag` builds, given the clock reading `timestamp`.
pub open spec fn new_model(
    is_game_message: bool,
    opcode: u16,
    source_id: u32,
    data: Seq<u8>,
    timestamp: u32,
) -> SubPacketModel {
    let raw_size = #[verifier::truncate] ((SUBPACKET_SIZE + data.len()) as u16);
    SubPacketModel {
        header: SubPacketHeader {
            subpacket_size: if is_game_message {
                (raw_size + GAMEMESSAGE_SIZE) as u16
            } else {
                raw_size
            },
            packet_type: if is_game_message {
                SUBPACKET_TYPE_GAMEMESSAGE
            } else {
                opcode
            },
            source_id,
            target_id: 0,
            unknown1: 0,
        },
        game_message: if is_game_message {
            GameMessageHeader { unknown4: 0x14, opcode, unknown5: 0, timestamp, unknown6: 0 }
        } else {
            GameMessageHeader::zeroed()
        },
        data,
    }
}

impl SubPacket {
    /// Builds a subpacket stamped with the clock reading `timestamp`. A game
    /// message gets a game-message header and subpacket type 0x03; any other
    /// subpacket carries `opcode` as its type. The declared size is the headers
    /// plus the payload, truncated to 16 bits.
    pub fn new_with_flag_at(
        is_game_message: bool,
        opcode: u16,
        source_id: u32,
        data: Vec<u8>,
        timestamp: u32,
    ) -> (r: Self)
        requires
            data.len() + SUBPACKET_SIZE <= usize::MAX,
            is_game_message ==> (#[verifier::truncate] ((SUBPACKET_SIZE + data.len()) as u16))
                + GAMEMESSAGE_SIZE
                <= u16::MAX,
        ensures
            r@ == new_model(is_game_message, opcode, source_id, data@, timestamp),
            data@.len() + headers_len(r.header) <= u16::MAX && (is_game_message || opcode
                != SUBPACKET_TYPE_GAMEMESSAGE) ==> is_well_formed(r@),
    {
        let mut header = SubPacketHeader {
            subpacket_size: 0,
            packet_type: 0,
            source_id: 0,
            target_id: 0,
            unknown1: 0,
        };
        let mut game_message = GameMessageHeader::zero();
        if is_game_message {
            game_message.opcode = opcode;
            game_message.timestamp = timestamp;
            game_message.unknown4 = 0x14;
        }
        header.source_id = source_id;
        header.packet_type = if is_game_message {
            SUBPACKET_TYPE_GAMEMESSAGE
        } else {
            opcode
        };
        header.subpacket_size = #[verifier::truncate] ((SUBPACKET_SIZE + data.len()) as u16);
        if is_game_message {
            header.subpacket_size = header.subpacket_size + GAMEMESSAGE_SIZE as u16;
        }
        proof {
            let n = SUBPACKET_SIZE + data@.len();
            if n <= u16::MAX {
                assert(n as u16 == n);
            }
        }
        SubPacket { header, game_message, data }
    }

    /// Builds a subpacket stamped with the current Unix time (see `new_with_flag_at`).
    pub fn new_with_flag(is_game_message: bool, opcode: u16, source_id: u32, data: Vec<u8>) -> (r:
        Self)
        requires
            data.len() + SUBPACKET_SIZE <= usize::MAX,
            is_game_message ==> (#[verifier::truncate] ((SUBPACKET_SIZE + data.len()) as u16))
                + GAMEMESSAGE_SIZE
                <= u16::MAX,
        ensures
            r@ == new_model(is_game_message, opcode, source_id, data@, r.game_message.timestamp),
            data@.len() + headers_len(r.header) <= u16::MAX && (is_game_message || opcode
                != SUBPACKET_TYPE_GAMEMESSAGE) ==> is_well_formed(r@),
    {
        Self::new_with_flag_at(is_game_message, opcode, source_id, data, unix_timestamp())
    }

    /// Builds a game-message subpacket stamped with the current Unix time.
    pub fn new(opcode: u16, source_id: u32, data: Vec<u8>) -> (r: Self)
        requires
            data.len() + SUBPACKET_SIZE <= usize::MAX,
            (#[verifier::truncate] ((SUBPACKET_SIZE + data.len()) as u16)) + GAMEMESSAGE_SIZE
                <= u16::MAX,
        ensures
            r@ == new_model(true, opcode, source_id, data@, r.game_message.timestamp),
            data@.len() + SUBPACKET_SIZE + GAMEMESSAGE_SIZE <= u16::MAX ==> is_well_formed(r@),
    {
        Self::new_with_flag(true, opcode, source_id, data)
    }

    /// A copy of `other` addressed to `new_target`.
    pub fn with_target(other: &SubPacket, new_target: u32) -> (r: Self)
        ensures
            r@ == (SubPacketModel {
                header: SubPacketHeader { target_id: new_target, ..other.header },
                ..other@
            }),
    {
        let mut header = other.header;
        header.target_id = new_target;
        let data = other.data.clone();
        assert(data@ =~= other.data@);
        SubPacket { header, game_message: other.game_message, data }
    }

    /// Addresses the subpacket to `target`.
    pub fn set_target_id(&mut self, target: u32)
        ensures
            final(self)@ == (SubPacketModel {
                header: SubPacketHeader { target_id: target, ..old(self).header },
                ..old(self)@
            }),
    {
        self.header.target_id = target;
    }

    /// Stamps `target` into the target id of every subpacket of the stream in
    /// `bytes` whose target id is 0, walking the stream from its start by the
    /// declared sizes until a header is incomplete, declares fewer than 16 bytes
    /// or runs past the end. Returns how many headers it stamped.
    pub fn stamp_target_id_if_zero(bytes: &mut [u8], target: u32) -> (stamped: usize)
        ensures
            final(bytes)@ == stamp_stream(old(bytes)@, 0, target).0,
            stamped == stamp_stream(old(bytes)@, 0, target).1,
            stamped == untargeted_starts(old(bytes)@, 0).len(),
            frame_starts(final(bytes)@, 0) == frame_starts(old(bytes)@, 0),
            forall|f: int|
                #[trigger] frame_starts(old(bytes)@, 0).contains(f) && parse_at(old(bytes)@, f) is Ok
                    ==> parse_at(final(bytes)@, f) == Ok::<(SubPacketModel, int), PacketError>(
                    (
                        stamped_model(parse_at(old(bytes)@, f)->Ok_0.0, target),
                        parse_at(old(bytes)@, f)->Ok_0.1,
                    ),
                ),
    {
        let mut stamped: usize = 0;
        let mut off: usize = 0;
        while bytes.len() - off >= SUBPACKET_SIZE
            invariant
                bytes@.len() == old(bytes)@.len(),
                off <= bytes@.len(),
                stamped <= off,
                stamp_stream(bytes@, off as int, target).0 == stamp_stream(old(bytes)@, 0, target).0,
                stamped + stamp_stream(bytes@, off as int, target).1 == stamp_stream(
                    old(bytes)@,
                    0,
                    target,
                ).1,
            decreases bytes@.len() - off,
        {
            let size = read_u16_le(bytes, off) as usize;
            if size < SUBPACKET_SIZE || bytes.len() - off < size {
                proof {
                    lemma_stamp_reaches_every_subpacket(old(bytes)@, target);
                }
                return stamped;
            }
            let t = off + 8;
            proof {
                let s = bytes@;
                assert(wire::u32_at(s, t as int) == 0 <==> (s[t as int] == 0 && s[t + 1] == 0
                    && s[t + 2] == 0 && s[t + 3] == 0));
            }
            if bytes[t] == 0 && bytes[t + 1] == 0 && bytes[t + 2] == 0 && bytes[t + 3] == 0 {
                write_u32_le(bytes, t, target);
                stamped += 1;
            }
            off += size;
        }
        proof {
            lemma_stamp_reaches_every_subpacket(old(bytes)@, target);
        }
        stamped
    }

    /// Parses the subpacket that starts at `*offset` in `bytes`. On success the
    /// offset moves past it; on failure it stays where it was.
    pub fn parse(bytes: &[u8], offset: &mut usize) -> (r: Result<SubPacket, PacketError>)
        requires
            *old(offset) + SUBPACKET_SIZE <= usize::MAX,
        ensures
            match parse_at(bytes@, *old(offset) as int) {
                Ok((m, end)) => r matches Ok(p) && p@ == m && *final(offset) == end,
                Err(e) => r == Err::<SubPacket, PacketError>(e) && *final(offset) == *old(offset),
            },
    {
        let off = *offset;
        if bytes.len() < off + SUBPACKET_SIZE {
            return Err(PacketError::TooSmall { needed: off + SUBPACKET_SIZE, have: bytes.len() });
        }
        let header = SubPacketHeader::read_at(bytes, off);
        let min_size = if header.packet_type == SUBPACKET_TYPE_GAMEMESSAGE {
            SUBPACKET_SIZE + GAMEMESSAGE_SIZE
        } else {
            SUBPACKET_SIZE
        };
        let declared = header.subpacket_size as usize;
        if declared < min_size {
            return Err(PacketError::SizeMismatch { declared, available: bytes.len() - off });
        }
        if bytes.len() - off < declared {
            return Err(PacketError::SizeMismatch { declared, available: bytes.len() - off });
        }
        let game_message = if header.packet_type == SUBPACKET_TYPE_GAMEMESSAGE {
            GameMessageHeader::read_at(bytes, off + SUBPACKET_SIZE)
        } else {
            GameMessageHeader::zero()
        };
        let data_start = off + min_size;
        let data_end = off + declared;
        let data = vstd::slice::slice_to_vec(vstd::slice::slice_subrange(bytes, data_start, data_end));
        *offset = data_end;
        Ok(SubPacket { header, game_message, data })
    }

    /// Parses one subpacket at `*offset` once `bytes_read` bytes of `buffer`
    /// hold all of it; `None` while it is incomplete or where it does not parse.
    /// The offset moves past the subpacket only when one is returned.
    pub fn try_parse(buffer: &[u8], offset: &mut usize, bytes_read: usize) -> (r: Option<SubPacket>)
        requires
            is_ready_at(buffer@, *old(offset) as int, bytes_read as int) ==> *old(offset)
                + SUBPACKET_SIZE <= usize::MAX,
        ensures
            match try_parse_at(buffer@, *old(offset) as int, bytes_read as int) {
                Some((m, end)) => r matches Some(p) && p@ == m && *final(offset) == end,
                None => r is None && *final(offset) == *old(offset),
            },
            r is Some ==> *final(offset) <= bytes_read && *final(offset) == *old(offset)
                + wire::u16_at(buffer@, *old(offset) as int),
            *old(offset) + 2 <= buffer@.len() && bytes_read < *old(offset) + wire::u16_at(
                buffer@,
                *old(offset) as int,
            ) ==> r is None,
    {
        let off = *offset;
        if bytes_read <= off || buffer.len() < 2 || buffer.len() - 2 < off {
            return None;
        }
        let size = read_u16_le(buffer, off) as usize;
        if bytes_read - off < size || buffer.len() - off < size {
            return None;
        }
        match SubPacket::parse(buffer, offset) {
            Ok(p) => Some(p),
            Err(_) => None,
        }
    }

    /// The subpacket's bytes: the declared size, headers first, then the
    /// payload, then zeros.
    pub fn to_bytes(&self) -> (r: Vec<u8>)
        requires
            headers_len(self.header) + self.data@.len() <= self.header.subpacket_size,
        ensures
            r@ == encode(self@),
            r@.len() == self.header.subpacket_size,
    {
        let total = self.header.subpacket_size as usize;
        let mut out: Vec<u8> = Vec::new();
        while out.len() < total
            invariant
                out@.len() <= total,
                forall|k: int| 0 <= k < out@.len() ==> out@[k] == 0u8,
            decreases total - out@.len(),
        {
            out.push(0u8);
        }
        let ghost zeros = out@;
        self.header.write_at(out.as_mut_slice(), 0);
        let body_start = if self.header.packet_type == SUBPACKET_TYPE_GAMEMESSAGE {
            self.game_message.write_at(out.as_mut_slice(), SUBPACKET_SIZE);
            SUBPACKET_SIZE + GAMEMESSAGE_SIZE
        } else {
            SUBPACKET_SIZE
        };
        let ghost headers = out@;
        let n = self.data.len();
        let mut i: usize = 0;
        while i < n
            invariant
                i <= n,
                n == self.data@.len(),
                body_start + n <= total,
                out@.len() == total,
                out@ == wire::splice(headers, body_start as int, self.data@.take(i as int)),
            decreases n - i,
        {
            out[body_start + i] = self.data[i];
            i = i + 1;
            assert(out@ =~= wire::splice(headers, body_start as int, self.data@.take(i as int)));
        }
        assert(out@ =~= encode(self@));
        out
    }
}

/// A well-formed subpacket's bytes are its headers and its payload, with no padding.
proof fn lemma_encode_well_formed(m: SubPacketModel)
    requires
        is_well_formed(m),
    ensures
        encode(m) == m.header.bytes() + (if m.header.packet_type == SUBPACKET_TYPE_GAMEMESSAGE {
            m.game_message.bytes()
        } else {
            Seq::<u8>::empty()
        }) + m.data,
        encode(m).len() == m.header.subpacket_size,
{
    let gb = if m.header.packet_type == SUBPACKET_TYPE_GAMEMESSAGE {
        m.game_message.bytes()
    } else {
        Seq::<u8>::empty()
    };
    assert(encode(m) =~= m.header.bytes() + gb + m.data);
}

/// A stretch of bytes keeps its contents wherever it is embedded.
proof fn lemma_subrange_of_embedded(prefix: Seq<u8>, e: Seq<u8>, suffix: Seq<u8>, i: int, j: int)
    requires
        0 <= i <= j <= e.len(),
    ensures
        (prefix + e + suffix).subrange(prefix.len() + i, prefix.len() + j) == e.subrange(i, j),
{
    assert((prefix + e + suffix).subrange(prefix.len() + i, prefix.len() + j) =~= e.subrange(i, j));
}

/// Parsing the bytes of a well-formed subpacket, wherever they stand in a
/// stream, gives the subpacket back and moves past exactly its bytes. (A
/// subpacket that is not a game message must have a zero game-message header,
/// since its bytes do not carry one.)
pub proof fn lemma_parse_encode(prefix: Seq<u8>, m: SubPacketModel, suffix: Seq<u8>)
    requires
        is_well_formed(m),
        m.header.packet_type == SUBPACKET_TYPE_GAMEMESSAGE || m.game_message
            == GameMessageHeader::zeroed(),
    ensures
        parse_at(prefix + encode(m) + suffix, prefix.len() as int) == Ok::<
            (SubPacketModel, int),
            PacketError,
        >((m, prefix.len() + m.header.subpacket_size)),
{
    let off = prefix.len() as int;
    let hl = headers_len(m.header);
    let size = m.header.subpacket_size as int;
    let hb = m.header.bytes();
    let gb = if m.header.packet_type == SUBPACKET_TYPE_GAMEMESSAGE {
        m.game_message.bytes()
    } else {
        Seq::<u8>::empty()
    };
    let e = encode(m);
    lemma_encode_well_formed(m);
    let s = prefix + e + suffix;
    assert(e.subrange(0, 16) =~= hb);
    lemma_subrange_of_embedded(prefix, e, suffix, 0, 16);
    lemma_subpacket_header_at_bytes(m.header, s, off);
    if m.header.packet_type == SUBPACKET_TYPE_GAMEMESSAGE {
        assert(e.subrange(16, 32) =~= gb);
        lemma_subrange_of_embedded(prefix, e, suffix, 16, 32);
        lemma_game_message_header_at_bytes(m.game_message, s, off + 16);
    }
    assert(e.subrange(hl, size) =~= m.data);
    lemma_subrange_of_embedded(prefix, e, suffix, hl, size);
    assert(s.len() == off + size + suffix.len());
}

/// Encoding a subpacket that parsed gives back exactly the bytes it was parsed
/// from, and the parsed subpacket is well formed.
pub proof fn lemma_encode_parse(s: Seq<u8>, off: int)
    requires
        0 <= off,
        parse_at(s, off) is Ok,
    ensures
        ({
            let (m, end) = parse_at(s, off)->Ok_0;
            &&& is_well_formed(m)
            &&& encode(m) == s.subrange(off, end)
        }),
{
    let (m, end) = parse_at(s, off)->Ok_0;
    lemma_subpacket_header_bytes_at(s, off);
    if m.header.packet_type == SUBPACKET_TYPE_GAMEMESSAGE {
        lemma_game_message_header_bytes_at(s, off + 16);
    }
    assert(encode(m) =~= s.subrange(off, end));
}

/// Once a subpacket is ready, `try_parse` gives what `parse` gives, the error
/// turned into `None`, and moves the offset just as `parse` does; before that
/// it gives nothing and keeps the offset.
pub proof fn lemma_try_parse_is_parse_when_ready(s: Seq<u8>, off: int, bytes_read: int)
    ensures
        is_ready_at(s, off, bytes_read) ==> try_parse_at(s, off, bytes_read) == match parse_at(
            s,
            off,
        ) {
            Ok(x) => Some(x),
            Err(_) => None::<(SubPacketModel, int)>,
        },
        !is_ready_at(s, off, bytes_read) ==> try_parse_at(s, off, bytes_read) is None,
        try_parse_at(s, off, bytes_read) matches Some((m, end)) ==> end == off
            + m.header.subpacket_size,
{
}

/// A subpacket is handed out only once all of it has been received: where the
/// little-endian size stored at `off` reaches past `bytes_read` (or past the
/// buffer) nothing is given, and what is given is the subpacket that parses at
/// `off`, ending at `off` plus that size, within the bytes received.
pub proof fn lemma_try_parse_only_complete(s: Seq<u8>, off: int, bytes_read: int)
    requires
        0 <= off,
    ensures
        off + 2 <= s.len() && (bytes_read < off + wire::u16_at(s, off) || s.len() < off
            + wire::u16_at(s, off)) ==> try_parse_at(s, off, bytes_read) is None,
        bytes_read <= off ==> try_parse_at(s, off, bytes_read) is None,
        try_parse_at(s, off, bytes_read) matches Some((m, end)) ==> {
            &&& off + 2 <= s.len()
            &&& end == off + wire::u16_at(s, off)
            &&& end <= bytes_read
            &&& end <= s.len()
            &&& m.header.subpacket_size == wire::u16_at(s, off)
            &&& parse_at(s, off) == Ok::<(SubPacketModel, int), PacketError>((m, end))
        },
{
}

/// Stamping keeps the length of the stream and every byte before the offset
/// where the walk starts.
pub proof fn lemma_stamp_stream_keeps_prefix(s: Seq<u8>, off: int, target: u32)
    ensures
        stamp_stream(s, off, target).0.len() == s.len(),
        forall|k: int| 0 <= k < off && k < s.len() ==> #[trigger] stamp_stream(s, off, target).0[k]
            == s[k],
    decreases s.len() - off,
{
    if off < 0 || s.len() < off + SUBPACKET_SIZE {
    } else {
        let size = wire::u16_at(s, off) as int;
        if size < SUBPACKET_SIZE || s.len() < off + size {
        } else if wire::u32_at(s, off + 8) == 0 {
            let s2 = wire::splice(s, off + 8, wire::le32(target));
            lemma_stamp_stream_keeps_prefix(s2, off + size, target);
        } else {
            lemma_stamp_stream_keeps_prefix(s, off + size, target);
        }
    }
}

/// The subpacket starts of a stream form a finite set of complete
/// subpackets at or after where the walk begins, and they depend only on the
/// bytes from there on.
pub proof fn lemma_frame_starts_shape(s: Seq<u8>, s2: Seq<u8>, p: int)
    requires
        s2.len() == s.len(),
        forall|k: int| p <= k < s.len() ==> s2[k] == s[k],
    ensures
        frame_starts(s, p).finite(),
        forall|f: int| #[trigger] frame_starts(s, p).contains(f) ==> p <= f && frame_at(s, f),
        frame_starts(s2, p) == frame_starts(s, p),
    decreases s.len() - p,
{
    if frame_at(s, p) {
        assert(wire::u16_at(s2, p) == wire::u16_at(s, p));
        let q = p + wire::u16_at(s, p);
        lemma_frame_starts_shape(s, s2, q);
    } else {
        if 0 <= p && p + SUBPACKET_SIZE <= s.len() {
            assert(wire::u16_at(s2, p) == wire::u16_at(s, p));
        }
    }
}

/// Where a subpacket parses at `f` in `s`, and `r` holds the same bytes there
/// but for a header whose target id is `target_id`, it parses at `f` in `r`
/// to the same subpacket addressed to `target_id`.
proof fn lemma_parse_retargeted(s: Seq<u8>, r: Seq<u8>, f: int, target_id: u32)
    requires
        0 <= f,
        r.len() == s.len(),
        parse_at(s, f) is Ok,
        SubPacketHeader::at(r, f) == (SubPacketHeader {
            target_id,
            ..SubPacketHeader::at(s, f)
        }),
        r.subrange(f + 16, parse_at(s, f)->Ok_0.1) == s.subrange(f + 16, parse_at(s, f)->Ok_0.1),
    ensures
        parse_at(r, f) == Ok::<(SubPacketModel, int), PacketError>(
            (
                SubPacketModel {
                    header: SubPacketHeader { target_id, ..parse_at(s, f)->Ok_0.0.header },
                    ..parse_at(s, f)->Ok_0.0
                },
                parse_at(s, f)->Ok_0.1,
            ),
        ),
{
    let (m, end) = parse_at(s, f)->Ok_0;
    let hl = headers_len(m.header);
    assert forall|k: int| f + 16 <= k < end implies r[k] == s[k] by {
        assert(r.subrange(f + 16, end)[k - f - 16] == s.subrange(f + 16, end)[k - f - 16]);
    }
    if m.header.packet_type == SUBPACKET_TYPE_GAMEMESSAGE {
        assert(GameMessageHeader::at(r, f + 16) == m.game_message);
    }
    assert(r.subrange(f + hl, end) =~= m.data);
    assert(parse_at(r, f)->Ok_0.0.data =~= m.data);
}

/// The stream that the stamping walk at a complete subpacket `p` goes on
/// with: `s` with the target id at `p` replaced by `target` where it was 0.
pub open spec fn stamp_step(s: Seq<u8>, p: int, target: u32) -> Seq<u8> {
    if wire::u32_at(s, p + 8) == 0 {
        wire::splice(s, p + 8, wire::le32(target))
    } else {
        s
    }
}

/// One step of the walk changes only the target id at `p`, keeps the
/// subpackets after `p`, and the walk goes on from the next subpacket.
proof fn lemma_stamp_step(s: Seq<u8>, p: int, target: u32)
    requires
        frame_at(s, p),
    ensures
        ({
            let s2 = stamp_step(s, p, target);
            let q = p + wire::u16_at(s, p);
            &&& s2.len() == s.len()
            &&& forall|k: int| 0 <= k < s.len() && !(p + 8 <= k < p + 12) ==> #[trigger] s2[k] == s[k]
            &&& stamp_stream(s, p, target) == (
                stamp_stream(s2, q, target).0,
                stamp_stream(s2, q, target).1 + if wire::u32_at(s, p + 8) == 0 {
                    1nat
                } else {
                    0nat
                },
            )
            &&& frame_starts(s, p) == frame_starts(s, q).insert(p)
            &&& frame_starts(s2, q) == frame_starts(s, q)
            &&& !frame_starts(s, q).contains(p)
            &&& forall|f: int| #[trigger] frame_starts(s, q).contains(f) ==> q <= f && frame_at(s, f)
            &&& frame_starts(s, q).finite()
        }),
{
    let q = p + wire::u16_at(s, p);
    let s2 = stamp_step(s, p, target);
    lemma_frame_starts_shape(s, s2, q);
}

/// Stamping from `p` keeps the length and counts the subpackets from `p` on
/// whose target id is 0.
#[verifier::spinoff_prover]
#[verifier::rlimit(30)]
proof fn lemma_stamp_stream_count(s: Seq<u8>, p: int, target: u32)
    requires
        0 <= p,
    ensures
        stamp_stream(s, p, target).0.len() == s.len(),
        untargeted_starts(s, p).finite(),
        stamp_stream(s, p, target).1 == untargeted_starts(s, p).len(),
    decreases s.len() - p,
{
    lemma_frame_starts_shape(s, s, p);
    if !frame_at(s, p) {
        assert(untargeted_starts(s, p) =~= Set::<int>::empty());
    } else {
        let q = p + wire::u16_at(s, p);
        let s2 = stamp_step(s, p, target);
        lemma_stamp_step(s, p, target);
        lemma_stamp_stream_count(s2, q, target);
        let rest = frame_starts(s, q);
        let pred_s = |f: int| wire::u32_at(s, f + 8) == 0;
        let pred_s2 = |f: int| wire::u32_at(s2, f + 8) == 0;
        assert(rest.filter(pred_s2) =~= rest.filter(pred_s)) by {
            assert forall|f: int| rest.contains(f) implies pred_s2(f) == pred_s(f) by {
                assert(s2[f + 8] == s[f + 8] && s2[f + 9] == s[f + 9] && s2[f + 10] == s[f + 10]
                    && s2[f + 11] == s[f + 11]);
            }
        }
        assert(untargeted_starts(s2, q) == rest.filter(pred_s));
        rest.lemma_len_filter(pred_s);
        if wire::u32_at(s, p + 8) == 0 {
            assert(untargeted_starts(s, p) =~= rest.filter(pred_s).insert(p));
        } else {
            assert(untargeted_starts(s, p) =~= rest.filter(pred_s));
        }
    }
}

/// Stamping from `p` keeps every subpacket from `p` on: the same starts, and
/// at each the same bytes but for the target id, which becomes `target` where
/// it was 0.
#[verifier::spinoff_prover]
#[verifier::rlimit(30)]
proof fn lemma_stamp_stream_keeps_frames(s: Seq<u8>, p: int, target: u32)
    requires
        0 <= p,
    ensures
        ({
            let r = stamp_stream(s, p, target).0;
            &&& frame_starts(r, p) == frame_starts(s, p)
            &&& forall|f: int|
                #[trigger] frame_starts(s, p).contains(f) ==> {
                    &&& SubPacketHeader::at(r, f) == stamped_header(SubPacketHeader::at(s, f), target)
                    &&& r.subrange(f + 16, f + wire::u16_at(s, f)) == s.subrange(
                        f + 16,
                        f + wire::u16_at(s, f),
                    )
                }
        }),
    decreases s.len() - p,
{
    let r = stamp_stream(s, p, target).0;
    if !frame_at(s, p) {
        lemma_stamp_stream_keeps_prefix(s, p, target);
        lemma_frame_starts_shape(s, r, p);
    } else {
        let q = p + wire::u16_at(s, p);
        let s2 = stamp_step(s, p, target);
        lemma_stamp_step(s, p, target);
        lemma_stamp_stream_keeps_frames(s2, q, target);
        lemma_stamp_stream_keeps_prefix(s2, q, target);
        assert(r == stamp_stream(s2, q, target).0);
        assert(forall|k: int| 0 <= k < q ==> r[k] == s2[k]);
        let rest = frame_starts(s, q);
        if wire::u32_at(s, p + 8) == 0 {
            assert(s2.subrange(p + 8, p + 12) =~= wire::le32(target));
            wire::lemma_u32_at_le32(s2, p + 8, target);
        }
        assert(SubPacketHeader::at(r, p) == stamped_header(SubPacketHeader::at(s, p), target));
        assert(r.subrange(p + 16, q) =~= s.subrange(p + 16, q));
        assert forall|f: int| #[trigger] rest.contains(f) implies {
            &&& SubPacketHeader::at(r, f) == stamped_header(SubPacketHeader::at(s, f), target)
            &&& r.subrange(f + 16, f + wire::u16_at(s, f)) == s.subrange(
                f + 16,
                f + wire::u16_at(s, f),
            )
        } by {
            assert(frame_starts(s2, q).contains(f));
            assert(SubPacketHeader::at(s2, f) == SubPacketHeader::at(s, f));
            assert(wire::u16_at(s2, f) == wire::u16_at(s, f));
            assert(s2.subrange(f + 16, f + wire::u16_at(s, f)) =~= s.subrange(
                f + 16,
                f + wire::u16_at(s, f),
            ));
        }
        assert(wire::u16_at(r, p) == wire::u16_at(s, p));
        assert(frame_starts(r, p) == frame_starts(r, q).insert(p));
    }
}

/// Stamping from `p` leaves every byte from `p` on that lies in none of the
/// subpackets as it was.
#[verifier::spinoff_prover]
#[verifier::rlimit(30)]
proof fn lemma_stamp_stream_keeps_gaps(s: Seq<u8>, p: int, target: u32)
    requires
        0 <= p,
    ensures
        forall|k: int|
            p <= k < s.len() && (forall|f: int|
                #[trigger] frame_starts(s, p).contains(f) ==> !(f <= k < f + wire::u16_at(s, f)))
                ==> stamp_stream(s, p, target).0[k] == s[k],
    decreases s.len() - p,
{
    let r = stamp_stream(s, p, target).0;
    if frame_at(s, p) {
        let q = p + wire::u16_at(s, p);
        let s2 = stamp_step(s, p, target);
        lemma_stamp_step(s, p, target);
        lemma_stamp_stream_keeps_gaps(s2, q, target);
        assert(r == stamp_stream(s2, q, target).0);
        assert forall|k: int|
            p <= k < s.len() && (forall|f: int|
                #[trigger] frame_starts(s, p).contains(f) ==> !(f <= k < f + wire::u16_at(s, f)))
                implies r[k] == s[k] by {
            assert(frame_starts(s, p).contains(p));
            assert(!(p <= k < q));
            assert(q <= k);
            assert forall|f: int| #[trigger] frame_starts(s2, q).contains(f) implies !(f <= k < f
                + wire::u16_at(s2, f)) by {
                assert(frame_starts(s, p).contains(f));
                assert(wire::u16_at(s2, f) == wire::u16_at(s, f));
            }
            assert(stamp_stream(s2, q, target).0[k] == s2[k]);
            assert(s2[k] == s[k]);
        }
    }
}

/// Stamping from `p` reaches every subpacket of the stream that starts there:
/// each keeps its declared size and every byte but its target id, which
/// becomes `target` where it was 0; bytes outside the subpackets stay as they
/// were; and the count is the number of subpackets whose target id was 0.
pub proof fn lemma_stamp_stream_frames(s: Seq<u8>, p: int, target: u32)
    requires
        0 <= p,
    ensures
        ({
            let (r, n) = stamp_stream(s, p, target);
            let frames = frame_starts(s, p);
            &&& r.len() == s.len()
            &&& frames.finite()
            &&& untargeted_starts(s, p).finite()
            &&& n == untargeted_starts(s, p).len()
            &&& frame_starts(r, p) == frames
            &&& forall|f: int|
                #[trigger] frames.contains(f) ==> {
                    &&& SubPacketHeader::at(r, f) == stamped_header(SubPacketHeader::at(s, f), target)
                    &&& r.subrange(f + 16, f + wire::u16_at(s, f)) == s.subrange(
                        f + 16,
                        f + wire::u16_at(s, f),
                    )
                }
            &&& forall|k: int|
                p <= k < s.len() && (forall|f: int|
                    #[trigger] frames.contains(f) ==> !(f <= k < f + wire::u16_at(s, f)))
                    ==> r[k] == s[k]
        }),
{
    lemma_frame_starts_shape(s, s, p);
    lemma_stamp_stream_count(s, p, target);
    lemma_stamp_stream_keeps_frames(s, p, target);
    lemma_stamp_stream_keeps_gaps(s, p, target);
}

/// For every subpacket that the stamping walk from the start of `s` reaches
/// (not only the first), parsing the stamped stream there gives the subpacket
/// that was there, addressed to `target` if its target id was 0 and untouched
/// otherwise; the count is the number of such subpackets with target id 0.
pub proof fn lemma_stamp_reaches_every_subpacket(s: Seq<u8>, target: u32)
    ensures
        ({
            let (r, n) = stamp_stream(s, 0, target);
            &&& n == untargeted_starts(s, 0).len()
            &&& frame_starts(r, 0) == frame_starts(s, 0)
            &&& forall|f: int|
                #[trigger] frame_starts(s, 0).contains(f) && parse_at(s, f) is Ok ==> parse_at(r, f)
                    == Ok::<(SubPacketModel, int), PacketError>(
                    (stamped_model(parse_at(s, f)->Ok_0.0, target), parse_at(s, f)->Ok_0.1),
                )
        }),
{
    let r = stamp_stream(s, 0, target).0;
    lemma_stamp_stream_frames(s, 0, target);
    assert forall|f: int|
        #[trigger] frame_starts(s, 0).contains(f) && parse_at(s, f) is Ok implies parse_at(r, f)
            == Ok::<(SubPacketModel, int), PacketError>(
            (stamped_model(parse_at(s, f)->Ok_0.0, target), parse_at(s, f)->Ok_0.1),
        ) by {
        lemma_frame_starts_shape(s, s, 0);
        let h = SubPacketHeader::at(s, f);
        let t2 = if h.target_id == 0 {
            target
        } else {
            h.target_id
        };
        assert(SubPacketHeader::at(r, f) == (SubPacketHeader { target_id: t2, ..h }));
        lemma_parse_retargeted(s, r, f, t2);
        let m = parse_at(s, f)->Ok_0.0;
        if h.target_id != 0 {
            assert((SubPacketHeader { target_id: t2, ..m.header }) == m.header);
            assert((SubPacketModel { header: SubPacketHeader { target_id: t2, ..m.header }, ..m }) == m);
        }
    }
}

/// Stamping a stream a second time with the same non-zero target stamps
/// nothing and changes nothing.
pub proof fn lemma_stamp_stream_idempotent(s: Seq<u8>, off: int, target: u32)
    requires
        target != 0,
    ensures
        stamp_stream(stamp_stream(s, off, target).0, off, target) == (
            stamp_stream(s, off, target).0,
            0nat,
        ),
    decreases s.len() - off,
{
    let r = stamp_stream(s, off, target).0;
    if off < 0 || s.len() < off + SUBPACKET_SIZE {
    } else {
        let size = wire::u16_at(s, off) as int;
        if size < SUBPACKET_SIZE || s.len() < off + size {
        } else if wire::u32_at(s, off + 8) == 0 {
            let s2 = wire::splice(s, off + 8, wire::le32(target));
            lemma_stamp_stream_keeps_prefix(s2, off + size, target);
            lemma_stamp_stream_idempotent(s2, off + size, target);
            assert(r[off] == s[off] && r[off + 1] == s[off + 1]);
            assert(r.subrange(off + 8, off + 12) =~= wire::le32(target)) by {
                assert forall|i: int| 0 <= i < 4 implies r.subrange(off + 8, off + 12)[i]
                    == wire::le32(target)[i] by {
                    assert(r[off + 8 + i] == s2[off + 8 + i]);
                }
            }
            wire::lemma_u32_at_le32(r, off + 8, target);
        } else {
            lemma_stamp_stream_keeps_prefix(s, off + size, target);
            lemma_stamp_stream_idempotent(s, off + size, target);
            assert(r[off] == s[off] && r[off + 1] == s[off + 1]);
            assert(r[off + 8] == s[off + 8] && r[off + 9] == s[off + 9] && r[off + 10] == s[off
                + 10] && r[off + 11] == s[off + 11]);
        }
    }
}

/// The subpacket that `stamp_target_id_if_zero` leaves at an offset where one
/// parses: the same subpacket, addressed to `target` if its target id was 0
/// and untouched otherwise.
pub open spec fn stamped_model(m: SubPacketModel, target: u32) -> SubPacketModel {
    if m.header.target_id == 0 {
        SubPacketModel { header: SubPacketHeader { target_id: target, ..m.header }, ..m }
    } else {
        m
    }
}

/// Parsing at the start of a stamping walk, after the stamping, gives the
/// subpacket that was there with its zero target id replaced by `target`; a
/// subpacket that already carried a non-zero target is unchanged.
pub proof fn lemma_stamp_then_parse(s: Seq<u8>, off: int, target: u32)
    requires
        0 <= off,
        parse_at(s, off) is Ok,
    ensures
        parse_at(stamp_stream(s, off, target).0, off) == Ok::<(SubPacketModel, int), PacketError>(
            (stamped_model(parse_at(s, off)->Ok_0.0, target), parse_at(s, off)->Ok_0.1),
        ),
{
    let (m, end) = parse_at(s, off)->Ok_0;
    let size = m.header.subpacket_size as int;
    let hl = headers_len(m.header);
    let r = stamp_stream(s, off, target).0;
    let s2 = if m.header.target_id == 0 {
        wire::splice(s, off + 8, wire::le32(target))
    } else {
        s
    };
    if m.header.target_id == 0 {
        lemma_stamp_stream_keeps_prefix(s2, off + size, target);
        assert(s2.subrange(off + 8, off + 12) =~= wire::le32(target));
        wire::lemma_u32_at_le32(s2, off + 8, target);
    } else {
        lemma_stamp_stream_keeps_prefix(s, off + size, target);
    }
    assert(r == stamp_stream(s2, off + size, target).0);
    assert(forall|k: int| 0 <= k < off + size ==> r[k] == s2[k]);
    assert(forall|k: int|
        0 <= k < off + size && !(off + 8 <= k < off + 12) ==> #[trigger] s2[k] == s[k]);
    assert(r.len() == s.len());
    let p = parse_at(r, off);
    assert(SubPacketHeader::at(r, off) == stamped_model(m, target).header);
    if m.header.packet_type == SUBPACKET_TYPE_GAMEMESSAGE {
        assert(GameMessageHeader::at(r, off + 16) == m.game_message);
    }
    assert(r.subrange(off + hl, off + size) =~= m.data);
    assert(p is Ok);
    assert(p->Ok_0.0.data =~= m.data);
}

} // verus!

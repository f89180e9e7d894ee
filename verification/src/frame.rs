//! The MAVLink v2 wire format.
//!
//! A frame is `0xFD | len | incompat_flags | compat_flags | seq | sys_id |
//! comp_id | msg_id (3 bytes, little endian) | payload (len bytes) |
//! checksum (2 bytes, little endian) | signature (13 bytes, only when the
//! signed bit of incompat_flags is set)`.
//!
//! This module states that grammar over byte sequences and scans buffers
//! for frames. The checksum itself is computed by the `mavlink` crate.

use vstd::prelude::*;
use vstd::slice::slice_subrange;

verus! {

/// Start byte of a MAVLink v2 frame.
pub const MAV_STX_V2: u8 = 0xFD;

/// Start byte and the nine header bytes that follow it.
pub const HEADER_LEN: usize = 10;

/// Length of the checksum that follows the payload.
pub const CHECKSUM_LEN: usize = 2;

/// Length of the signature of a signed frame.
pub const SIGNATURE_LEN: usize = 13;

/// Longest possible frame: header, 255 payload bytes, checksum, signature.
pub const MAX_FRAME_LEN: usize = 280;

/// The CRC seed byte that the ArduPilotMega dialect assigns to a message id.
pub uninterp spec fn crc_extra(message_id: u32) -> u8;

/// The MAVLink checksum (CRC-16/MCRF4XX) of `data` followed by the seed byte `extra`.
pub uninterp spec fn crc16(data: Seq<u8>, extra: u8) -> u16;

/// Whether the incompatibility flags mark a frame as signed.
pub open spec fn is_signed(incompat_flags: u8) -> bool {
    incompat_flags % 2 == 1
}

/// Total length of a frame whose header announces `payload_len` and `incompat_flags`.
pub open spec fn frame_len(payload_len: u8, incompat_flags: u8) -> int {
    HEADER_LEN + payload_len + CHECKSUM_LEN + if is_signed(incompat_flags) {
        SIGNATURE_LEN as int
    } else {
        0
    }
}

/// The length that the header at the start of `s` announces for its frame.
pub open spec fn declared_len(s: Seq<u8>) -> int
    recommends
        s.len() >= 3,
{
    frame_len(s[1], s[2])
}

/// The 24-bit message id stored little endian in three header bytes.
pub open spec fn message_id_of(b0: u8, b1: u8, b2: u8) -> u32 {
    (b0 + 256 * b1 + 65536 * b2) as u32
}

/// The 16-bit checksum stored little endian in two bytes.
pub open spec fn checksum_of(lo: u8, hi: u8) -> u16 {
    (lo + 256 * hi) as u16
}

/// `f` starts with the v2 start byte and is exactly as long as its header announces.
pub open spec fn has_frame_shape(f: Seq<u8>) -> bool {
    &&& f.len() >= HEADER_LEN + CHECKSUM_LEN
    &&& f[0] == MAV_STX_V2
    &&& f.len() == declared_len(f)
}

/// The checksum stored in `f` is the one computed over its header and payload.
pub open spec fn checksum_matches(f: Seq<u8>) -> bool
    recommends
        has_frame_shape(f),
{
    let end = HEADER_LEN + f[1];
    checksum_of(f[end], f[end + 1]) == crc16(
        f.subrange(1, end),
        crc_extra(message_id_of(f[7], f[8], f[9])),
    )
}

/// `f` is one complete, valid MAVLink v2 frame.
pub open spec fn is_frame(f: Seq<u8>) -> bool {
    has_frame_shape(f) && checksum_matches(f)
}

/// Calls `Message::extra_crc` of the ArduPilotMega dialect of the `mavlink`
/// crate. Assumed: the result is a function of the message id alone.
#[verifier::external_body]
pub(crate) fn dialect_crc_extra(message_id: u32) -> (extra: u8)
    ensures
        extra == crc_extra(message_id),
{
    <mavlink::ardupilotmega::MavMessage as mavlink::Message>::extra_crc(message_id)
}

/// Calls `mavlink::calculate_crc`. Assumed: the result is a function of the
/// bytes and the seed alone.
#[verifier::external_body]
pub(crate) fn calculate_crc(data: &[u8], extra: u8) -> (crc: u16)
    ensures
        crc == crc16(data@, extra),
{
    mavlink::calculate_crc(data, extra)
}

/// What stands at the start of a non-empty run of bytes.
#[derive(Clone, Copy, Debug, PartialEq, Eq, Structural)]
pub enum Scan {
    /// A complete, valid frame of `len` bytes.
    Frame { len: usize },
    /// A byte that starts no valid frame: noise, a MAVLink v1 start byte, or
    /// the start byte of a frame whose checksum does not match.
    Skip,
    /// The start of a frame whose remaining bytes have not arrived yet.
    Incomplete,
}

/// Classifies the start of `s`.
///
/// A byte other than the start byte is skipped. After a start byte the ten
/// header bytes and then the announced length must be present, else the
/// frame is incomplete. A frame that is present in full is valid if its
/// checksum matches, and is otherwise skipped by one byte.
pub open spec fn classify(s: Seq<u8>) -> Scan
    recommends
        s.len() > 0,
{
    if s[0] != MAV_STX_V2 {
        Scan::Skip
    } else if s.len() < HEADER_LEN || s.len() < declared_len(s) {
        Scan::Incomplete
    } else if checksum_matches(s.subrange(0, declared_len(s))) {
        Scan::Frame { len: declared_len(s) as usize }
    } else {
        Scan::Skip
    }
}

/// The frames that a scan of `s` from its start finds, in order.
pub open spec fn frames_of(s: Seq<u8>) -> Seq<Seq<u8>>
    decreases s.len(),
{
    if s.len() == 0 {
        Seq::empty()
    } else {
        match classify(s) {
            Scan::Frame { len } => if 0 < len <= s.len() {
                seq![s.subrange(0, len as int)] + frames_of(s.subrange(len as int, s.len() as int))
            } else {
                Seq::empty()
            },
            Scan::Skip => frames_of(s.subrange(1, s.len() as int)),
            Scan::Incomplete => Seq::empty(),
        }
    }
}

/// The number of bytes at the start of `s` that a scan is done with: every
/// frame found and every byte skipped, up to the first incomplete frame.
pub open spec fn consumed_of(s: Seq<u8>) -> nat
    decreases s.len(),
{
    if s.len() == 0 {
        0
    } else {
        match classify(s) {
            Scan::Frame { len } => if 0 < len <= s.len() {
                len as nat + consumed_of(s.subrange(len as int, s.len() as int))
            } else {
                0
            },
            Scan::Skip => 1 + consumed_of(s.subrange(1, s.len() as int)),
            Scan::Incomplete => 0,
        }
    }
}

/// Classifies what stands at `pos` in `buf`.
pub(crate) fn scan(buf: &[u8], pos: usize) -> (found: Scan)
    requires
        pos < buf.len(),
    ensures
        found == classify(buf@.subrange(pos as int, buf@.len() as int)),
        found matches Scan::Frame { len } ==> HEADER_LEN + CHECKSUM_LEN <= len <= buf.len() - pos
            && len <= MAX_FRAME_LEN,
{
    let ghost s = buf@.subrange(pos as int, buf@.len() as int);
    let remaining: usize = buf.len() - pos;
    assert(s[0] == buf@[pos as int]);
    if buf[pos] != MAV_STX_V2 {
        return Scan::Skip;
    }
    if remaining < HEADER_LEN {
        return Scan::Incomplete;
    }
    assert(s[1] == buf@[pos + 1] && s[2] == buf@[pos + 2]);
    let payload_len: usize = buf[pos + 1] as usize;
    let signed: bool = buf[pos + 2] % 2 == 1;
    let total: usize = HEADER_LEN + payload_len + CHECKSUM_LEN + if signed {
        SIGNATURE_LEN
    } else {
        0
    };
    assert(total == declared_len(s));
    if remaining < total {
        return Scan::Incomplete;
    }
    let end: usize = HEADER_LEN + payload_len;
    let message_id: u32 = buf[pos + 7] as u32 + 256 * (buf[pos + 8] as u32) + 65536 * (buf[pos
        + 9] as u32);
    let stored: u16 = buf[pos + end] as u16 + 256 * (buf[pos + end + 1] as u16);
    let covered = slice_subrange(buf, pos + 1, pos + end);
    let computed: u16 = calculate_crc(covered, dialect_crc_extra(message_id));
    proof {
        let f = s.subrange(0, total as int);
        assert(f.subrange(1, end as int) =~= covered@);
        assert(f[7] == buf@[pos + 7] && f[8] == buf@[pos + 8] && f[9] == buf@[pos + 9]);
        assert(f[end as int] == buf@[pos + end] && f[end + 1] == buf@[pos + end + 1]);
    }
    if stored == computed {
        Scan::Frame { len: total }
    } else {
        Scan::Skip
    }
}

/// Every frame that a scan finds is a complete, valid frame.
pub proof fn lemma_frames_of_are_frames(s: Seq<u8>)
    ensures
        forall|i: int| 0 <= i < frames_of(s).len() ==> is_frame(#[trigger] frames_of(s)[i]),
    decreases s.len(),
{
    if s.len() > 0 {
        match classify(s) {
            Scan::Frame { len } => {
                if 0 < len <= s.len() {
                    let f = s.subrange(0, len as int);
                    let rest = s.subrange(len as int, s.len() as int);
                    lemma_frames_of_are_frames(rest);
                    assert(len == declared_len(s));
                    assert(f[0] == s[0] && f[1] == s[1] && f[2] == s[2]);
                    assert(is_frame(f));
                    assert(frames_of(s) == seq![f] + frames_of(rest));
                    assert forall|i: int| 0 <= i < frames_of(s).len() implies is_frame(
                        #[trigger] frames_of(s)[i],
                    ) by {
                        if i > 0 {
                            assert(frames_of(s)[i] == frames_of(rest)[i - 1]);
                        }
                    }
                }
            },
            Scan::Skip => {
                lemma_frames_of_are_frames(s.subrange(1, s.len() as int));
                assert(frames_of(s) == frames_of(s.subrange(1, s.len() as int)));
            },
            Scan::Incomplete => {
                assert(frames_of(s).len() == 0);
            },
        }
    } else {
        assert(frames_of(s).len() == 0);
    }
}

/// The bytes of `frames`, one after the other.
pub open spec fn concat(frames: Seq<Seq<u8>>) -> Seq<u8>
    decreases frames.len(),
{
    if frames.len() == 0 {
        Seq::empty()
    } else {
        frames[0] + concat(frames.subrange(1, frames.len() as int))
    }
}

/// `t` is nothing, or the start of a frame of which bytes are still missing.
pub open spec fn is_partial(t: Seq<u8>) -> bool {
    t.len() == 0 || (t[0] == MAV_STX_V2 && (t.len() < HEADER_LEN || t.len() < declared_len(t)))
}

/// Framer closure: a buffer that holds complete frames followed by a partial
/// one yields exactly those frames, in order, and the scan is done with
/// exactly their bytes, so that the partial frame is what remains.
pub proof fn lemma_framer_closure(frames: Seq<Seq<u8>>, partial: Seq<u8>)
    requires
        forall|i: int| 0 <= i < frames.len() ==> is_frame(#[trigger] frames[i]),
        is_partial(partial),
    ensures
        frames_of(concat(frames) + partial) == frames,
        consumed_of(concat(frames) + partial) == concat(frames).len(),
        (concat(frames) + partial).subrange(
            consumed_of(concat(frames) + partial) as int,
            (concat(frames) + partial).len() as int,
        ) == partial,
    decreases frames.len(),
{
    let s = concat(frames) + partial;
    if frames.len() == 0 {
        assert(s =~= partial);
    } else {
        let f = frames[0];
        let tail = frames.subrange(1, frames.len() as int);
        let rest = concat(tail) + partial;
        assert(is_frame(f));
        assert(s =~= f + rest);
        assert(s[0] == f[0] && s[1] == f[1] && s[2] == f[2]);
        assert(declared_len(s) == f.len());
        assert(s.subrange(0, f.len() as int) =~= f);
        assert(s.subrange(f.len() as int, s.len() as int) =~= rest);
        assert(classify(s) == Scan::Frame { len: f.len() as usize });
        assert forall|i: int| 0 <= i < tail.len() implies is_frame(#[trigger] tail[i]) by {
            assert(tail[i] == frames[i + 1]);
        }
        lemma_framer_closure(tail, partial);
        assert(frames_of(s) =~= seq![f] + tail);
        assert(seq![f] + tail =~= frames);
    }
    assert(s.subrange(concat(frames).len() as int, s.len() as int) =~= partial);
}

} // verus!

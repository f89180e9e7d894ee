//! One MAVLink v2 frame, owned.

use crate::frame::{
    calculate_crc, checksum_matches, checksum_of, dialect_crc_extra, has_frame_shape,
    is_signed, message_id_of, CHECKSUM_LEN, HEADER_LEN, MAV_STX_V2, SIGNATURE_LEN,
};
use vstd::prelude::*;
use vstd::slice::slice_subrange;

verus! {

/// The bytes of one MAVLink v2 frame.
///
/// A packet always starts with the v2 start byte and is exactly as long as
/// its header announces: at least 12 and at most 280 bytes. Whether its
/// checksum matches is a separate question, answered by
/// [`Packet::has_valid_crc`].
#[derive(Debug, PartialEq, Eq)]
pub struct Packet {
    bytes: Vec<u8>,
}

impl View for Packet {
    type V = Seq<u8>;

    closed spec fn view(&self) -> Seq<u8> {
        self.bytes@
    }
}

impl Clone for Packet {
    fn clone(&self) -> (copy: Packet)
        ensures
            copy@ == self@,
    {
        proof {
            use_type_invariant(self);
        }
        let bytes = self.bytes.clone();
        assert(bytes@ =~= self.bytes@);
        Packet { bytes }
    }
}

impl Packet {
    #[verifier::type_invariant]
    spec fn well_formed(&self) -> bool {
        has_frame_shape(self.bytes@)
    }

    /// Takes `bytes` as a packet if they have the shape of a frame.
    pub fn from_bytes(bytes: Vec<u8>) -> (packet: Option<Packet>)
        ensures
            packet is Some <==> has_frame_shape(bytes@),
            packet matches Some(p) ==> p@ == bytes@,
    {
        if bytes.len() < HEADER_LEN + CHECKSUM_LEN || bytes[0] != MAV_STX_V2 {
            return None;
        }
        let payload_len: usize = bytes[1] as usize;
        let signature_len: usize = if bytes[2] % 2 == 1 {
            SIGNATURE_LEN
        } else {
            0
        };
        if bytes.len() != HEADER_LEN + payload_len + CHECKSUM_LEN + signature_len {
            return None;
        }
        Some(Packet { bytes })
    }

    /// The whole frame, start byte to checksum or signature.
    pub fn raw_bytes(&self) -> (bytes: &[u8])
        ensures
            bytes@ == self@,
            has_frame_shape(bytes@),
    {
        proof {
            use_type_invariant(self);
        }
        self.bytes.as_slice()
    }

    /// The nine header bytes that follow the start byte: payload length,
    /// incompatibility flags, compatibility flags, sequence, system id,
    /// component id, and the three bytes of the message id.
    pub fn header(&self) -> (header: &[u8])
        ensures
            header@ == self@.subrange(1, HEADER_LEN as int),
    {
        proof {
            use_type_invariant(self);
        }
        slice_subrange(self.bytes.as_slice(), 1, HEADER_LEN)
    }

    /// Number of payload bytes.
    pub fn payload_length(&self) -> (len: u8)
        ensures
            len == self@[1],
    {
        proof {
            use_type_invariant(self);
        }
        self.bytes[1]
    }

    /// Flags that a receiver must understand to handle the frame.
    pub fn incompatibility_flags(&self) -> (flags: u8)
        ensures
            flags == self@[2],
    {
        proof {
            use_type_invariant(self);
        }
        self.bytes[2]
    }

    /// Flags that a receiver may ignore.
    pub fn compatibility_flags(&self) -> (flags: u8)
        ensures
            flags == self@[3],
    {
        proof {
            use_type_invariant(self);
        }
        self.bytes[3]
    }

    /// Sequence number that the sender gave the frame.
    pub fn sequence(&self) -> (seq: u8)
        ensures
            seq == self@[4],
    {
        proof {
            use_type_invariant(self);
        }
        self.bytes[4]
    }

    /// Id of the sending system.
    pub fn system_id(&self) -> (id: u8)
        ensures
            id == self@[5],
    {
        proof {
            use_type_invariant(self);
        }
        self.bytes[5]
    }

    /// Id of the sending component.
    pub fn component_id(&self) -> (id: u8)
        ensures
            id == self@[6],
    {
        proof {
            use_type_invariant(self);
        }
        self.bytes[6]
    }

    /// Id of the message that the payload encodes.
    pub fn message_id(&self) -> (id: u32)
        ensures
            id == message_id_of(self@[7], self@[8], self@[9]),
    {
        proof {
            use_type_invariant(self);
        }
        self.bytes[7] as u32 + 256 * (self.bytes[8] as u32) + 65536 * (self.bytes[9] as u32)
    }

    /// Whether the frame carries a signature.
    pub fn is_signed(&self) -> (signed: bool)
        ensures
            signed == is_signed(self@[2]),
    {
        proof {
            use_type_invariant(self);
        }
        self.bytes[2] % 2 == 1
    }

    /// The payload bytes.
    pub fn payload(&self) -> (payload: &[u8])
        ensures
            payload@ == self@.subrange(HEADER_LEN as int, HEADER_LEN + self@[1]),
    {
        proof {
            use_type_invariant(self);
        }
        let end: usize = HEADER_LEN + self.bytes[1] as usize;
        slice_subrange(self.bytes.as_slice(), HEADER_LEN, end)
    }

    /// The checksum stored after the payload.
    pub fn checksum(&self) -> (crc: u16)
        ensures
            crc == checksum_of(self@[HEADER_LEN + self@[1]], self@[HEADER_LEN + self@[1] + 1]),
    {
        proof {
            use_type_invariant(self);
        }
        let end: usize = HEADER_LEN + self.bytes[1] as usize;
        self.bytes[end] as u16 + 256 * (self.bytes[end + 1] as u16)
    }

    /// Whether the stored checksum is the one computed over header and payload.
    pub fn has_valid_crc(&self) -> (valid: bool)
        ensures
            valid == checksum_matches(self@),
    {
        proof {
            use_type_invariant(self);
        }
        let end: usize = HEADER_LEN + self.bytes[1] as usize;
        let covered = slice_subrange(self.bytes.as_slice(), 1, end);
        let computed = calculate_crc(covered, dialect_crc_extra(self.message_id()));
        self.checksum() == computed
    }
}

} // verus!

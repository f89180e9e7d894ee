//! The message that endpoints exchange, and the framer that cuts byte
//! streams into such messages.

use crate::frame::{
    classify, consumed_of, declared_len, frames_of, is_frame, lemma_frames_of_are_frames, scan,
    Scan,
};
use crate::packet::Packet;
use vstd::prelude::*;
use vstd::slice::{slice_subrange, slice_to_vec};

verus! {

/// A packet together with where and when it entered the hub.
#[derive(Debug, PartialEq)]
pub struct Protocol {
    /// The driver or peer address at which the packet came in.
    pub origin: String,
    /// Time of arrival, in microseconds since the Unix epoch (UTC).
    pub timestamp: u64,
    /// The frame itself.
    pub packet: Packet,
}

/// Reads the clock through `chrono::Utc::now` and `DateTime::timestamp_micros`.
/// Nothing is assumed of the result. `Utc::now` panics on a machine whose
/// clock stands before 1970.
#[verifier::external_body]
fn now_micros() -> u64 {
    chrono::Utc::now().timestamp_micros() as u64
}

impl Protocol {
    /// A message that arrives now from `origin`.
    pub fn new(origin: &str, packet: Packet) -> (message: Protocol)
        ensures
            message.origin@ == origin@,
            message.packet@ == packet@,
    {
        Protocol { origin: origin.to_owned(), timestamp: now_micros(), packet }
    }

    /// A message that arrived at `timestamp` from `origin`.
    pub fn new_with_timestamp(timestamp: u64, origin: &str, packet: Packet) -> (message: Protocol)
        ensures
            message.origin@ == origin@,
            message.timestamp == timestamp,
            message.packet@ == packet@,
    {
        Protocol { origin: origin.to_owned(), timestamp, packet }
    }

    /// The whole frame of the packet.
    pub fn raw_bytes(&self) -> (bytes: &[u8])
        ensures
            bytes@ == self.packet@,
    {
        self.packet.raw_bytes()
    }

    /// The nine header bytes of the packet that follow the start byte.
    pub fn header(&self) -> (header: &[u8])
        ensures
            header@ == self.packet@.subrange(1, 10),
    {
        self.packet.header()
    }
}

impl Clone for Protocol {
    fn clone(&self) -> (copy: Protocol)
        ensures
            copy.origin@ == self.origin@,
            copy.timestamp == self.timestamp,
            copy.packet@ == self.packet@,
    {
        Protocol {
            origin: self.origin.clone(),
            timestamp: self.timestamp,
            packet: self.packet.clone(),
        }
    }
}

/// Cuts the frames out of `buf` and removes from it what the scan is done with.
///
/// The buffer is scanned from its start. Bytes that start no valid frame are
/// dropped; every complete, valid frame becomes one message from `origin`,
/// stamped with the time at which it was found; the scan stops at the first
/// frame of which bytes are still missing. That incomplete frame, if there is
/// one, is all that stays in `buf`, so that the next call can go on once
/// more bytes have been appended.
pub fn read_all_messages(origin: &str, buf: &mut Vec<u8>) -> (messages: Vec<Protocol>)
    ensures
        messages@.len() == frames_of(old(buf)@).len(),
        forall|i: int|
            0 <= i < messages@.len() ==> (#[trigger] messages@[i]).packet@ == frames_of(
                old(buf)@,
            )[i],
        forall|i: int| 0 <= i < messages@.len() ==> (#[trigger] messages@[i]).origin@ == origin@,
        forall|i: int| 0 <= i < messages@.len() ==> is_frame((#[trigger] messages@[i]).packet@),
        consumed_of(old(buf)@) <= old(buf)@.len(),
        final(buf)@ == old(buf)@.subrange(
            consumed_of(old(buf)@) as int,
            old(buf)@.len() as int,
        ),
{
    let mut messages: Vec<Protocol> = Vec::new();
    let ghost all = buf@;
    let ghost mut seen: Seq<Seq<u8>> = Seq::empty();
    let mut pos: usize = 0;
    let mut stalled: bool = false;
    proof {
        assert(all.subrange(0, all.len() as int) =~= all);
        assert(seen + frames_of(all) =~= frames_of(all));
    }
    while pos < buf.len() && !stalled
        invariant
            buf@ == all,
            pos <= buf.len(),
            messages@.len() == seen.len(),
            forall|i: int| 0 <= i < messages@.len() ==> (#[trigger] messages@[i]).packet@ == seen[i],
            forall|i: int|
                0 <= i < messages@.len() ==> (#[trigger] messages@[i]).origin@ == origin@,
            !stalled ==> frames_of(all) == seen + frames_of(
                all.subrange(pos as int, all.len() as int),
            ),
            !stalled ==> consumed_of(all) == pos + consumed_of(
                all.subrange(pos as int, all.len() as int),
            ),
            stalled ==> frames_of(all) == seen && consumed_of(all) == pos,
        decreases buf.len() - pos + if stalled { 0int } else { 1int },
    {
        let ghost rest = all.subrange(pos as int, all.len() as int);
        match scan(buf.as_slice(), pos) {
            Scan::Frame { len } => {
                let frame = slice_to_vec(slice_subrange(buf.as_slice(), pos, pos + len));
                proof {
                    assert(frame@ =~= rest.subrange(0, len as int));
                    assert(len == declared_len(rest));
                    assert(frame@[0] == rest[0] && frame@[1] == rest[1] && frame@[2] == rest[2]);
                    assert(rest.subrange(len as int, rest.len() as int) =~= all.subrange(
                        pos + len,
                        all.len() as int,
                    ));
                    assert(seen + (seq![frame@] + frames_of(
                        rest.subrange(len as int, rest.len() as int),
                    )) =~= seen.push(frame@) + frames_of(
                        rest.subrange(len as int, rest.len() as int),
                    ));
                    seen = seen.push(frame@);
                }
                let packet = Packet::from_bytes(frame).unwrap();
                messages.push(Protocol::new(origin, packet));
                pos = pos + len;
            },
            Scan::Skip => {
                proof {
                    assert(rest.subrange(1, rest.len() as int) =~= all.subrange(
                        pos + 1,
                        all.len() as int,
                    ));
                }
                pos = pos + 1;
            },
            Scan::Incomplete => {
                proof {
                    assert(seen + Seq::<Seq<u8>>::empty() =~= seen);
                }
                stalled = true;
            },
        }
    }
    proof {
        if !stalled {
            assert(all.subrange(pos as int, all.len() as int).len() == 0);
            assert(seen + Seq::<Seq<u8>>::empty() =~= seen);
        }
        lemma_frames_of_are_frames(all);
    }
    let rest = buf.split_off(pos);
    *buf = rest;
    messages
}

} // verus!

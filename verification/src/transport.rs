//! Descriptor transport.
//!
//! Owns the local duplex byte-stream endpoint towards the consumer. Each
//! plane's descriptor crosses the process boundary as ancillary data beside a
//! one-byte payload; the units sent are modelled here as an ordered log. End
//! of stream is signalled once, by half-closing the write direction: the
//! consumer detects it as a read of zero bytes with no descriptor attached,
//! and a second signal fails rather than re-executing.

use vstd::prelude::*;

use crate::stage::{PlaneHandle, TransferablePlane};

verus! {

/// Delivering a frame or the end-of-stream signal failed.
#[derive(Clone, Copy, Debug, PartialEq, Eq, Structural)]
pub enum TransportError {
    /// Only part of the frame's descriptors could be sent.
    Partial,
    /// The write direction is already closed.
    Closed,
}

/// Whether a plane's descriptor can cross the boundary: a borrowed descriptor
/// must still be a valid handle; a staged region always carries its own.
pub open spec fn spec_plane_sendable(t: TransferablePlane) -> bool {
    match t.handle {
        PlaneHandle::Borrowed(fd) => fd > 0,
        PlaneHandle::Staged(_) => true,
    }
}

/// Whether every plane of a frame can cross the boundary.
pub open spec fn spec_frame_sendable(planes: Seq<TransferablePlane>) -> bool {
    forall|i: int| 0 <= i < planes.len() ==> spec_plane_sendable(#[trigger] planes[i])
}

/// The length of the longest sendable prefix of a frame: how much of it a
/// partial send delivers.
pub open spec fn spec_sendable_prefix(planes: Seq<TransferablePlane>) -> int
    decreases planes.len(),
{
    if planes.len() == 0 {
        0
    } else if !spec_plane_sendable(planes[0]) {
        0
    } else {
        1 + spec_sendable_prefix(planes.skip(1))
    }
}

/// The duplex endpoint the consumer reads descriptors from. Sends are
/// serialized by exclusive access (`&mut self`): one send or shutdown is in
/// flight at a time.
#[derive(Debug)]
pub struct DescriptorTransport {
    write_open: bool,
    sent: Vec<TransferablePlane>,
}

impl DescriptorTransport {
    /// Whether the write direction is still open.
    pub closed spec fn is_write_open(&self) -> bool {
        self.write_open
    }

    /// The ordered log of plane units sent so far, one descriptor beside one
    /// payload byte each.
    pub closed spec fn log(&self) -> Seq<TransferablePlane> {
        self.sent@
    }

    /// A fresh endpoint: write direction open, nothing sent.
    pub fn new() -> (r: DescriptorTransport)
        ensures
            r.is_write_open(),
            r.log() == Seq::<TransferablePlane>::empty(),
    {
        DescriptorTransport { write_open: true, sent: Vec::new() }
    }

    /// Whether the write direction is still open.
    pub fn write_direction_open(&self) -> (r: bool)
        ensures
            r == self.is_write_open(),
    {
        self.write_open
    }

    /// The units sent so far, in order.
    pub fn sent_units(&self) -> (r: &Vec<TransferablePlane>)
        ensures
            r@ == self.log(),
    {
        &self.sent
    }

    /// Sends one frame's planes in order, each descriptor as ancillary data
    /// beside a one-byte payload. On a closed endpoint nothing is sent; when a
    /// plane's descriptor cannot be sent, the planes before it have been sent
    /// and the frame is reported `Partial`.
    pub fn send_frame(&mut self, planes: Vec<TransferablePlane>) -> (r: Result<(), TransportError>)
        ensures
            !old(self).is_write_open() ==> r == Err::<(), TransportError>(TransportError::Closed)
                && final(self).log() == old(self).log() && !final(self).is_write_open(),
            old(self).is_write_open() ==> final(self).is_write_open() && (
            if spec_frame_sendable(planes@) {
                r == Ok::<(), TransportError>(()) && final(self).log() == old(self).log()
                    + planes@
            } else {
                r == Err::<(), TransportError>(TransportError::Partial) && final(self).log()
                    == old(self).log() + planes@.take(spec_sendable_prefix(planes@))
            }),
    {
        if !self.write_open {
            return Err(TransportError::Closed);
        }
        let ghost orig = planes@;
        let ghost base = self.sent@;
        let mut pending = planes;
        let total: usize = pending.len();
        let mut i: usize = 0;
        while pending.len() > 0
            invariant
                orig.len() == total,
                orig == planes@,
                base == old(self).log(),
                old(self).is_write_open(),
                i + pending@.len() == orig.len(),
                pending@ == orig.skip(i as int),
                self.sent@ == base + orig.take(i as int),
                self.write_open,
                forall|k: int| 0 <= k < i ==> spec_plane_sendable(#[trigger] orig[k]),
            decreases pending@.len(),
        {
            let plane = pending.remove(0);
            assert(plane == orig[i as int]);
            assert(pending@ =~= orig.skip(i + 1));
            let sendable = match &plane.handle {
                PlaneHandle::Borrowed(fd) => *fd > 0,
                PlaneHandle::Staged(_) => true,
            };
            if !sendable {
                proof {
                    lemma_sendable_prefix_at(orig, i as int);
                }
                return Err(TransportError::Partial);
            }
            self.sent.push(plane);
            assert(self.sent@ =~= base + orig.take(i + 1));
            i = i + 1;
        }
        proof {
            assert(orig.take(orig.len() as int) =~= orig);
            assert(i == orig.len());
        }
        Ok(())
    }

    /// Half-closes the write direction: the sole end-of-stream signal. A
    /// second call fails with `Closed` rather than re-executing.
    pub fn signal_end_of_stream(&mut self) -> (r: Result<(), TransportError>)
        ensures
            final(self).log() == old(self).log(),
            old(self).is_write_open() ==> r == Ok::<(), TransportError>(())
                && !final(self).is_write_open(),
            !old(self).is_write_open() ==> r == Err::<(), TransportError>(TransportError::Closed)
                && !final(self).is_write_open(),
    {
        if self.write_open {
            self.write_open = false;
            Ok(())
        } else {
            Err(TransportError::Closed)
        }
    }
}

/// When the first `i` planes are sendable and plane `i` is not, the longest
/// sendable prefix is exactly the first `i` planes.
proof fn lemma_sendable_prefix_at(planes: Seq<TransferablePlane>, i: int)
    requires
        0 <= i < planes.len(),
        forall|k: int| 0 <= k < i ==> spec_plane_sendable(#[trigger] planes[k]),
        !spec_plane_sendable(planes[i]),
    ensures
        spec_sendable_prefix(planes) == i,
        planes.take(i) == planes.take(spec_sendable_prefix(planes)),
    decreases i,
{
    if i == 0 {
    } else {
        assert(spec_plane_sendable(planes[0]));
        let rest = planes.skip(1);
        assert(rest[i - 1] == planes[i]);
        assert(forall|k: int| 0 <= k < i - 1 ==> #[trigger] rest[k] == planes[k + 1]);
        lemma_sendable_prefix_at(rest, i - 1);
    }
}

} // verus!

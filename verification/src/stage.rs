//! Buffer classifier and stager.
//!
//! Each plane of an accepted frame either already carries a transferable
//! descriptor (the zero-copy path: it is wrapped unchanged) or carries only
//! CPU-mapped bytes, which are staged: copied verbatim into a fresh write-once
//! region that is then sealed against shrinking, growing and further sealing
//! changes. A frame is staged atomically: one bad plane fails the whole frame
//! and nothing of it is handed on.

use vstd::prelude::*;

verus! {

/// How a raw plane's memory is backed, decided once at the producer boundary
/// and never re-inspected by type later: either a transferable descriptor or
/// CPU-mapped bytes, exactly one of the two.
#[derive(Clone, Debug, PartialEq, Eq)]
pub enum PlaneBacking {
    /// The producer already supplies a transferable descriptor.
    Descriptor(i32),
    /// The producer supplies only a CPU mapping of the plane's bytes.
    Mapped(Vec<u8>),
}

/// One memory plane of an accepted buffer, as delivered by the streaming
/// layer. Valid only for one frame callback; staging copies what must outlive
/// it.
#[derive(Clone, Debug, PartialEq, Eq)]
pub struct RawPlane {
    pub backing: PlaneBacking,
    pub offset: u32,
    pub stride: i32,
}

/// An anonymous write-once memory region: created, filled once, then sealed
/// shrink, grow and seal in that order. Once fully sealed no method can alter
/// it, so a consumer may map it read-only with no synchronization.
#[derive(Debug, PartialEq, Eq)]
pub struct SealedRegion {
    data: Vec<u8>,
    shrink_sealed: bool,
    grow_sealed: bool,
    seal_sealed: bool,
}

impl SealedRegion {
    /// The region's bytes.
    pub closed spec fn contents(&self) -> Seq<u8> {
        self.data@
    }

    /// Whether the region refuses to shrink.
    pub closed spec fn is_shrink_sealed(&self) -> bool {
        self.shrink_sealed
    }

    /// Whether the region refuses to grow.
    pub closed spec fn is_grow_sealed(&self) -> bool {
        self.grow_sealed
    }

    /// Whether the seal set itself is frozen: the terminal state.
    pub closed spec fn is_seal_sealed(&self) -> bool {
        self.seal_sealed
    }

    /// Fully sealed: no further write, resize or sealing change is possible.
    pub open spec fn fully_sealed(&self) -> bool {
        self.is_shrink_sealed() && self.is_grow_sealed() && self.is_seal_sealed()
    }

    /// Allocates a fresh region of `len` zero bytes, with no seal applied.
    pub fn allocate(len: usize) -> (r: SealedRegion)
        ensures
            r.contents() == Seq::new(len as nat, |i: int| 0u8),
            !r.is_shrink_sealed(),
            !r.is_grow_sealed(),
            !r.is_seal_sealed(),
    {
        let mut data: Vec<u8> = Vec::new();
        let mut i: usize = 0;
        while i < len
            invariant
                i <= len,
                data@ == Seq::new(i as nat, |k: int| 0u8),
            decreases len - i,
        {
            data.push(0);
            assert(data@ =~= Seq::new((i + 1) as nat, |k: int| 0u8));
            i = i + 1;
        }
        SealedRegion { data, shrink_sealed: false, grow_sealed: false, seal_sealed: false }
    }

    /// Writes the full byte range verbatim into the region: the single write
    /// before the seals go on. Refused once any seal is applied.
    pub fn write(&mut self, bytes: &Vec<u8>)
        requires
            !old(self).is_shrink_sealed(),
            !old(self).is_grow_sealed(),
            !old(self).is_seal_sealed(),
            old(self).contents().len() == bytes@.len(),
        ensures
            final(self).contents() == bytes@,
            final(self).is_shrink_sealed() == old(self).is_shrink_sealed(),
            final(self).is_grow_sealed() == old(self).is_grow_sealed(),
            final(self).is_seal_sealed() == old(self).is_seal_sealed(),
    {
        let mut data: Vec<u8> = Vec::new();
        let mut i: usize = 0;
        while i < bytes.len()
            invariant
                i <= bytes@.len(),
                data@ == bytes@.take(i as int),
            decreases bytes@.len() - i,
        {
            data.push(bytes[i]);
            assert(data@ =~= bytes@.take(i + 1));
            i = i + 1;
        }
        assert(bytes@.take(bytes@.len() as int) =~= bytes@);
        self.data = data;
    }

    /// Disallows any future shrink. Refused once the seal set is frozen.
    pub fn seal_shrink(&mut self)
        requires
            !old(self).is_seal_sealed(),
        ensures
            final(self).contents() == old(self).contents(),
            final(self).is_shrink_sealed(),
            final(self).is_grow_sealed() == old(self).is_grow_sealed(),
            !final(self).is_seal_sealed(),
    {
        self.shrink_sealed = true;
    }

    /// Disallows any future grow. Refused once the seal set is frozen.
    pub fn seal_grow(&mut self)
        requires
            !old(self).is_seal_sealed(),
        ensures
            final(self).contents() == old(self).contents(),
            final(self).is_shrink_sealed() == old(self).is_shrink_sealed(),
            final(self).is_grow_sealed(),
            !final(self).is_seal_sealed(),
    {
        self.grow_sealed = true;
    }

    /// Freezes the seal set itself: the terminal, fully sealed state when the
    /// shrink and grow seals are already in place.
    pub fn seal_seals(&mut self)
        requires
            !old(self).is_seal_sealed(),
        ensures
            final(self).contents() == old(self).contents(),
            final(self).is_shrink_sealed() == old(self).is_shrink_sealed(),
            final(self).is_grow_sealed() == old(self).is_grow_sealed(),
            final(self).is_seal_sealed(),
    {
        self.seal_sealed = true;
    }

    /// The region's bytes, for a consumer-side read.
    pub fn bytes(&self) -> (r: &Vec<u8>)
        ensures
            r@ == self.contents(),
    {
        &self.data
    }

    /// The region's size in bytes.
    pub fn len(&self) -> (r: usize)
        ensures
            r == self.contents().len(),
    {
        self.data.len()
    }

    /// Whether the region is fully sealed.
    pub fn is_fully_sealed(&self) -> (r: bool)
        ensures
            r == self.fully_sealed(),
    {
        self.shrink_sealed && self.grow_sealed && self.seal_sealed
    }
}

/// What a transferable plane's descriptor refers to: a descriptor handed
/// through from the producer, or a freshly staged sealed region.
#[derive(Debug, PartialEq, Eq)]
pub enum PlaneHandle {
    /// The producer's own descriptor, passed through unchanged; never closed
    /// here, so the original handle is not closed twice.
    Borrowed(i32),
    /// A staged region owned by this plane.
    Staged(SealedRegion),
}

/// The normalized output of the stager: always descriptor-bearing, with the
/// plane's offset and stride travelling unchanged alongside.
#[derive(Debug, PartialEq, Eq)]
pub struct TransferablePlane {
    pub handle: PlaneHandle,
    pub offset: u32,
    pub stride: i32,
}

/// Staging failed for the whole frame.
#[derive(Clone, Copy, Debug, PartialEq, Eq, Structural)]
pub enum StageError {
    /// A descriptor-backed plane carried the producer's stub or an otherwise
    /// invalid descriptor; surfacing this beats silently sending a dead
    /// handle.
    InvalidDescriptor,
}

/// Whether a raw plane can be staged: a descriptor-backed plane must carry a
/// valid, open descriptor (positive; zero is the producer's stub value), and a
/// mapped plane always can, a zero-length mapping included.
pub open spec fn spec_plane_ok(p: RawPlane) -> bool {
    match p.backing {
        PlaneBacking::Descriptor(fd) => fd > 0,
        PlaneBacking::Mapped(_) => true,
    }
}

/// Whether every plane of the frame can be staged.
pub open spec fn spec_frame_ok(planes: Seq<RawPlane>) -> bool {
    forall|i: int| 0 <= i < planes.len() ==> spec_plane_ok(#[trigger] planes[i])
}

/// How one staged plane relates to the raw plane it came from: offset and
/// stride travel unchanged; a descriptor-backed plane keeps its descriptor
/// with no copy, and a mapped-only plane gets a fully sealed region holding
/// exactly its bytes.
pub open spec fn spec_plane_staged(p: RawPlane, t: TransferablePlane) -> bool {
    &&& t.offset == p.offset
    &&& t.stride == p.stride
    &&& match p.backing {
        PlaneBacking::Descriptor(fd) => t.handle == PlaneHandle::Borrowed(fd),
        PlaneBacking::Mapped(bytes) => t.handle matches PlaneHandle::Staged(region)
            && region.contents() == bytes@ && region.fully_sealed(),
    }
}

/// Normalizes every plane of a frame into a descriptor-bearing form:
/// descriptor-backed planes are wrapped unchanged (zero-copy, no allocation),
/// mapped-only planes are copied into fresh fully sealed regions. Fails, and
/// then yields nothing of the frame, exactly when some plane carries an
/// invalid descriptor.
pub fn stage(frame: &Vec<RawPlane>) -> (r: Result<Vec<TransferablePlane>, StageError>)
    ensures
        r is Ok <==> spec_frame_ok(frame@),
        r is Err ==> r == Err::<Vec<TransferablePlane>, StageError>(StageError::InvalidDescriptor),
        r matches Ok(out) ==> out@.len() == frame@.len() && forall|i: int|
            0 <= i < frame@.len() ==> spec_plane_staged(frame@[i], #[trigger] out@[i]),
{
    let mut out: Vec<TransferablePlane> = Vec::new();
    let mut i: usize = 0;
    while i < frame.len()
        invariant
            i <= frame@.len(),
            out@.len() == i,
            forall|k: int| 0 <= k < i ==> spec_plane_ok(#[trigger] frame@[k]),
            forall|k: int| 0 <= k < i ==> spec_plane_staged(frame@[k], #[trigger] out@[k]),
        decreases frame@.len() - i,
    {
        let plane = &frame[i];
        match &plane.backing {
            PlaneBacking::Descriptor(fd) => {
                if *fd <= 0 {
                    assert(!spec_plane_ok(frame@[i as int]));
                    return Err(StageError::InvalidDescriptor);
                }
                out.push(
                    TransferablePlane {
                        handle: PlaneHandle::Borrowed(*fd),
                        offset: plane.offset,
                        stride: plane.stride,
                    },
                );
            },
            PlaneBacking::Mapped(bytes) => {
                let mut region = SealedRegion::allocate(bytes.len());
                region.write(bytes);
                region.seal_shrink();
                region.seal_grow();
                region.seal_seals();
                out.push(
                    TransferablePlane {
                        handle: PlaneHandle::Staged(region),
                        offset: plane.offset,
                        stride: plane.stride,
                    },
                );
            },
        }
        i = i + 1;
    }
    Ok(out)
}

} // verus!

//! The readback half of the execution protocol: a host-readable result
//! buffer and the single-use guard produced by initiating an asynchronous
//! map. The guard's contracts force the lifecycle order -- map requested
//! only once, host reads only after the completion signal, unmap exactly
//! once whether the guard is consumed by a read or released early -- and the
//! byte-to-record reconstruction of the mapped contents is exact.

use vstd::prelude::*;

use crate::error::ReadbackError;
use crate::util::Extent3d;

verus! {

/// Where a download buffer stands in its map lifecycle.
#[derive(Clone, Copy, PartialEq, Eq, Structural, Debug)]
pub enum BufferMapState {
    Unmapped,
    MapRequested,
    MappedReady,
    ReadAndUnmapped,
}

/// The lifecycle order: each step may only follow its predecessor.
pub open spec fn spec_next_state(from: BufferMapState, to: BufferMapState) -> bool {
    ||| (from == BufferMapState::Unmapped && to == BufferMapState::MapRequested)
    ||| (from == BufferMapState::MapRequested && to == BufferMapState::MappedReady)
    ||| (from == BufferMapState::MappedReady && to == BufferMapState::ReadAndUnmapped)
}

/// A host-readable result buffer of `count` pixel records, tracked through
/// its map lifecycle. The device-side allocation lives outside the library,
/// keyed to this value's size.
pub struct DownloadBuffer {
    pub count: usize,
    pub state: BufferMapState,
}

/// One per-pixel result record: the raw bit patterns of the four 32-bit
/// channels, assembled little-endian from the mapped bytes.
#[derive(Clone, Copy, PartialEq, Eq, Structural, Debug)]
pub struct PixelRecord {
    pub x: u32,
    pub y: u32,
    pub z: u32,
    pub w: u32,
}

impl DownloadBuffer {
    /// A fresh, unmapped buffer for `count` records.
    pub fn new(count: usize) -> (r: DownloadBuffer)
        ensures
            r.count == count,
            r.state == BufferMapState::Unmapped,
    {
        DownloadBuffer { count, state: BufferMapState::Unmapped }
    }

    /// A fresh buffer holding one prediction record per texel of an image.
    pub fn new_for_predictions(extent: Extent3d) -> (r: DownloadBuffer)
        requires
            extent.width as int * extent.height as int <= usize::MAX,
        ensures
            r.count == extent.width as int * extent.height as int,
            r.state == BufferMapState::Unmapped,
    {
        DownloadBuffer {
            count: extent.width as usize * extent.height as usize,
            state: BufferMapState::Unmapped,
        }
    }

    /// The byte size of the device buffer backing this value.
    pub fn size_in_bytes(&self) -> (r: u64)
        requires
            self.count * 16 <= u64::MAX,
        ensures
            r == self.count * 16,
    {
        self.count as u64 * 16
    }

    /// Initiate the asynchronous map: consumes the unmapped buffer and
    /// yields the single-use guard that tracks the pending request.
    pub fn map_async(self) -> (r: DownloadGuard)
        requires
            self.state == BufferMapState::Unmapped,
        ensures
            r.dl_buffer.count == self.count,
            r.dl_buffer.state == BufferMapState::MapRequested,
            r.needs_unmapping,
            spec_next_state(self.state, r.dl_buffer.state),
    {
        DownloadGuard {
            dl_buffer: DownloadBuffer { count: self.count, state: BufferMapState::MapRequested },
            needs_unmapping: true,
        }
    }
}

/// The single-use capability produced by initiating a map. Reading consumes
/// it; an early release still yields exactly one unmap instruction, so the
/// buffer is never left mapped and never unmapped twice.
pub struct DownloadGuard {
    pub dl_buffer: DownloadBuffer,
    pub needs_unmapping: bool,
}

impl DownloadGuard {
    /// The platform's completion callback fired: the mapped range may now be
    /// read. Host reads before this step are ruled out by `readback`'s
    /// precondition.
    pub fn completion_signalled(&mut self)
        requires
            old(self).dl_buffer.state == BufferMapState::MapRequested,
        ensures
            final(self).dl_buffer.state == BufferMapState::MappedReady,
            final(self).dl_buffer.count == old(self).dl_buffer.count,
            final(self).needs_unmapping == old(self).needs_unmapping,
            spec_next_state(old(self).dl_buffer.state, final(self).dl_buffer.state),
    {
        self.dl_buffer.state = BufferMapState::MappedReady;
    }

    /// Consume the guard after the host copy: the returned flag instructs
    /// the caller to unmap now -- the one unmap of this cycle -- and the
    /// buffer comes back in its terminal state.
    pub fn readback(self) -> (r: (DownloadBuffer, bool))
        requires
            self.dl_buffer.state == BufferMapState::MappedReady,
            self.needs_unmapping,
        ensures
            r.0.count == self.dl_buffer.count,
            r.0.state == BufferMapState::ReadAndUnmapped,
            r.1,
            spec_next_state(self.dl_buffer.state, r.0.state),
    {
        (
            DownloadBuffer {
                count: self.dl_buffer.count,
                state: BufferMapState::ReadAndUnmapped,
            },
            true,
        )
    }

    /// Release the guard without reading: the returned flag instructs the
    /// caller to unmap exactly when the mapping was still active, so an
    /// early drop neither leaks a mapping nor unmaps twice.
    pub fn release(self) -> (do_unmap: bool)
        ensures
            do_unmap == self.needs_unmapping,
    {
        self.needs_unmapping
    }
}

/// The little-endian 32-bit word starting at byte `i`.
pub open spec fn spec_le_u32(s: Seq<u8>, i: int) -> int {
    s[i] + 256 * (s[i + 1] + 256 * (s[i + 2] + 256 * s[i + 3]))
}

/// The pixel record starting at byte `16 * k`.
pub open spec fn spec_record_at(s: Seq<u8>, k: int) -> PixelRecord {
    PixelRecord {
        x: spec_le_u32(s, 16 * k) as u32,
        y: spec_le_u32(s, 16 * k + 4) as u32,
        z: spec_le_u32(s, 16 * k + 8) as u32,
        w: spec_le_u32(s, 16 * k + 12) as u32,
    }
}

/// Reconstruct the host-owned record array from the mapped bytes: exactly
/// one record per 16 bytes, words assembled little-endian; any byte count
/// that is not a whole number of records is the execution error.
pub fn copy_bytes(source: &[u8]) -> (r: Result<Vec<PixelRecord>, ReadbackError>)
    ensures
        r is Ok <==> source@.len() % 16 == 0,
        r matches Ok(v) ==> v@.len() == source@.len() / 16 && forall|k: int|
            0 <= k < v@.len() ==> #[trigger] v@[k] == spec_record_at(source@, k),
        r matches Err(e) ==> e == (ReadbackError::UnexpectedByteCount {
            found: source@.len() as usize,
        }),
{
    if source.len() % 16 != 0 {
        return Err(ReadbackError::UnexpectedByteCount { found: source.len() });
    }
    let n = source.len() / 16;
    proof {
        assert(n * 16 == source@.len()) by (nonlinear_arith)
            requires
                n == source@.len() / 16,
                source@.len() % 16 == 0,
        ;
    }
    let mut out: Vec<PixelRecord> = Vec::new();
    let mut k: usize = 0;
    while k < n
        invariant
            k <= n,
            n == source@.len() / 16,
            n * 16 == source@.len(),
            source@.len() <= usize::MAX,
            source@.len() % 16 == 0,
            out@.len() == k,
            forall|q: int| 0 <= q < k ==> #[trigger] out@[q] == spec_record_at(source@, q),
        decreases n - k,
    {
        proof {
            assert(k * 16 + 16 <= n * 16) by (nonlinear_arith)
                requires
                    k < n,
            ;
        }
        let base = k * 16;
        let record = PixelRecord {
            x: le_u32(source, base),
            y: le_u32(source, base + 4),
            z: le_u32(source, base + 8),
            w: le_u32(source, base + 12),
        };
        out.push(record);
        k += 1;
    }
    Ok(out)
}

/// Assemble the little-endian 32-bit word at `i`.
fn le_u32(s: &[u8], i: usize) -> (r: u32)
    requires
        i + 4 <= s@.len(),
    ensures
        r == spec_le_u32(s@, i as int),
{
    s[i] as u32 + 256 * (s[i + 1] as u32 + 256 * (s[i + 2] as u32 + 256 * s[i + 3] as u32))
}

} // verus!

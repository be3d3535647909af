//! Device-addressable buffers and their storage-visibility model.
//!
//! A buffer is a contiguous memory region whose byte length is fixed at
//! creation.  Its storage mode never changes and decides which
//! synchronization path is legal:
//!
//! * `Shared`: host and device observe the same bytes, so a device write is
//!   host-visible as soon as the writing work completes.
//! * `Managed`: device and host keep separate copies.  A device write lands
//!   in the device-resident copy only; the host-visible copy stays stale
//!   until an explicit synchronization pass copies it back.
//!
//! The model keeps both copies, so staleness is a provable fact rather
//! than a convention.

use vstd::prelude::*;

use crate::codec::words_of_bytes;
use crate::kernel::{Device, GpuError};

verus! {

/// Whether host and device observe buffer writes immediately (`Shared`) or
/// only after an explicit synchronization pass (`Managed`).
#[derive(Clone, Copy, Debug, PartialEq, Eq, Structural)]
pub enum StorageMode {
    Shared,
    Managed,
}

/// The mathematical state of a buffer: its mode, the device-resident
/// bytes, and the host-visible bytes.
pub struct BufferView {
    pub mode: StorageMode,
    pub device: Seq<u8>,
    pub host: Seq<u8>,
}

impl BufferView {
    /// Both copies span the same region, and a shared-mode buffer has a
    /// single set of bytes.
    pub open spec fn wf(self) -> bool {
        &&& self.device.len() == self.host.len()
        &&& (self.mode is Shared ==> self.device == self.host)
    }

    /// The byte length fixed at creation.
    pub open spec fn byte_len(self) -> nat {
        self.device.len()
    }
}

/// The buffer state after the device writes `data` over the front of the
/// region: the device-resident copy changes, and the host-visible copy
/// follows only in shared mode.
pub open spec fn device_write_view(v: BufferView, data: Seq<u8>) -> BufferView {
    let written = data + v.device.skip(data.len() as int);
    BufferView {
        mode: v.mode,
        device: written,
        host: if v.mode is Shared {
            written
        } else {
            v.host
        },
    }
}

/// The buffer state after a synchronization pass: the host-visible copy
/// catches up with the device-resident one.
pub open spec fn synced_view(v: BufferView) -> BufferView {
    BufferView { mode: v.mode, device: v.device, host: v.device }
}

/// Memory-visibility law for managed buffers: a device write leaves the
/// host-visible copy stale, and the synchronization pass — and only it —
/// brings the written bytes into host view.
pub proof fn lemma_managed_visibility(v: BufferView, data: Seq<u8>)
    requires
        v.wf(),
        v.mode is Managed,
        data.len() <= v.byte_len(),
    ensures
        device_write_view(v, data).wf(),
        device_write_view(v, data).host == v.host,
        device_write_view(v, data).device.take(data.len() as int) == data,
        synced_view(device_write_view(v, data)).wf(),
        synced_view(device_write_view(v, data)).host == device_write_view(v, data).device,
{
    assert(device_write_view(v, data).device.len() == v.device.len());
    assert(device_write_view(v, data).device.take(data.len() as int) =~= data);
}

/// Memory-visibility law for shared buffers: a device write is in host
/// view at once, with no synchronization pass.
pub proof fn lemma_shared_visibility(v: BufferView, data: Seq<u8>)
    requires
        v.wf(),
        v.mode is Shared,
        data.len() <= v.byte_len(),
    ensures
        device_write_view(v, data).wf(),
        device_write_view(v, data).host == device_write_view(v, data).device,
        device_write_view(v, data).host.take(data.len() as int) == data,
{
    assert(device_write_view(v, data).device.len() == v.device.len());
    assert(device_write_view(v, data).host.take(data.len() as int) =~= data);
}

/// A contiguous device-addressable memory region.
pub struct Buffer {
    mode: StorageMode,
    device_bytes: Vec<u8>,
    host_bytes: Vec<u8>,
}

impl View for Buffer {
    type V = BufferView;

    closed spec fn view(&self) -> BufferView {
        BufferView { mode: self.mode, device: self.device_bytes@, host: self.host_bytes@ }
    }
}

impl Buffer {
    /// The buffer's byte length.
    pub fn length(&self) -> (r: usize)
        requires
            self@.wf(),
        ensures
            r == self@.byte_len(),
    {
        self.device_bytes.len()
    }

    /// The buffer's storage mode.
    pub fn storage_mode(&self) -> (r: StorageMode)
        ensures
            r == self@.mode,
    {
        self.mode
    }

    /// The host-visible bytes; for a managed buffer these may lag behind
    /// the device-resident copy until a synchronization pass.
    pub fn contents(&self) -> (r: &Vec<u8>)
        ensures
            r@ == self@.host,
    {
        &self.host_bytes
    }

    /// Reinterprets the host-visible bytes as `count` 32-bit words.
    ///
    /// Fails with `SizeMismatch` exactly when the request asks for more
    /// words than the byte length holds.  A pure host read with no device
    /// interaction: it is meaningful only after the work that wrote the
    /// buffer has completed and, for a managed buffer, after the
    /// synchronization pass.
    pub fn read(&self, count: usize) -> (r: Result<Vec<u32>, GpuError>)
        requires
            self@.wf(),
        ensures
            r is Ok <==> 4 * count <= self@.byte_len(),
            r matches Ok(ws) ==> ws@.len() == count
                && (forall|i: int| 0 <= i < count ==> ws@[i] == words_of_bytes(self@.host)[i]),
            r matches Err(e) ==> e is SizeMismatch,
    {
        let len = self.host_bytes.len();
        if count > len / 4 {
            proof {
                assert(4 * count > len) by (nonlinear_arith)
                    requires
                        count > len / 4,
                        len >= 0,
                ;
            }
            Err(GpuError::SizeMismatch)
        } else {
            proof {
                assert(4 * count <= len) by (nonlinear_arith)
                    requires
                        count <= len / 4,
                        len >= 0,
                ;
            }
            Ok(crate::codec::decode_words(&self.host_bytes, count))
        }
    }

    /// The device-resident bytes, readable only by the dispatch layer
    /// itself: host code observes a buffer through `contents` and `read`.
    pub(crate) fn device_contents(&self) -> (r: &Vec<u8>)
        ensures
            r@ == self@.device,
    {
        &self.device_bytes
    }

    /// Applies a device write to the front of the region, as the model of
    /// what a dispatched kernel stores.
    pub(crate) fn device_write(&mut self, data: &Vec<u8>)
        requires
            old(self)@.wf(),
            data@.len() <= old(self)@.byte_len(),
        ensures
            final(self)@ == device_write_view(old(self)@, data@),
            final(self)@.wf(),
    {
        let mut written: Vec<u8> = Vec::new();
        let mut i: usize = 0;
        let dlen = data.len();
        while i < dlen
            invariant
                i <= dlen,
                dlen == data@.len(),
                written@ =~= data@.take(i as int),
            decreases dlen - i,
        {
            written.push(data[i]);
            i = i + 1;
        }
        let total = self.device_bytes.len();
        let mut j: usize = dlen;
        while j < total
            invariant
                dlen <= j <= total,
                total == self.device_bytes@.len(),
                dlen == data@.len(),
                written@ =~= data@ + self.device_bytes@.subrange(dlen as int, j as int),
            decreases total - j,
        {
            let b = self.device_bytes[j];
            written.push(b);
            proof {
                assert(written@ =~= data@ + self.device_bytes@.subrange(dlen as int, j + 1));
            }
            j = j + 1;
        }
        proof {
            assert(written@ =~= data@ + self.device_bytes@.skip(dlen as int));
        }
        let is_shared = match self.mode {
            StorageMode::Shared => true,
            StorageMode::Managed => false,
        };
        if is_shared {
            self.host_bytes = clone_bytes(&written);
        }
        self.device_bytes = written;
    }

    /// Copies the device-resident bytes back into host view; the model of
    /// a completed synchronization pass.
    pub(crate) fn copy_device_to_host(&mut self)
        requires
            old(self)@.wf(),
        ensures
            final(self)@ == synced_view(old(self)@),
            final(self)@.wf(),
    {
        self.host_bytes = clone_bytes(&self.device_bytes);
    }
}

/// A byte-for-byte copy of a vector.
fn clone_bytes(v: &Vec<u8>) -> (r: Vec<u8>)
    ensures
        r@ == v@,
{
    let mut out: Vec<u8> = Vec::new();
    let mut i: usize = 0;
    let len = v.len();
    while i < len
        invariant
            i <= len,
            len == v@.len(),
            out@ =~= v@.take(i as int),
        decreases len - i,
    {
        out.push(v[i]);
        i = i + 1;
    }
    proof {
        assert(out@ =~= v@);
    }
    out
}

/// Allocates a zero-initialized buffer of `byte_length` bytes.
pub fn new_buffer(device: &Device, byte_length: usize, mode: StorageMode) -> (r: Buffer)
    ensures
        r@.wf(),
        r@.mode == mode,
        r@.byte_len() == byte_length,
        r@.device == Seq::new(byte_length as nat, |i: int| 0u8),
        r@.host == r@.device,
{
    let zeros: Vec<u8> = vec![0u8; byte_length];
    proof {
        assert(zeros@ =~= Seq::new(byte_length as nat, |i: int| 0u8));
    }
    let host = clone_bytes(&zeros);
    Buffer { mode, device_bytes: zeros, host_bytes: host }
}

/// Allocates a buffer holding the first `byte_length` bytes of `data`.
///
/// The caller owes `byte_length` not exceeding the source's size; both
/// copies start equal, whatever the mode.
pub fn new_buffer_with_data(device: &Device, data: &Vec<u8>, byte_length: usize, mode: StorageMode) -> (r: Buffer)
    requires
        byte_length <= data@.len(),
    ensures
        r@.wf(),
        r@.mode == mode,
        r@.byte_len() == byte_length,
        r@.device == data@.take(byte_length as int),
        r@.host == r@.device,
{
    let mut copied: Vec<u8> = Vec::new();
    let mut i: usize = 0;
    while i < byte_length
        invariant
            i <= byte_length,
            byte_length <= data@.len(),
            copied@ =~= data@.take(i as int),
        decreases byte_length - i,
    {
        copied.push(data[i]);
        i = i + 1;
    }
    let host = clone_bytes(&copied);
    Buffer { mode, device_bytes: copied, host_bytes: host }
}

} // verus!

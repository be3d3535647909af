//! Kernel archive loading and pipeline construction.
//!
//! A precompiled kernel archive is an opaque byte blob.  The model checks
//! only the archive container's leading magic bytes and exposes the fixed
//! set of kernel entry points that the bundled archives provide: an
//! elementwise product over two word vectors, a square matrix product, and
//! an in-place fill used to exercise memory visibility.
//!
//! A pipeline is the dispatch-ready form of one entry.  It carries the two
//! hardware-derived limits that dispatch sizing depends on: the preferred
//! execution width (SIMD lane count) and the maximum number of threads one
//! execution group may hold.

use vstd::prelude::*;
use vstd::string::StrSliceExecFns;

verus! {

/// Every failure the dispatch layer can report.
///
/// Each failure surfaces immediately to the operation's caller; none is
/// silently swallowed or retried.
#[derive(Clone, Copy, Debug, PartialEq, Eq, Structural)]
pub enum GpuError {
    /// The byte blob is not a valid compiled-kernel archive.
    LoadError,
    /// The requested kernel name is absent from the archive.
    EntryNotFound,
    /// A kernel entry's signature is incompatible with the device.
    PipelineBuildError,
    /// The problem size exceeds the pipeline's maximum threads per group
    /// under the one-group-covers-all dispatch policy.
    GridSizeError,
    /// A host read requested more elements than the buffer holds.
    SizeMismatch,
}

/// The kernel entry points exposed by the bundled archives.
#[derive(Clone, Copy, Debug, PartialEq, Eq, Structural)]
pub enum KernelEntry {
    /// Writes the elementwise product of two word vectors, one lane per
    /// element.
    DotProduct,
    /// Writes the product of two square matrices, one lane per output
    /// element.
    MulMatrices,
    /// Overwrites a buffer in place with each lane's own index.
    Assign,
}

/// The execution limits a device reports for its pipelines.
#[derive(Clone, Copy, Debug, PartialEq, Eq, Structural)]
pub struct DeviceLimits {
    /// Preferred SIMD lane count.
    pub execution_width: u64,
    /// Largest number of threads one execution group may hold.
    pub max_threads_per_group: u64,
}

impl DeviceLimits {
    /// Hardware reports a positive execution width no larger than the
    /// group capacity.
    pub open spec fn wf(self) -> bool {
        1 <= self.execution_width <= self.max_threads_per_group
    }
}

/// The compute-capable hardware unit; selected once and threaded through
/// every component explicitly.
#[derive(Clone, Copy, Debug, PartialEq, Eq, Structural)]
pub struct Device {
    pub limits: DeviceLimits,
}

impl Device {
    /// Selects a device with the given execution limits, or nothing when
    /// the limits are not ones hardware could report.
    pub fn with_limits(execution_width: u64, max_threads_per_group: u64) -> (r: Option<Device>)
        ensures
            r matches Some(d) ==> d.limits == (DeviceLimits { execution_width, max_threads_per_group })
                && d.limits.wf(),
            r is Some <==> 1 <= execution_width <= max_threads_per_group,
    {
        if 1 <= execution_width && execution_width <= max_threads_per_group {
            Some(Device { limits: DeviceLimits { execution_width, max_threads_per_group } })
        } else {
            None
        }
    }
}

/// A compiled-kernel archive opens with these four magic bytes.
pub open spec fn is_valid_archive(blob: Seq<u8>) -> bool {
    &&& blob.len() >= 4
    &&& blob[0] == 0x4du8
    &&& blob[1] == 0x54u8
    &&& blob[2] == 0x4cu8
    &&& blob[3] == 0x42u8
}

/// The kernel archive bundled with the library: the smallest blob the
/// loader accepts, standing in for the precompiled kernels.
pub fn bundled_kernel_archive() -> (r: Vec<u8>)
    ensures
        is_valid_archive(r@),
{
    let mut blob: Vec<u8> = Vec::new();
    blob.push(0x4d);
    blob.push(0x54);
    blob.push(0x4c);
    blob.push(0x42);
    blob
}

/// An immutable mapping from kernel name to entry point, built once from
/// an archive blob.
pub struct KernelLibrary {
    entry_count: usize,
}

/// Character-for-character equality of two string slices.
fn str_chars_equal(a: &str, b: &str) -> (r: bool)
    ensures
        r == (a@ == b@),
{
    let a_len = a.unicode_len();
    let b_len = b.unicode_len();
    if a_len != b_len {
        return false;
    }
    let mut i: usize = 0;
    while i < a_len
        invariant
            i <= a_len,
            a_len == a@.len(),
            a_len == b@.len(),
            forall|j: int| 0 <= j < i ==> a@[j] == b@[j],
        decreases a_len - i,
    {
        if a.get_char(i) != b.get_char(i) {
            return false;
        }
        i = i + 1;
    }
    proof {
        assert(a@ =~= b@);
    }
    true
}

impl KernelLibrary {
    /// Registers an archive's kernels with the device, failing on a blob
    /// that is not a valid archive.
    pub fn load(device: &Device, blob: &Vec<u8>) -> (r: Result<KernelLibrary, GpuError>)
        ensures
            r is Ok <==> is_valid_archive(blob@),
            r matches Err(e) ==> e is LoadError,
    {
        if blob.len() >= 4 && blob[0] == 0x4d && blob[1] == 0x54 && blob[2] == 0x4c && blob[3] == 0x42 {
            Ok(KernelLibrary { entry_count: 3 })
        } else {
            Err(GpuError::LoadError)
        }
    }

    /// Resolves a kernel name to its entry point; an absent name is a
    /// fast-failing programmer error.
    pub fn get_function(&self, name: &str) -> (r: Result<KernelEntry, GpuError>)
        ensures
            r == (if name@ == "dot_product"@ {
                Ok::<KernelEntry, GpuError>(KernelEntry::DotProduct)
            } else if name@ == "mul_matrices"@ {
                Ok::<KernelEntry, GpuError>(KernelEntry::MulMatrices)
            } else if name@ == "assign"@ {
                Ok::<KernelEntry, GpuError>(KernelEntry::Assign)
            } else {
                Err::<KernelEntry, GpuError>(GpuError::EntryNotFound)
            }),
    {
        if str_chars_equal(name, "dot_product") {
            Ok(KernelEntry::DotProduct)
        } else if str_chars_equal(name, "mul_matrices") {
            Ok(KernelEntry::MulMatrices)
        } else if str_chars_equal(name, "assign") {
            Ok(KernelEntry::Assign)
        } else {
            Err(GpuError::EntryNotFound)
        }
    }
}

/// The dispatch-ready form of exactly one kernel entry, bound to a device.
///
/// Both limits are pipeline-specific and must be queried fresh per
/// pipeline; neither changes after construction.
pub struct Pipeline {
    pub entry: KernelEntry,
    pub execution_width: u64,
    pub max_threads_per_group: u64,
}

impl Pipeline {
    /// A pipeline carries limits hardware could report.
    pub open spec fn wf(self) -> bool {
        1 <= self.execution_width <= self.max_threads_per_group
    }

    /// The device's preferred SIMD lane count for this pipeline.
    pub fn thread_execution_width(&self) -> (r: u64)
        ensures
            r == self.execution_width,
    {
        self.execution_width
    }

    /// The largest number of threads one execution group of this pipeline
    /// may hold.
    pub fn max_total_threads_per_threadgroup(&self) -> (r: u64)
        ensures
            r == self.max_threads_per_group,
    {
        self.max_threads_per_group
    }
}

/// Links one kernel entry into a dispatch-ready pipeline.
///
/// Linking is expensive on a real device, so callers build pipelines
/// outside latency-sensitive loops.  Every entry of the bundled archives is
/// signature-compatible with every device of this model, so the build never
/// reports `PipelineBuildError`; the variant remains for callers that must
/// speak about the failure.
pub fn new_compute_pipeline(device: &Device, entry: KernelEntry) -> (r: Result<Pipeline, GpuError>)
    requires
        device.limits.wf(),
    ensures
        r is Ok,
        r matches Ok(p) ==> p == (Pipeline {
            entry,
            execution_width: device.limits.execution_width,
            max_threads_per_group: device.limits.max_threads_per_group,
        }) && p.wf(),
{
    Ok(Pipeline {
        entry,
        execution_width: device.limits.execution_width,
        max_threads_per_group: device.limits.max_threads_per_group,
    })
}

} // verus!

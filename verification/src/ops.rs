//! The three complete operations, each running the full pipeline: load
//! the kernel archive, build a pipeline, allocate buffers, size and record
//! the dispatch, submit, await completion, and read the result back.
//!
//! Pipelines and queues are reusable across operations; buffers are
//! allocated fresh per operation.

use vstd::prelude::*;

use crate::buffer::{StorageMode, device_write_view, new_buffer, new_buffer_with_data, synced_view};
use crate::codec::{
    bytes_of_words, encode_words, lemma_words_bytes_roundtrip, words_of_bytes,
};
use crate::dispatch::{
    CommandQueue, Dim3, fill_words, lane_products, matrix_product_words, new_command_queue,
    record_dispatch, wrapped_mul,
};
use crate::kernel::{
    Device, GpuError, KernelLibrary, Pipeline, bundled_kernel_archive, new_compute_pipeline,
};
use crate::matrix::Matrix;

verus! {

/// The reusable dispatch context for an operation: the device, a command
/// queue on it, and the pipeline the operation dispatches.
pub struct ComputeState {
    pub device: Device,
    pub queue: CommandQueue,
    pub pipeline: Pipeline,
}

/// Computes the elementwise product of two equal-length word vectors on
/// the device, one lane per element, with 32-bit wraparound.
///
/// The whole problem runs as a single execution group, so a vector longer
/// than the pipeline's per-group thread limit fails with `GridSizeError`
/// rather than being clipped; within the limit the full product vector is
/// owed.
pub fn dotprod(device: &Device, v: &Vec<u32>, w: &Vec<u32>) -> (r: Result<Vec<u32>, GpuError>)
    requires
        device.limits.wf(),
        v@.len() == w@.len(),
        1 <= v@.len(),
        4 * v@.len() <= usize::MAX,
    ensures
        r is Ok <==> v@.len() <= device.limits.max_threads_per_group,
        r matches Ok(out) ==> out@.len() == v@.len() && (forall|i: int|
            0 <= i < v@.len() ==> out@[i] == wrapped_mul(v@[i], w@[i])),
        r matches Err(e) ==> e is GridSizeError,
{
    let archive = bundled_kernel_archive();
    let lib = match KernelLibrary::load(device, &archive) {
        Ok(l) => l,
        Err(e) => {
            proof {
                assert(false);
            }
            return Err(e);
        },
    };
    let entry = match lib.get_function("dot_product") {
        Ok(en) => en,
        Err(e) => {
            proof {
                assert(false);
            }
            return Err(e);
        },
    };
    let pipeline = match new_compute_pipeline(device, entry) {
        Ok(p) => p,
        Err(e) => {
            proof {
                assert(false);
            }
            return Err(e);
        },
    };
    let n = v.len();
    let size = 4 * n;
    let bytes_v = encode_words(v);
    let bytes_w = encode_words(w);
    proof {
        assert(bytes_v@.take(size as int) =~= bytes_v@);
        assert(bytes_w@.take(size as int) =~= bytes_w@);
    }
    let buffer_a = new_buffer_with_data(device, &bytes_v, size, StorageMode::Shared);
    let buffer_b = new_buffer_with_data(device, &bytes_w, size, StorageMode::Shared);
    let mut buffer_result = new_buffer(device, size, StorageMode::Shared);
    let mut queue = new_command_queue(device);
    let n64 = n as u64;
    let grid = Dim3::new(n64, 1, 1);
    let group = Dim3::new(n64, 1, 1);
    proof {
        assert(group.volume() == n64) by (nonlinear_arith)
            requires
                group.x == n64 && group.y == 1 && group.z == 1,
        ;
    }
    let d = match record_dispatch(&pipeline, grid, group) {
        Ok(d) => d,
        Err(e) => {
            return Err(e);
        },
    };
    let ghost products = lane_products(v@, w@, n as nat);
    let ghost out_view_before = buffer_result@;
    let mut token = queue.submit_elementwise_product(&d, &buffer_a, &buffer_b, &mut buffer_result);
    token.wait();
    proof {
        lemma_words_bytes_roundtrip(v@);
        lemma_words_bytes_roundtrip(w@);
        assert(words_of_bytes(buffer_a@.device) == v@);
        assert(words_of_bytes(buffer_b@.device) == w@);
        let data = bytes_of_words(products);
        assert(buffer_result@ == device_write_view(out_view_before, data));
        assert(buffer_result@.device =~= data);
        assert(buffer_result@.host == buffer_result@.device);
        lemma_words_bytes_roundtrip(products);
    }
    let out = match buffer_result.read(n) {
        Ok(o) => o,
        Err(e) => {
            proof {
                assert(false);
            }
            return Err(e);
        },
    };
    proof {
        assert(forall|i: int| 0 <= i < n ==> out@[i] == products[i]);
    }
    Ok(out)
}

/// Computes the product of two square matrices of the same order on the
/// device.
///
/// The grid covers one lane per output element, while the group packs the
/// pipeline's execution width along the row axis and as many rows as fit
/// under the per-group thread limit — so the group never exceeds the
/// limit and the dispatch always goes through, whatever the order.
pub fn prod(ma: &Matrix, mb: &Matrix, state: &mut ComputeState) -> (r: Result<Vec<u32>, GpuError>)
    requires
        old(state).pipeline.wf(),
        old(state).pipeline.entry is MulMatrices,
        ma.wf(),
        mb.wf(),
        ma.rows == ma.cols,
        mb.rows == mb.cols,
        ma.rows == mb.rows,
        1 <= ma.rows,
        4 * ma.rows * ma.rows <= usize::MAX,
    ensures
        r is Ok,
        r matches Ok(out) ==> out@ == matrix_product_words(
            ma.entries@,
            mb.entries@,
            ma.rows as nat,
        ),
        final(state).device == old(state).device,
        final(state).pipeline == old(state).pipeline,
{
    let n = ma.rows;
    proof {
        assert(ma.entries@.len() == n * n && mb.entries@.len() == n * n);
        assert(4 * (n * n) == 4 * n * n) by (nonlinear_arith);
    }
    let size = ma.sizeof_entries();
    let bytes_a = encode_words(&ma.entries);
    let bytes_b = encode_words(&mb.entries);
    proof {
        assert(bytes_a@.take(size as int) =~= bytes_a@);
        assert(bytes_b@.take(size as int) =~= bytes_b@);
    }
    let buffer_a = new_buffer_with_data(&state.device, &bytes_a, size, StorageMode::Shared);
    let buffer_b = new_buffer_with_data(&state.device, &bytes_b, size, StorageMode::Shared);
    let mut buffer_result = new_buffer(&state.device, size, StorageMode::Shared);
    let n64 = n as u64;
    let width = state.pipeline.thread_execution_width();
    let max_threads = state.pipeline.max_total_threads_per_threadgroup();
    let height = max_threads / width;
    let grid = Dim3::new(n64, n64, 1);
    let group = Dim3::new(width, height, 1);
    proof {
        assert(1 <= group.volume() <= max_threads) by (nonlinear_arith)
            requires
                group.x == width && group.y == height && group.z == 1,
                height == max_threads as int / width as int,
                1 <= width <= max_threads,
        ;
    }
    let d = match record_dispatch(&state.pipeline, grid, group) {
        Ok(d) => d,
        Err(e) => {
            proof {
                assert(false);
            }
            return Err(e);
        },
    };
    let ghost entry_words = matrix_product_words(ma.entries@, mb.entries@, n as nat);
    let ghost out_view_before = buffer_result@;
    proof {
        assert(4 * d.grid.x * d.grid.x <= buffer_a@.byte_len()) by (nonlinear_arith)
            requires
                d.grid.x == n64,
                n64 == n,
                buffer_a@.byte_len() == 4 * (n * n),
        ;
        assert(4 * d.grid.x * d.grid.x <= buffer_b@.byte_len()) by (nonlinear_arith)
            requires
                d.grid.x == n64,
                n64 == n,
                buffer_b@.byte_len() == 4 * (n * n),
        ;
        assert(4 * d.grid.x * d.grid.x <= buffer_result@.byte_len()) by (nonlinear_arith)
            requires
                d.grid.x == n64,
                n64 == n,
                buffer_result@.byte_len() == 4 * (n * n),
        ;
    }
    let mut token = state.queue.submit_matrix_product(&d, &buffer_a, &buffer_b, &mut buffer_result);
    token.wait();
    proof {
        lemma_words_bytes_roundtrip(ma.entries@);
        lemma_words_bytes_roundtrip(mb.entries@);
        assert(words_of_bytes(buffer_a@.device) == ma.entries@);
        assert(words_of_bytes(buffer_b@.device) == mb.entries@);
        let data = bytes_of_words(entry_words);
        assert(entry_words.len() == (n * n) as nat);
        assert(buffer_result@ == device_write_view(out_view_before, data));
        assert(buffer_result@.device =~= data);
        assert(buffer_result@.host == buffer_result@.device);
        lemma_words_bytes_roundtrip(entry_words);
    }
    let count = n * n;
    let out = match buffer_result.read(count) {
        Ok(o) => o,
        Err(e) => {
            proof {
                assert(false);
            }
            return Err(e);
        },
    };
    proof {
        assert(forall|i: int| 0 <= i < count ==> out@[i] == entry_words[i]);
        assert(out@ =~= entry_words);
    }
    Ok(out)
}

/// The element count of the memory-visibility exercise's buffer.
pub const FILL_LENGTH: usize = 1024;

/// What the memory-visibility exercise observed: the host view of the
/// managed buffer before the synchronization pass, and after it.
pub struct FillOutcome {
    pub before_sync: Vec<u32>,
    pub after_sync: Vec<u32>,
}

/// Runs the fill kernel over a managed buffer of `FILL_LENGTH` words and
/// reads the host view both before and after the synchronization pass.
///
/// The device write is invisible to the host until the pass runs: the
/// first read still sees the zeros the buffer was created with, and only
/// the second sees each lane's index.  The whole problem runs as one
/// execution group, so a device whose per-group limit is smaller than
/// `FILL_LENGTH` fails with `GridSizeError`.
pub fn fill_exercise(device: &Device) -> (r: Result<FillOutcome, GpuError>)
    requires
        device.limits.wf(),
    ensures
        r is Ok <==> FILL_LENGTH <= device.limits.max_threads_per_group,
        r matches Ok(o) ==> o.before_sync@ == Seq::new(FILL_LENGTH as nat, |i: int| 0u32)
            && o.after_sync@ == fill_words(FILL_LENGTH as nat),
        r matches Err(e) ==> e is GridSizeError,
{
    let archive = bundled_kernel_archive();
    let lib = match KernelLibrary::load(device, &archive) {
        Ok(l) => l,
        Err(e) => {
            proof {
                assert(false);
            }
            return Err(e);
        },
    };
    proof {
        reveal_strlit("assign");
        reveal_strlit("dot_product");
        reveal_strlit("mul_matrices");
        assert("assign"@.len() == 6 && "dot_product"@.len() == 11 && "mul_matrices"@.len() == 12);
    }
    let entry = match lib.get_function("assign") {
        Ok(en) => en,
        Err(e) => {
            proof {
                assert(false);
            }
            return Err(e);
        },
    };
    let pipeline = match new_compute_pipeline(device, entry) {
        Ok(p) => p,
        Err(e) => {
            proof {
                assert(false);
            }
            return Err(e);
        },
    };
    let data: Vec<u32> = vec![0u32; FILL_LENGTH];
    proof {
        assert(data@ =~= Seq::new(FILL_LENGTH as nat, |i: int| 0u32));
    }
    let bytes = encode_words(&data);
    let size = 4 * FILL_LENGTH;
    proof {
        assert(bytes@.take(size as int) =~= bytes@);
    }
    let mut buffer = new_buffer_with_data(device, &bytes, size, StorageMode::Managed);
    let mut queue = new_command_queue(device);
    let grid = Dim3::new(FILL_LENGTH as u64, 1, 1);
    let group = Dim3::new(FILL_LENGTH as u64, 1, 1);
    proof {
        assert(group.volume() == FILL_LENGTH) by (nonlinear_arith)
            requires
                group.x == FILL_LENGTH && group.y == 1 && group.z == 1,
        ;
    }
    let d = match record_dispatch(&pipeline, grid, group) {
        Ok(d) => d,
        Err(e) => {
            return Err(e);
        },
    };
    let ghost view_created = buffer@;
    let mut token = queue.submit_fill(&d, &mut buffer);
    token.wait();
    proof {
        let written = bytes_of_words(fill_words(FILL_LENGTH as nat));
        assert(buffer@ == device_write_view(view_created, written));
        assert(buffer@.host == view_created.host);
        assert(buffer@.host =~= bytes@);
        lemma_words_bytes_roundtrip(data@);
    }
    let before_sync = match buffer.read(FILL_LENGTH) {
        Ok(o) => o,
        Err(e) => {
            proof {
                assert(false);
            }
            return Err(e);
        },
    };
    proof {
        assert(before_sync@ =~= data@);
    }
    let ghost view_written = buffer@;
    let mut sync_token = queue.synchronize(&mut buffer);
    sync_token.wait();
    proof {
        let written = bytes_of_words(fill_words(FILL_LENGTH as nat));
        assert(buffer@ == synced_view(view_written));
        assert(buffer@.host =~= written);
        lemma_words_bytes_roundtrip(fill_words(FILL_LENGTH as nat));
    }
    let after_sync = match buffer.read(FILL_LENGTH) {
        Ok(o) => o,
        Err(e) => {
            proof {
                assert(false);
            }
            return Err(e);
        },
    };
    proof {
        assert(after_sync@ =~= fill_words(FILL_LENGTH as nat));
    }
    Ok(FillOutcome { before_sync, after_sync })
}

} // verus!

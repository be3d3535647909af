//! Dispatch recording, grid sizing, and submission.
//!
//! A dispatch binds one pipeline to grid dimensions (total thread counts
//! per axis) and group dimensions (threads per execution group).  Dispatch
//! is thread-granular: the grid counts threads, not groups, so the two are
//! sized independently.  Recording validates the group against the
//! pipeline's hardware limit and fails with `GridSizeError` rather than
//! silently truncating.
//!
//! Submission onto a command queue applies the kernel's effect to the
//! output buffer's device-resident copy; whether the host sees the write
//! immediately is the buffer's storage mode's affair (see `crate::buffer`).
//! Each submission yields a completion token; work submitted to one queue
//! completes in submission order, so waiting on a token also waits for
//! everything submitted before it on the same queue.

use vstd::prelude::*;
use vstd::arithmetic::div_mod::lemma_add_mod_noop;

use crate::buffer::{Buffer, device_write_view, synced_view};
use crate::codec::{bytes_of_words, words_of_bytes, encode_words, decode_words};
use crate::kernel::{Device, GpuError, Pipeline};

verus! {

/// Thread counts along the three axes of a grid or a group.
#[derive(Clone, Copy, Debug, PartialEq, Eq, Structural)]
pub struct Dim3 {
    pub x: u64,
    pub y: u64,
    pub z: u64,
}

impl Dim3 {
    pub fn new(x: u64, y: u64, z: u64) -> (r: Dim3)
        ensures
            r == (Dim3 { x, y, z }),
    {
        Dim3 { x, y, z }
    }

    /// The number of threads the dimensions span.
    pub open spec fn volume(self) -> int {
        self.x * self.y * self.z
    }
}

/// One recorded unit of work: a kernel entry with its grid and group
/// dimensions, validated against the pipeline it was recorded for.
pub struct Dispatch {
    pub entry: crate::kernel::KernelEntry,
    pub grid: Dim3,
    pub group: Dim3,
}

/// Records a dispatch of `pipeline` over `grid` total threads in groups
/// of `group` threads.
///
/// Fails with `GridSizeError` exactly when the group holds more threads
/// than the pipeline's per-group maximum; an oversized problem is never
/// silently clipped.
pub fn record_dispatch(pipeline: &Pipeline, grid: Dim3, group: Dim3) -> (r: Result<Dispatch, GpuError>)
    requires
        pipeline.wf(),
        1 <= group.volume(),
    ensures
        r is Ok <==> group.volume() <= pipeline.max_threads_per_group,
        r matches Ok(d) ==> d.entry == pipeline.entry && d.grid == grid && d.group == group,
        r matches Err(e) ==> e is GridSizeError,
{
    proof {
        assert(group.x >= 1 && group.y >= 1 && group.z >= 1) by (nonlinear_arith)
            requires
                1 <= group.x * group.y * group.z,
        ;
    }
    match group.x.checked_mul(group.y) {
        None => {
            proof {
                assert(group.x * group.y * group.z > u64::MAX) by (nonlinear_arith)
                    requires
                        group.x * group.y > u64::MAX,
                        group.z >= 1,
                ;
            }
            Err(GpuError::GridSizeError)
        },
        Some(xy) => {
            match xy.checked_mul(group.z) {
                None => {
                    proof {
                        assert(group.x * group.y * group.z > u64::MAX) by (nonlinear_arith)
                            requires
                                xy == group.x * group.y,
                                xy * group.z > u64::MAX,
                        ;
                    }
                    Err(GpuError::GridSizeError)
                },
                Some(vol) => {
                    proof {
                        assert(vol == group.volume()) by (nonlinear_arith)
                            requires
                                xy == group.x * group.y,
                                vol == xy * group.z,
                        ;
                    }
                    if vol <= pipeline.max_threads_per_group {
                        Ok(Dispatch { entry: pipeline.entry, grid, group })
                    } else {
                        Err(GpuError::GridSizeError)
                    }
                },
            }
        },
    }
}

/// What one lane of the elementwise-product kernel stores: the two input
/// words at its index, multiplied with 32-bit wraparound.
pub open spec fn wrapped_mul(a: u32, b: u32) -> u32 {
    ((a * b) % 0x1_0000_0000) as u32
}

/// The words the elementwise-product kernel writes over `n` lanes.
pub open spec fn lane_products(a: Seq<u32>, b: Seq<u32>, n: nat) -> Seq<u32> {
    Seq::new(n, |i: int| wrapped_mul(a[i], b[i]))
}

/// The sum of the first `k` products of row `row` of `a` with column
/// `col` of `b`, both square of order `n`, as an unbounded integer.
pub open spec fn row_col_sum(a: Seq<u32>, b: Seq<u32>, n: nat, row: int, col: int, k: nat) -> int
    decreases k,
{
    if k == 0 {
        0
    } else {
        row_col_sum(a, b, n, row, col, (k - 1) as nat)
            + a[row * n + (k - 1)] * b[(k - 1) * n + col]
    }
}

/// One output element of the matrix-product kernel, with 32-bit
/// wraparound over the accumulated sum.
pub open spec fn matrix_product_entry(a: Seq<u32>, b: Seq<u32>, n: nat, row: int, col: int) -> u32 {
    (row_col_sum(a, b, n, row, col, n) % 0x1_0000_0000) as u32
}

/// The words the matrix-product kernel writes: row-major, one element per
/// lane of an `n` by `n` grid.
pub open spec fn matrix_product_words(a: Seq<u32>, b: Seq<u32>, n: nat) -> Seq<u32> {
    Seq::new(n * n, |i: int| matrix_product_entry(a, b, n, i / n as int, i % n as int))
}

/// The sum of `k` constant products is `k` times the product.
proof fn lemma_constant_row_col_sum(
    a: Seq<u32>,
    b: Seq<u32>,
    x: u32,
    y: u32,
    n: nat,
    row: int,
    col: int,
    k: nat,
)
    requires
        a.len() == n * n,
        b.len() == n * n,
        forall|i: int| 0 <= i < n * n ==> a[i] == x,
        forall|i: int| 0 <= i < n * n ==> b[i] == y,
        0 <= row < n,
        0 <= col < n,
        k <= n,
    ensures
        row_col_sum(a, b, n, row, col, k) == k * (x * y),
    decreases k,
{
    if k == 0 {
        assert(0 * (x as int * y as int) == 0) by (nonlinear_arith);
    } else {
        lemma_constant_row_col_sum(a, b, x, y, n, row, col, (k - 1) as nat);
        assert(row * n + (k - 1) < n * n && 0 <= row * n + (k - 1)) by (nonlinear_arith)
            requires
                0 <= row < n,
                1 <= k <= n,
        ;
        assert((k - 1) * n + col < n * n && 0 <= (k - 1) * n + col) by (nonlinear_arith)
            requires
                0 <= col < n,
                1 <= k <= n,
        ;
        assert(a[row * n + (k - 1)] == x && b[(k - 1) * n + col] == y);
        assert((k - 1) * (x as int * y as int) + x as int * y as int == k * (x as int * y as int))
            by (nonlinear_arith);
    }
}

/// Law of constant matrices: when every element of `a` holds `x` and
/// every element of `b` holds `y`, every element of their order-`n`
/// product holds `n * x * y`, with 32-bit wraparound.
pub proof fn lemma_constant_matrix_product(a: Seq<u32>, b: Seq<u32>, x: u32, y: u32, n: nat)
    requires
        a.len() == n * n,
        b.len() == n * n,
        forall|i: int| 0 <= i < n * n ==> a[i] == x,
        forall|i: int| 0 <= i < n * n ==> b[i] == y,
    ensures
        forall|i: int| 0 <= i < n * n ==> matrix_product_words(a, b, n)[i] == (((n * (x * y))
            % 0x1_0000_0000) as u32),
{
    assert forall|i: int| 0 <= i < n * n implies matrix_product_words(a, b, n)[i] == (((n * (x
        * y)) % 0x1_0000_0000) as u32) by {
        let row = i / n as int;
        let col = i % n as int;
        assert(1 <= n) by (nonlinear_arith)
            requires
                0 <= i < n * n,
        ;
        assert(0 <= row < n && 0 <= col < n) by (nonlinear_arith)
            requires
                1 <= n,
                0 <= i < n * n,
                row == i / n as int,
                col == i % n as int,
        ;
        lemma_constant_row_col_sum(a, b, x, y, n, row, col, n);
        assert(matrix_product_words(a, b, n)[i] == matrix_product_entry(a, b, n, row, col));
    }
}

/// The words the fill kernel writes: each lane stores its own index,
/// truncated to 32 bits.
pub open spec fn fill_words(n: nat) -> Seq<u32> {
    Seq::new(n, |i: int| (i % 0x1_0000_0000) as u32)
}

/// A handle for one submitted command buffer: pending until awaited, with
/// its position in the queue's submission order.
pub struct CompletionToken {
    completed: bool,
    position: Ghost<nat>,
}

impl CompletionToken {
    /// Whether the submitted work has been observed complete.
    pub closed spec fn resolved(&self) -> bool {
        self.completed
    }

    /// The token's place in its queue's submission order.
    pub closed spec fn position(&self) -> nat {
        self.position@
    }

    /// Blocks until the device signals completion of the submitted work.
    ///
    /// Queues execute in FIFO order, so resolution of this token also
    /// means completion of everything submitted before it on its queue.
    pub fn wait(&mut self)
        ensures
            final(self).resolved(),
            final(self).position() == old(self).position(),
    {
        self.completed = true;
    }
}

/// An ordered channel of submitted work to one device; reusable across
/// many dispatches, executing in submission order.
pub struct CommandQueue {
    submitted: Ghost<nat>,
}

/// Opens a fresh command queue on the device.
pub fn new_command_queue(device: &Device) -> (q: CommandQueue)
    ensures
        q.count() == 0,
{
    CommandQueue { submitted: Ghost(0) }
}

impl CommandQueue {
    /// How many command buffers have been submitted through this queue.
    pub closed spec fn count(&self) -> nat {
        self.submitted@
    }

    /// Submits the recorded fill dispatch against `target`, overwriting
    /// the first `grid.x` words of its device-resident copy with each
    /// lane's index.  A managed target's host view is untouched.
    pub fn submit_fill(&mut self, dispatch: &Dispatch, target: &mut Buffer) -> (t: CompletionToken)
        requires
            dispatch.entry is Assign,
            dispatch.grid.y == 1 && dispatch.grid.z == 1,
            dispatch.grid.x <= u32::MAX,
            old(target)@.wf(),
            4 * dispatch.grid.x <= old(target)@.byte_len(),
        ensures
            final(target)@ == device_write_view(
                old(target)@,
                bytes_of_words(fill_words(dispatch.grid.x as nat)),
            ),
            final(target)@.wf(),
            final(self).count() == old(self).count() + 1,
            t.position() == old(self).count(),
            !t.resolved(),
    {
        let n64 = dispatch.grid.x;
        let len = target.length();
        proof {
            assert(n64 <= len);
        }
        let n = n64 as usize;
        let mut ws: Vec<u32> = Vec::new();
        let mut i: usize = 0;
        while i < n
            invariant
                i <= n,
                n == n64,
                n64 <= u32::MAX,
                ws@ =~= fill_words(n as nat).take(i as int),
            decreases n - i,
        {
            ws.push(i as u32);
            proof {
                assert(fill_words(n as nat)[i as int] == i as u32);
                assert(ws@ =~= fill_words(n as nat).take(i + 1));
            }
            i = i + 1;
        }
        proof {
            assert(fill_words(n as nat).take(n as int) =~= fill_words(n as nat));
        }
        let bytes = encode_words(&ws);
        target.device_write(&bytes);
        let t = CompletionToken { completed: false, position: Ghost(self.submitted@) };
        proof {
            self.submitted@ = self.submitted@ + 1;
        }
        t
    }

    /// Submits the recorded elementwise-product dispatch: lane `i` of the
    /// `grid.x` lanes stores the product, with 32-bit wraparound, of the
    /// `i`th words of `a` and `b` into `out`'s device-resident copy.
    pub fn submit_elementwise_product(
        &mut self,
        dispatch: &Dispatch,
        a: &Buffer,
        b: &Buffer,
        out: &mut Buffer,
    ) -> (t: CompletionToken)
        requires
            dispatch.entry is DotProduct,
            dispatch.grid.y == 1 && dispatch.grid.z == 1,
            a@.wf(),
            b@.wf(),
            old(out)@.wf(),
            4 * dispatch.grid.x <= a@.byte_len(),
            4 * dispatch.grid.x <= b@.byte_len(),
            4 * dispatch.grid.x <= old(out)@.byte_len(),
        ensures
            final(out)@ == device_write_view(
                old(out)@,
                bytes_of_words(lane_products(
                    words_of_bytes(a@.device),
                    words_of_bytes(b@.device),
                    dispatch.grid.x as nat,
                )),
            ),
            final(out)@.wf(),
            final(self).count() == old(self).count() + 1,
            t.position() == old(self).count(),
            !t.resolved(),
    {
        let n64 = dispatch.grid.x;
        let a_total = a.length();
        proof {
            assert(n64 <= a_total);
        }
        let n = n64 as usize;
        let ghost sa = words_of_bytes(a@.device);
        let ghost sb = words_of_bytes(b@.device);
        proof {
            assert(n <= a@.byte_len() / 4 && n <= b@.byte_len() / 4) by (nonlinear_arith)
                requires
                    4 * n <= a@.byte_len(),
                    4 * n <= b@.byte_len(),
            ;
        }
        let wa = decode_words(a.device_contents(), n);
        let wb = decode_words(b.device_contents(), n);
        let mut prods: Vec<u32> = Vec::new();
        let mut i: usize = 0;
        while i < n
            invariant
                i <= n,
                n == n64,
                wa@.len() == n && wb@.len() == n,
                forall|j: int| 0 <= j < n ==> wa@[j] == sa[j] && wb@[j] == sb[j],
                prods@ =~= lane_products(sa, sb, n as nat).take(i as int),
            decreases n - i,
        {
            let p = wa[i].wrapping_mul(wb[i]);
            proof {
                assert(p == wrapped_mul(sa[i as int], sb[i as int]));
                assert(prods@.push(p) =~= lane_products(sa, sb, n as nat).take(i + 1));
            }
            prods.push(p);
            i = i + 1;
        }
        proof {
            assert(lane_products(sa, sb, n as nat).take(n as int) =~= lane_products(sa, sb, n as nat));
        }
        let bytes = encode_words(&prods);
        out.device_write(&bytes);
        let t = CompletionToken { completed: false, position: Ghost(self.submitted@) };
        proof {
            self.submitted@ = self.submitted@ + 1;
        }
        t
    }

    /// Submits the recorded matrix-product dispatch over a square grid of
    /// `grid.x` by `grid.y` lanes: the lane at row `r`, column `c` stores
    /// the product of row `r` of `a` with column `c` of `b`, accumulated
    /// with 32-bit wraparound, into `out`'s device-resident copy in
    /// row-major order.  Lanes are bounds-checked per thread, so the grid
    /// need not be a multiple of the group shape.
    #[verifier::rlimit(30)]
    pub fn submit_matrix_product(
        &mut self,
        dispatch: &Dispatch,
        a: &Buffer,
        b: &Buffer,
        out: &mut Buffer,
    ) -> (t: CompletionToken)
        requires
            dispatch.entry is MulMatrices,
            dispatch.grid.z == 1,
            dispatch.grid.x == dispatch.grid.y,
            a@.wf(),
            b@.wf(),
            old(out)@.wf(),
            4 * dispatch.grid.x * dispatch.grid.x <= a@.byte_len(),
            4 * dispatch.grid.x * dispatch.grid.x <= b@.byte_len(),
            4 * dispatch.grid.x * dispatch.grid.x <= old(out)@.byte_len(),
        ensures
            final(out)@ == device_write_view(
                old(out)@,
                bytes_of_words(matrix_product_words(
                    words_of_bytes(a@.device),
                    words_of_bytes(b@.device),
                    dispatch.grid.x as nat,
                )),
            ),
            final(out)@.wf(),
            final(self).count() == old(self).count() + 1,
            t.position() == old(self).count(),
            !t.resolved(),
    {
        let n64 = dispatch.grid.x;
        let a_total = a.length();
        proof {
            assert(n64 <= 4 * n64 * n64 || n64 == 0) by (nonlinear_arith);
            assert(n64 <= a_total);
        }
        let n = n64 as usize;
        proof {
            assert(n * n <= 4 * n * n) by (nonlinear_arith);
        }
        let count = n * n;
        let ghost sa = words_of_bytes(a@.device);
        let ghost sb = words_of_bytes(b@.device);
        let ghost nn = n as nat;
        proof {
            assert(count == n64 * n64 && 4 * (n64 * n64) == 4 * n64 * n64) by (nonlinear_arith)
                requires
                    count == n * n,
                    n == n64,
            ;
            assert(4 * count <= a@.byte_len());
            assert(4 * count <= b@.byte_len());
            assert(4 * count <= old(out)@.byte_len());
            assert(count <= a@.byte_len() / 4 && count <= b@.byte_len() / 4) by (nonlinear_arith)
                requires
                    4 * count <= a@.byte_len(),
                    4 * count <= b@.byte_len(),
            ;
        }
        let wa = decode_words(a.device_contents(), count);
        let wb = decode_words(b.device_contents(), count);
        let mut out_words: Vec<u32> = Vec::new();
        let mut idx: usize = 0;
        while idx < count
            invariant
                idx <= count,
                count == n * n,
                n == n64,
                nn == n as nat,
                sa == words_of_bytes(a@.device),
                sb == words_of_bytes(b@.device),
                count <= sa.len() && count <= sb.len(),
                wa@.len() == count && wb@.len() == count,
                forall|j: int| 0 <= j < count ==> wa@[j] == sa[j] && wb@[j] == sb[j],
                out_words@ =~= matrix_product_words(sa, sb, nn).take(idx as int),
            decreases count - idx,
        {
            proof {
                assert(n >= 1) by (nonlinear_arith)
                    requires
                        idx < count,
                        count == n * n,
                        n >= 0,
                        idx >= 0,
                ;
            }
            let row = idx / n;
            let col = idx % n;
            proof {
                assert(0 <= row < n && 0 <= col < n && row * n + col == idx) by (nonlinear_arith)
                    requires
                        n >= 1,
                        0 <= idx < n * n,
                        row == idx as int / n as int,
                        col == idx as int % n as int,
                ;
            }
            let mut acc: u32 = 0;
            let mut k: usize = 0;
            while k < n
                invariant
                    k <= n,
                    1 <= n,
                    count == n * n,
                    nn == n as nat,
                    0 <= row < n && 0 <= col < n,
                    count <= sa.len() && count <= sb.len(),
                    wa@.len() == count && wb@.len() == count,
                    forall|j: int| 0 <= j < count ==> wa@[j] == sa[j] && wb@[j] == sb[j],
                    acc as int == row_col_sum(sa, sb, nn, row as int, col as int, k as nat)
                        % 0x1_0000_0000,
                decreases n - k,
            {
                proof {
                    assert(row * n + k < count && k * n + col < count) by (nonlinear_arith)
                        requires
                            0 <= row < n,
                            0 <= col < n,
                            0 <= k < n,
                            count == n * n,
                    ;
                }
                let ia = row * n + k;
                let ib = k * n + col;
                let p = wa[ia].wrapping_mul(wb[ib]);
                let new_acc = acc.wrapping_add(p);
                proof {
                    let m = 0x1_0000_0000 as int;
                    let s = row_col_sum(sa, sb, nn, row as int, col as int, k as nat);
                    let big_p = sa[ia as int] * sb[ib as int];
                    assert(p as int == big_p % m);
                    lemma_add_mod_noop(s, big_p, m);
                    assert(new_acc as int == (acc as int + p as int) % m);
                    assert(new_acc as int == (s + big_p) % m);
                    assert(row_col_sum(sa, sb, nn, row as int, col as int, (k + 1) as nat)
                        == s + big_p);
                }
                acc = new_acc;
                k = k + 1;
            }
            proof {
                assert(acc == matrix_product_entry(sa, sb, nn, row as int, col as int));
                assert(matrix_product_words(sa, sb, nn)[idx as int] == acc);
                assert(out_words@.push(acc) =~= matrix_product_words(sa, sb, nn).take(idx + 1));
            }
            out_words.push(acc);
            idx = idx + 1;
        }
        proof {
            assert(matrix_product_words(sa, sb, nn).take(count as int)
                =~= matrix_product_words(sa, sb, nn));
        }
        let bytes = encode_words(&out_words);
        out.device_write(&bytes);
        let t = CompletionToken { completed: false, position: Ghost(self.submitted@) };
        proof {
            self.submitted@ = self.submitted@ + 1;
        }
        t
    }

    /// Records and submits the copy-back pass that a managed buffer needs
    /// before its device-written bytes are host-visible.
    ///
    /// Legal only for managed buffers; shared buffers never need it.  It
    /// must run after the work that wrote the buffer and before any host
    /// read of the written bytes.
    pub fn synchronize(&mut self, buffer: &mut Buffer) -> (t: CompletionToken)
        requires
            old(buffer)@.wf(),
            old(buffer)@.mode is Managed,
        ensures
            final(buffer)@ == synced_view(old(buffer)@),
            final(buffer)@.wf(),
            final(self).count() == old(self).count() + 1,
            t.position() == old(self).count(),
            !t.resolved(),
    {
        buffer.copy_device_to_host();
        let t = CompletionToken { completed: false, position: Ghost(self.submitted@) };
        proof {
            self.submitted@ = self.submitted@ + 1;
        }
        t
    }
}

} // verus!

//! The contents of a batched uniform buffer as plain mathematics, and what
//! holds of them after any run of pushes.

use crate::align::{is_multiple_of, lemma_round_up_is_least_multiple, spec_round_up};
use crate::binding::BufferBinding;
use crate::capped_array::spec_array_size;
use crate::limits::MAX_REASONABLE_UNIFORM_BUFFER_BINDING_SIZE;
use vstd::arithmetic::div_mod::{
    lemma_fundamental_div_mod, lemma_fundamental_div_mod_converse, lemma_mod_multiples_basic,
};
use vstd::prelude::*;

verus! {

/// What a batched uniform buffer holds, as plain mathematics.
#[verifier::ext_equal]
pub struct BatchState<T> {
    /// The chunks committed so far, in the order of their offsets.
    pub chunks: Seq<Seq<T>>,
    /// The elements of the chunk in progress.
    pub pending: Seq<T>,
    /// The number of elements that make a chunk full.
    pub capacity: nat,
    /// The size in bytes of one element.
    pub element_size: nat,
    /// The alignment in bytes of every chunk's offset.
    pub alignment: nat,
    /// Whether the device has been handed at least one chunk so far.
    pub written: bool,
}

impl<T> BatchState<T> {
    /// The state of a buffer that holds nothing and was never written.
    pub open spec fn empty(capacity: nat, element_size: nat, alignment: nat) -> Self {
        BatchState {
            chunks: Seq::empty(),
            pending: Seq::empty(),
            capacity,
            element_size,
            alignment,
            written: false,
        }
    }

    /// The footprint in bytes of one chunk on the device.
    pub open spec fn chunk_size(self) -> nat {
        spec_array_size(self.capacity, self.element_size)
    }

    /// The distance in bytes between the offsets of two neighbouring chunks.
    pub open spec fn stride(self) -> nat {
        spec_round_up(self.chunk_size(), self.alignment)
    }

    /// The offset in bytes of the chunk in progress.
    pub open spec fn offset(self) -> nat {
        self.chunks.len() * self.stride()
    }

    /// What holds of every state, but for the fill of the chunk in progress.
    pub open spec fn inv(self) -> bool {
        &&& self.capacity >= 1
        &&& self.element_size >= 1
        &&& self.capacity * self.element_size <= MAX_REASONABLE_UNIFORM_BUFFER_BINDING_SIZE
        &&& 1 <= self.alignment <= u32::MAX
        &&& self.pending.len() <= self.capacity
        &&& forall|k: int|
            0 <= k < self.chunks.len() ==> (#[trigger] self.chunks[k]).len() <= self.capacity
    }

    /// What holds of every state between two operations: the chunk in
    /// progress is never full.
    pub open spec fn wf(self) -> bool {
        &&& self.inv()
        &&& self.pending.len() < self.capacity
    }

    /// Whether the offset that follows a further chunk still fits in 32 bits.
    pub open spec fn has_room(self) -> bool {
        self.offset() + self.stride() <= u32::MAX
    }

    /// Whether a push can be taken: it commits a chunk only where there is room.
    pub open spec fn accepts_push(self) -> bool {
        self.pending.len() + 1 == self.capacity ==> self.has_room()
    }

    /// Whether the buffer can be written: it commits a chunk only where there
    /// is room.
    pub open spec fn accepts_write(self) -> bool {
        self.pending.len() > 0 ==> self.has_room()
    }

    /// Commits the chunk in progress, as it is, and starts an empty one.
    pub open spec fn flush(self) -> Self {
        BatchState { chunks: self.chunks.push(self.pending), pending: Seq::empty(), ..self }
    }

    /// Appends `value` to the chunk in progress and commits the chunk if that
    /// has made it full.
    pub open spec fn push(self, value: T) -> Self {
        let grown = BatchState { pending: self.pending.push(value), ..self };
        if grown.pending.len() == grown.capacity {
            grown.flush()
        } else {
            grown
        }
    }

    /// Drops every element. What the device was handed before is not taken back.
    pub open spec fn clear(self) -> Self {
        BatchState { chunks: Seq::empty(), pending: Seq::empty(), ..self }
    }

    /// Commits the chunk in progress unless it is empty, then hands every
    /// chunk to the device.
    pub open spec fn write_buffer(self) -> Self {
        let settled = if self.pending.len() > 0 {
            self.flush()
        } else {
            self
        };
        BatchState { written: settled.written || settled.chunks.len() > 0, ..settled }
    }

    /// Whether the state holds no element, committed or in progress.
    pub open spec fn is_empty(self) -> bool {
        self.chunks.len() == 0 && self.pending.len() == 0
    }

    /// Pushes the elements of `elems` one after the other, first to last.
    pub open spec fn push_all(self, elems: Seq<T>) -> Self
        decreases elems.len(),
    {
        if elems.len() == 0 {
            self
        } else {
            self.push_all(elems.drop_last()).push(elems.last())
        }
    }

    /// The range to bind: one chunk wide, from the start of the buffer, once
    /// the device has been handed anything.
    pub open spec fn binding(self) -> Option<BufferBinding> {
        if self.written {
            Some(BufferBinding { offset: 0, size: Some(self.chunk_size() as u64) })
        } else {
            None
        }
    }
}

/// A chunk holds at most as many elements as the binding size cap has bytes.
/// Chunks are at least one byte and at most `u32::MAX` bytes apart, and the
/// distance is a multiple of the alignment that covers a whole chunk.
pub proof fn lemma_stride_bounds<T>(state: BatchState<T>)
    requires
        state.inv(),
    ensures
        state.capacity <= MAX_REASONABLE_UNIFORM_BUFFER_BINDING_SIZE,
        1 <= state.chunk_size() <= MAX_REASONABLE_UNIFORM_BUFFER_BINDING_SIZE,
        state.chunk_size() <= state.stride() <= u32::MAX,
        is_multiple_of(state.stride(), state.alignment),
{
    let v = state.chunk_size();
    let a = state.alignment;
    assert(state.capacity * state.element_size >= state.capacity >= 1) by (nonlinear_arith)
        requires
            state.capacity >= 1,
            state.element_size >= 1,
    ;
    lemma_round_up_is_least_multiple(v, a);
    let q = (v + a - 1) / (a as int);
    if v <= a {
        assert(q * a <= a) by (nonlinear_arith)
            requires
                a >= 1,
                q >= 0,
                q * a < v + a,
                v <= a,
        ;
    }
}

/// Every operation on a well-formed state gives a well-formed state, and no
/// run of pushes changes the capacity, the element size or the alignment.
pub proof fn lemma_wf_is_kept<T>(state: BatchState<T>, value: T, elems: Seq<T>)
    requires
        state.wf(),
    ensures
        state.clear().wf(),
        state.push(value).wf(),
        state.push_all(elems).wf(),
        state.flush().wf(),
        state.write_buffer().wf(),
        state.push_all(elems).capacity == state.capacity,
        state.push_all(elems).element_size == state.element_size,
        state.push_all(elems).alignment == state.alignment,
        state.push_all(elems).written == state.written,
    decreases elems.len(),
{
    if elems.len() > 0 {
        lemma_wf_is_kept(state, value, elems.drop_last());
    }
}

/// The offset of the chunk in progress is a multiple of the alignment.
pub proof fn lemma_offset_is_aligned<T>(state: BatchState<T>)
    requires
        state.inv(),
    ensures
        is_multiple_of(state.offset(), state.alignment),
{
    lemma_stride_bounds(state);
    let n = state.chunks.len();
    let s = state.stride();
    let a = state.alignment;
    let q = s / a;
    assert(n * s == (n * q) * a) by (nonlinear_arith)
        requires
            a >= 1,
            q == s / a,
            s % a == 0,
    ;
    lemma_mod_multiples_basic((n * q) as int, a as int);
}

/// After any run of pushes into an empty buffer with chunks of capacity `c`,
/// the elements stand in the buffer in the order they were pushed, cut into
/// slices of `c`: of `n` elements the first `n / c` slices are committed
/// chunks, each full, and the remaining `n % c` elements are in progress.
pub proof fn lemma_push_all_shape<T>(start: BatchState<T>, elems: Seq<T>)
    requires
        start.wf(),
        start.is_empty(),
    ensures
        ({
            let end = start.push_all(elems);
            let c = start.capacity as int;
            let n = elems.len() as int;
            &&& end.wf()
            &&& end.capacity == start.capacity
            &&& end.element_size == start.element_size
            &&& end.alignment == start.alignment
            &&& end.written == start.written
            &&& end.chunks.len() == n / c
            &&& end.pending.len() == n % c
            &&& end.pending == elems.subrange((n / c) * c, n)
            &&& forall|k: int|
                0 <= k < n / c ==> #[trigger] end.chunks[k] == elems.subrange(k * c, (k + 1) * c)
        }),
    decreases elems.len(),
{
    let c = start.capacity as int;
    let n = elems.len() as int;
    let end = start.push_all(elems);
    if n > 0 {
        let front = elems.drop_last();
        let prev = start.push_all(front);
        lemma_push_all_shape(start, front);
        let m = n - 1;
        let q = m / c;
        let r = m % c;
        lemma_fundamental_div_mod(m, c);
        let grown = prev.pending.push(elems.last());
        assert(grown =~= elems.subrange(q * c, n));
        assert forall|k: int| 0 <= k < q implies #[trigger] prev.chunks[k] == elems.subrange(
            k * c,
            (k + 1) * c,
        ) by {
            assert((k + 1) * c <= m && 0 <= k * c <= (k + 1) * c) by (nonlinear_arith)
                requires
                    0 <= k < q,
                    c >= 1,
                    q * c <= m,
            ;
        }
        if r + 1 == c {
            assert(n == (q + 1) * c + 0) by (nonlinear_arith)
                requires
                    n == q * c + r + 1,
                    r + 1 == c,
            ;
            lemma_fundamental_div_mod_converse(n, c, q + 1, 0);
            assert forall|k: int| 0 <= k < n / c implies #[trigger] end.chunks[k]
                == elems.subrange(k * c, (k + 1) * c) by {}
        } else {
            lemma_fundamental_div_mod_converse(n, c, q, r + 1);
        }
    }
}

/// Once `n` elements were pushed into an empty buffer with chunks of capacity
/// `c` and the buffer was written, it holds `n / c` rounded up chunks and no
/// chunk in progress. Every chunk but the last holds exactly `c` elements, the
/// last one the rest, and chunk `k` holds the elements from `k * c` on, in
/// the order they were pushed. The device was handed something if and only
/// if it had been before or there was an element to hand over. A flush in
/// place of the write commits the same chunks wherever a chunk is in
/// progress, that is, unless `c` divides `n`.
pub proof fn lemma_chunks_after_write<T>(start: BatchState<T>, elems: Seq<T>)
    requires
        start.wf(),
        start.is_empty(),
    ensures
        ({
            let end = start.push_all(elems).write_buffer();
            let c = start.capacity as int;
            let n = elems.len() as int;
            let count = (n + c - 1) / c;
            &&& end.wf()
            &&& end.chunks.len() == count
            &&& end.pending.len() == 0
            &&& forall|k: int| 0 <= k < count - 1 ==> (#[trigger] end.chunks[k]).len() == c
            &&& count > 0 ==> end.chunks[count - 1].len() == n - (count - 1) * c
            &&& count > 0 ==> 1 <= end.chunks[count - 1].len() <= c
            &&& forall|k: int|
                0 <= k < count ==> #[trigger] end.chunks[k] == elems.subrange(
                    k * c,
                    if (k + 1) * c <= n {
                        (k + 1) * c
                    } else {
                        n
                    },
                )
            &&& end.written == (start.written || n > 0)
            &&& n % c != 0 ==> start.push_all(elems).flush().chunks == end.chunks
        }),
{
    let c = start.capacity as int;
    let n = elems.len() as int;
    let mid = start.push_all(elems);
    let end = mid.write_buffer();
    let q = n / c;
    let r = n % c;
    lemma_push_all_shape(start, elems);
    lemma_fundamental_div_mod(n, c);
    assert(n == q * c + r) by (nonlinear_arith)
        requires
            n == c * q + r,
    ;
    if r > 0 {
        assert(n + c - 1 == (q + 1) * c + (r - 1)) by (nonlinear_arith)
            requires
                n == q * c + r,
        ;
        lemma_fundamental_div_mod_converse(n + c - 1, c, q + 1, r - 1);
        assert forall|k: int| 0 <= k < q + 1 implies #[trigger] end.chunks[k] == elems.subrange(
            k * c,
            if (k + 1) * c <= n {
                (k + 1) * c
            } else {
                n
            },
        ) by {
            if k < q {
                assert((k + 1) * c <= n) by (nonlinear_arith)
                    requires
                        0 <= k < q,
                        c >= 1,
                        q * c <= n,
                ;
            }
        }
        assert forall|k: int| 0 <= k < q implies (#[trigger] end.chunks[k]).len() == c by {
            assert((k + 1) * c - k * c == c && 0 <= k * c && (k + 1) * c <= n)
                by (nonlinear_arith)
                requires
                    0 <= k < q,
                    c >= 1,
                    q * c <= n,
            ;
        }
    } else {
        assert forall|k: int| 0 <= k < q implies #[trigger] end.chunks[k] == elems.subrange(
            k * c,
            if (k + 1) * c <= n {
                (k + 1) * c
            } else {
                n
            },
        ) by {
            assert((k + 1) * c <= n) by (nonlinear_arith)
                requires
                    0 <= k < q,
                    c >= 1,
                    q * c <= n,
            ;
        }
        lemma_fundamental_div_mod_converse(n + c - 1, c, q, c - 1);
        assert forall|k: int| 0 <= k < q implies (#[trigger] end.chunks[k]).len() == c by {
            assert((k + 1) * c - k * c == c && 0 <= k * c && (k + 1) * c <= n)
                by (nonlinear_arith)
                requires
                    0 <= k < q,
                    c >= 1,
                    q * c <= n,
            ;
        }
        if q > 0 {
            assert(n - (q - 1) * c == c) by (nonlinear_arith)
                requires
                    n == q * c,
            ;
        }
    }
}

/// Of the elements pushed into an empty buffer with chunks of capacity `c`,
/// element `i` is given the index `i % c` and, as its dynamic offset, `i / c`
/// strides, which is a multiple of the alignment. Once the buffer is written,
/// the element stands at that index in chunk `i / c`.
pub proof fn lemma_push_position<T>(start: BatchState<T>, elems: Seq<T>, i: int)
    requires
        start.wf(),
        start.is_empty(),
        0 <= i < elems.len(),
    ensures
        ({
            let before = start.push_all(elems.take(i));
            let end = start.push_all(elems).write_buffer();
            let c = start.capacity as int;
            &&& before.wf()
            &&& before.pending.len() == i % c
            &&& before.offset() == (i / c) * start.stride()
            &&& is_multiple_of(before.offset(), start.alignment)
            &&& 0 <= i / c < end.chunks.len()
            &&& 0 <= i % c < end.chunks[i / c].len()
            &&& end.chunks[i / c][i % c] == elems[i]
        }),
{
    let c = start.capacity as int;
    let n = elems.len() as int;
    let before = start.push_all(elems.take(i));
    let end = start.push_all(elems).write_buffer();
    let count = (n + c - 1) / c;
    let q = i / c;
    let r = i % c;
    lemma_push_all_shape(start, elems.take(i));
    lemma_offset_is_aligned(before);
    lemma_chunks_after_write(start, elems);
    lemma_fundamental_div_mod(i, c);
    lemma_fundamental_div_mod(n + c - 1, c);
    assert(0 <= q < count && i == q * c + r && q * c + r < (if (q + 1) * c <= n {
        (q + 1) * c
    } else {
        n
    })) by (nonlinear_arith)
        requires
            0 <= i < n,
            c >= 1,
            i == c * q + r,
            0 <= r < c,
            n + c - 1 == c * count + (n + c - 1) % c,
            0 <= (n + c - 1) % c < c,
    ;
}

/// Pushing exactly as many elements as a chunk holds commits exactly one
/// chunk and leaves none in progress. One element more, where a chunk holds
/// at least two, commits that one chunk still and leaves one in progress.
pub proof fn lemma_push_all_at_capacity<T>(start: BatchState<T>, elems: Seq<T>)
    requires
        start.wf(),
        start.is_empty(),
    ensures
        elems.len() == start.capacity ==> {
            &&& start.push_all(elems).chunks.len() == 1
            &&& start.push_all(elems).chunks[0] == elems
            &&& start.push_all(elems).pending.len() == 0
        },
        elems.len() == start.capacity + 1 && start.capacity >= 2 ==> {
            &&& start.push_all(elems).chunks.len() == 1
            &&& start.push_all(elems).chunks[0] == elems.drop_last()
            &&& start.push_all(elems).pending == seq![elems.last()]
        },
{
    let c = start.capacity as int;
    let n = elems.len() as int;
    lemma_push_all_shape(start, elems);
    if n == c {
        lemma_fundamental_div_mod_converse(n, c, 1, 0);
    }
    if n == c + 1 && c >= 2 {
        lemma_fundamental_div_mod_converse(n, c, 1, 1);
    }
}

} // verus!

//! The contents of a list as plain mathematics, and what holds of them from
//! frame to frame.

use crate::batch_state::BatchState;
use crate::binding::BufferBinding;
use vstd::prelude::*;

verus! {

/// What a list holds, as plain mathematics.
#[verifier::ext_equal]
pub enum ListState<T> {
    /// Chunks of a uniform buffer.
    Uniform(BatchState<T>),
    /// One flat array in a storage buffer.
    Storage {
        /// The elements that the device was last handed.
        uploaded: Seq<T>,
        /// The elements pushed since.
        staged: Seq<T>,
        /// Whether the device has been handed at least one element so far.
        written: bool,
    },
}

impl<T> ListState<T> {
    /// The state of a list in a storage buffer that holds nothing and was
    /// never written.
    pub open spec fn empty_storage() -> Self {
        ListState::Storage { uploaded: Seq::empty(), staged: Seq::empty(), written: false }
    }

    /// The state of a list in a uniform buffer that holds nothing and was
    /// never written.
    pub open spec fn empty_uniform(capacity: nat, element_size: nat, alignment: nat) -> Self {
        ListState::Uniform(BatchState::empty(capacity, element_size, alignment))
    }

    /// Whether the list is kept in a uniform buffer.
    pub open spec fn is_uniform(self) -> bool {
        self is Uniform
    }

    /// What holds of every state between two operations.
    pub open spec fn wf(self) -> bool {
        match self {
            ListState::Uniform(batch) => batch.wf(),
            ListState::Storage { .. } => true,
        }
    }

    /// Whether a push can be taken: the index it returns fits in 32 bits.
    pub open spec fn accepts_push(self) -> bool {
        match self {
            ListState::Uniform(batch) => batch.accepts_push(),
            ListState::Storage { staged, .. } => staged.len() <= u32::MAX,
        }
    }

    /// Whether the list can be written.
    pub open spec fn accepts_write(self) -> bool {
        match self {
            ListState::Uniform(batch) => batch.accepts_write(),
            ListState::Storage { .. } => true,
        }
    }

    /// The index that the next push returns.
    pub open spec fn next_index(self) -> nat {
        match self {
            ListState::Uniform(batch) => batch.pending.len(),
            ListState::Storage { staged, .. } => staged.len(),
        }
    }

    /// The dynamic offset that the next push returns.
    pub open spec fn next_offset(self) -> Option<nat> {
        match self {
            ListState::Uniform(batch) => Some(batch.offset()),
            ListState::Storage { .. } => None,
        }
    }

    /// Drops every element pushed. What the device holds is not taken back.
    pub open spec fn clear(self) -> Self {
        match self {
            ListState::Uniform(batch) => ListState::Uniform(batch.clear()),
            ListState::Storage { uploaded, staged, written } => ListState::Storage {
                uploaded,
                staged: Seq::empty(),
                written,
            },
        }
    }

    /// Appends `value`.
    pub open spec fn push(self, value: T) -> Self {
        match self {
            ListState::Uniform(batch) => ListState::Uniform(batch.push(value)),
            ListState::Storage { uploaded, staged, written } => ListState::Storage {
                uploaded,
                staged: staged.push(value),
                written,
            },
        }
    }

    /// Hands the device what was pushed. A storage buffer takes the staged
    /// elements over and leaves none staged.
    pub open spec fn write_buffer(self) -> Self {
        match self {
            ListState::Uniform(batch) => ListState::Uniform(batch.write_buffer()),
            ListState::Storage { uploaded, staged, written } => ListState::Storage {
                uploaded: staged,
                staged: Seq::empty(),
                written: written || staged.len() > 0,
            },
        }
    }

    /// Whether the device has been handed at least one element so far.
    pub open spec fn written(self) -> bool {
        match self {
            ListState::Uniform(batch) => batch.written,
            ListState::Storage { written, .. } => written,
        }
    }

    /// The range to bind, once the device has been handed anything.
    pub open spec fn binding(self) -> Option<BufferBinding> {
        match self {
            ListState::Uniform(batch) => batch.binding(),
            ListState::Storage { written, .. } => if written {
                Some(BufferBinding { offset: 0, size: None })
            } else {
                None
            },
        }
    }

    /// Pushes the elements of `elems` one after the other, first to last.
    pub open spec fn push_all(self, elems: Seq<T>) -> Self
        decreases elems.len(),
    {
        if elems.len() == 0 {
            self
        } else {
            self.push_all(elems.drop_last()).push(elems.last())
        }
    }

    /// One frame: the list is cleared, `elems` are pushed, the list is written.
    pub open spec fn cycle(self, elems: Seq<T>) -> Self {
        self.clear().push_all(elems).write_buffer()
    }
}

/// A run of pushes into a list is that run of pushes into its backing
/// buffer: a uniform buffer batches the elements, a storage buffer stages
/// them behind those staged before.
pub proof fn lemma_push_all_by_backend<T>(state: ListState<T>, elems: Seq<T>)
    ensures
        match state {
            ListState::Uniform(batch) => state.push_all(elems) == ListState::Uniform(
                batch.push_all(elems),
            ),
            ListState::Storage { uploaded, staged, written } => {
                state.push_all(elems) == (ListState::Storage {
                    uploaded,
                    staged: staged + elems,
                    written,
                })
            },
        },
    decreases elems.len(),
{
    if elems.len() > 0 {
        lemma_push_all_by_backend(state, elems.drop_last());
    }
}

/// No operation changes which buffer backs a list, and so no number of
/// frames does: a list that was made on a uniform buffer stays on it, and
/// one made on a storage buffer stays on that.
pub proof fn lemma_backend_is_stable<T>(state: ListState<T>, first: Seq<T>, second: Seq<T>)
    ensures
        state.clear().is_uniform() == state.is_uniform(),
        forall|value: T| #[trigger] state.push(value).is_uniform() == state.is_uniform(),
        state.push_all(first).is_uniform() == state.is_uniform(),
        state.write_buffer().is_uniform() == state.is_uniform(),
        state.cycle(first).is_uniform() == state.is_uniform(),
        state.cycle(first).cycle(second).is_uniform() == state.is_uniform(),
{
    lemma_push_all_by_backend(state, first);
    lemma_push_all_by_backend(state.clear(), first);
    lemma_push_all_by_backend(state.cycle(first).clear(), second);
}

/// Clearing a list and writing it with nothing pushed is always possible
/// and leaves the binding as it was. In particular a list that the device
/// was never handed anything of has no binding before, and none after.
pub proof fn lemma_clear_then_write_keeps_binding<T>(state: ListState<T>)
    requires
        state.wf(),
    ensures
        state.clear().wf(),
        state.clear().accepts_write(),
        state.clear().write_buffer().wf(),
        state.clear().write_buffer().binding() == state.binding(),
        state.binding() is None <==> !state.written(),
        !state.written() ==> state.clear().write_buffer().binding() is None,
{
}

/// One frame of a list on a storage buffer: whatever was staged or uploaded
/// before, the elements pushed are numbered from zero in the order of the
/// pushes, and writing hands exactly them to the device and leaves none
/// staged, so that the next push is numbered zero again.
pub proof fn lemma_storage_cycle<T>(state: ListState<T>, elems: Seq<T>)
    requires
        state is Storage,
    ensures
        forall|i: int|
            0 <= i <= elems.len() ==> (#[trigger] state.clear().push_all(
                elems.take(i),
            )).next_index() == i,
        state.cycle(elems) == (ListState::Storage {
            uploaded: elems,
            staged: Seq::empty(),
            written: state.written() || elems.len() > 0,
        }),
        state.cycle(elems).next_index() == 0,
        state.cycle(elems).next_offset() is None,
{
    lemma_push_all_by_backend(state.clear(), elems);
    assert forall|i: int| 0 <= i <= elems.len() implies (#[trigger] state.clear().push_all(
        elems.take(i),
    )).next_index() == i by {
        lemma_push_all_by_backend(state.clear(), elems.take(i));
    }
}

/// One frame of a list on a uniform buffer is one frame of that buffer:
/// what holds of the chunks of a batched uniform buffer after a run of
/// pushes and a write holds of the list.
pub proof fn lemma_uniform_cycle<T>(state: ListState<T>, elems: Seq<T>)
    requires
        state is Uniform,
        state.wf(),
    ensures
        state.clear() == ListState::Uniform(state->Uniform_0.clear()),
        state->Uniform_0.clear().wf(),
        state->Uniform_0.clear().is_empty(),
        state.cycle(elems) == ListState::Uniform(
            state->Uniform_0.clear().push_all(elems).write_buffer(),
        ),
{
    lemma_push_all_by_backend(state.clear(), elems);
}

} // verus!

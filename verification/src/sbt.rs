//! Compiled objects as the manager sees them: handles, and the table of
//! shader-group handles from which shader binding tables are filled.

use vstd::prelude::*;
use vstd::slice::slice_subrange;

verus! {

/// A compiled pipeline library that the graphics device owns.
#[derive(Clone, Copy, Debug, PartialEq, Eq)]
pub struct PipelineLibrary {
    pub handle: u64,
}

/// The contents of a handle table: the records of a pipeline's hitgroups,
/// one after the other, each `handle_size` bytes long.
pub struct SbtHandlesView {
    pub handle_size: nat,
    pub data: Seq<u8>,
}

impl SbtHandlesView {
    /// The records have a size and fill `data` exactly.
    pub open spec fn wf(self) -> bool {
        self.handle_size > 0 && self.data.len() % self.handle_size == 0
    }

    /// The number of hitgroup records.
    pub open spec fn hitgroup_count(self) -> nat {
        if self.handle_size > 0 {
            self.data.len() / self.handle_size
        } else {
            0
        }
    }

    /// The record of the hitgroup `index`.
    pub open spec fn hitgroup(self, index: int) -> Seq<u8> {
        self.data.subrange(index * self.handle_size, (index + 1) * self.handle_size)
    }
}

/// The shader-group handles of the hitgroups of one pipeline.
#[derive(Debug, PartialEq, Eq)]
pub struct SbtHandles {
    handle_size: usize,
    data: Vec<u8>,
}

impl View for SbtHandles {
    type V = SbtHandlesView;

    closed spec fn view(&self) -> SbtHandlesView {
        SbtHandlesView { handle_size: self.handle_size as nat, data: self.data@ }
    }
}

impl SbtHandles {
    #[verifier::type_invariant]
    closed spec fn inv(self) -> bool {
        self@.wf()
    }

    /// Makes a table from the bytes that the device returned. `None` when
    /// `handle_size` is zero or `data` is not a whole number of records.
    pub fn new(handle_size: usize, data: Vec<u8>) -> (table: Option<Self>)
        ensures
            table is Some <==> handle_size > 0 && data@.len() % (handle_size as nat) == 0,
            table matches Some(t) ==> t@ == (SbtHandlesView {
                handle_size: handle_size as nat,
                data: data@,
            }),
    {
        if handle_size == 0 || data.len() % handle_size != 0 {
            None
        } else {
            Some(SbtHandles { handle_size, data })
        }
    }

    /// The size of one record in bytes.
    pub fn handle_size(&self) -> (size: usize)
        ensures
            size == self@.handle_size,
            self@.wf(),
    {
        proof {
            use_type_invariant(self);
        }
        self.handle_size
    }

    /// The number of hitgroup records.
    pub fn hitgroup_count(&self) -> (count: usize)
        ensures
            count == self@.hitgroup_count(),
            self@.wf(),
    {
        proof {
            use_type_invariant(self);
        }
        self.data.len() / self.handle_size
    }

    /// The record of the hitgroup `index`.
    pub fn hitgroup(&self, index: usize) -> (record: &[u8])
        requires
            index < self@.hitgroup_count(),
        ensures
            record@ == self@.hitgroup(index as int),
            record@.len() == self@.handle_size,
    {
        let len = self.data.len();
        proof {
            use_type_invariant(self);
            lemma_record_in_range(len as int, self.handle_size as int, index as int);
        }
        let start = index * self.handle_size;
        slice_subrange(self.data.as_slice(), start, start + self.handle_size)
    }
}

/// Every record of a well-formed table is as long as the handle size.
pub proof fn lemma_hitgroup_record(table: SbtHandlesView, index: int)
    requires
        table.wf(),
        0 <= index < table.hitgroup_count(),
    ensures
        table.hitgroup(index).len() == table.handle_size,
{
    lemma_record_in_range(table.data.len() as int, table.handle_size as int, index);
}

proof fn lemma_record_in_range(len: int, size: int, index: int)
    by (nonlinear_arith)
    requires
        size > 0,
        len >= 0,
        len % size == 0,
        0 <= index < len / size,
    ensures
        0 <= index * size,
        index * size + size == (index + 1) * size,
        (index + 1) * size <= len,
{
}

/// A linked pipeline, ready to be bound: its device handle and the handles
/// of its hitgroups.
#[derive(Debug, PartialEq, Eq)]
pub struct FinalizedPipeline {
    pub handle: u64,
    pub sbt_handles: SbtHandles,
}

} // verus!

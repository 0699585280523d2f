//! Batches of writes that commit together: operations collected in memory, and
//! the state of a writer that applies them inside one transaction.
use vstd::prelude::*;
use crate::error::{ErrorView, MinistoreError};
use crate::json::{json_text, JView, JsonValue};
use crate::put::{prepare_put, prepare_spec, PutPrepared};
use crate::schema::Schema;

verus! {

/// One operation of a batch.
#[derive(Debug)]
pub enum BatchOp {
    Put(JsonValue),
    Delete(String),
}

pub enum BatchOpView {
    Put(JView),
    Delete(Seq<char>),
}

impl View for BatchOp {
    type V = BatchOpView;

    open spec fn view(&self) -> BatchOpView {
        match self {
            BatchOp::Put(d) => BatchOpView::Put(d@),
            BatchOp::Delete(p) => BatchOpView::Delete(p@),
        }
    }
}

pub open spec fn ops_view(v: Seq<BatchOp>) -> Seq<BatchOpView> {
    v.map_values(|o: BatchOp| o@)
}

/// An in-memory collection of operations, applied in order.
#[derive(Debug)]
pub struct Batch {
    ops: Vec<BatchOp>,
}

impl Batch {
    /// The operations, in the order they were added.
    pub closed spec fn ops(&self) -> Seq<BatchOpView> {
        ops_view(self.ops@)
    }

    /// Create a new batch.
    pub fn new() -> (b: Self)
        ensures
            b.ops() == Seq::<BatchOpView>::empty(),
    {
        let b = Batch { ops: Vec::new() };
        assert(b.ops() =~= Seq::<BatchOpView>::empty());
        b
    }

    /// Add a put operation to the batch.
    pub fn put_json(&mut self, doc: JsonValue) -> (r: Result<(), MinistoreError>)
        ensures
            r is Ok,
            final(self).ops() == old(self).ops().push(BatchOpView::Put(doc@)),
    {
        let ghost before = self.ops@;
        let ghost dv = doc@;
        self.ops.push(BatchOp::Put(doc));
        assert(ops_view(self.ops@) =~= ops_view(before).push(BatchOpView::Put(dv)));
        Ok(())
    }

    /// Add a delete operation to the batch.
    pub fn delete(&mut self, path: String) -> (r: Result<(), MinistoreError>)
        ensures
            r is Ok,
            final(self).ops() == old(self).ops().push(BatchOpView::Delete(path@)),
    {
        let ghost before = self.ops@;
        let ghost pv = path@;
        self.ops.push(BatchOp::Delete(path));
        assert(ops_view(self.ops@) =~= ops_view(before).push(BatchOpView::Delete(pv)));
        Ok(())
    }

    /// Get the number of operations in the batch.
    pub fn len(&self) -> (n: usize)
        ensures
            n == self.ops().len(),
    {
        self.ops.len()
    }

    /// Check if the batch is empty.
    pub fn is_empty(&self) -> (b: bool)
        ensures
            b == (self.ops().len() == 0),
    {
        self.ops.len() == 0
    }

    /// The operations, to apply in order.
    pub fn into_ops(self) -> (v: Vec<BatchOp>)
        ensures
            ops_view(v@) == self.ops(),
    {
        self.ops
    }
}

impl Default for Batch {
    fn default() -> (b: Self)
        ensures
            b.ops() == Seq::<BatchOpView>::empty(),
    {
        Batch::new()
    }
}

/// The state of a writer that applies operations inside one transaction: how
/// many changed an item, and whether one failed, which dooms the transaction.
#[derive(Debug)]
pub struct BatchWriter {
    count: usize,
    failed: bool,
}

pub open spec fn rollback_error() -> ErrorView {
    ErrorView::Internal("batch transaction is already marked for rollback"@)
}

impl View for BatchWriter {
    type V = (nat, bool);

    closed spec fn view(&self) -> (nat, bool) {
        (self.count as nat, self.failed)
    }
}

impl BatchWriter {
    /// A writer at the start of its transaction.
    pub fn new() -> (w: Self)
        ensures
            w@ == (0nat, false),
    {
        BatchWriter { count: 0, failed: false }
    }

    /// How many operations changed an item.
    pub fn count(&self) -> (n: usize)
        ensures
            n == self@.0,
    {
        self.count
    }

    /// Whether an operation failed.
    pub fn failed(&self) -> (b: bool)
        ensures
            b == self@.1,
    {
        self.failed
    }

    /// A writer takes operations until one fails.
    pub fn ready(&self) -> (r: Result<(), MinistoreError>)
        ensures
            r is Ok <==> !self@.1,
            r is Err ==> r->Err_0@ == rollback_error(),
    {
        if self.failed {
            return Err(MinistoreError::Internal(String::from_str("batch transaction is already marked for rollback")));
        }
        Ok(())
    }

    /// Start a put: check the writer, then the document against the schema; a
    /// document the schema refuses fails the writer.
    pub fn begin_put(&mut self, schema: &Schema, doc: JsonValue) -> (r: Result<PutPrepared, MinistoreError>)
        ensures
            final(self)@.0 == old(self)@.0,
            old(self)@.1 ==> r is Err && r->Err_0@ == rollback_error() && final(self)@.1,
            !old(self)@.1 ==> match (r, prepare_spec(schema.entries(), doc@)) {
                (Ok(p), Ok((path, st))) => p.path@ == path && p.data_json@ == json_text(doc@) && p.state() == st && !final(self)@.1,
                (Err(e), Err(x)) => e@ == x && final(self)@.1,
                _ => false,
            },
    {
        self.ready()?;
        match prepare_put(schema, doc) {
            Ok(p) => Ok(p),
            Err(e) => {
                self.failed = true;
                Err(e)
            },
        }
    }

    /// Start a delete: check the writer, then the path; an empty path fails the
    /// writer.
    pub fn begin_delete(&mut self, path: &str) -> (r: Result<(), MinistoreError>)
        ensures
            final(self)@.0 == old(self)@.0,
            old(self)@.1 ==> r is Err && r->Err_0@ == rollback_error() && final(self)@.1,
            !old(self)@.1 && path@.len() == 0 ==> r is Err && r->Err_0@ == ErrorView::InvalidArgument("path cannot be empty"@) && final(self)@.1,
            !old(self)@.1 && path@.len() > 0 ==> r is Ok && !final(self)@.1,
    {
        self.ready()?;
        if path.unicode_len() == 0 {
            self.failed = true;
            return Err(MinistoreError::InvalidArgument(String::from_str("path cannot be empty")));
        }
        Ok(())
    }

    /// Finish an operation with what storing it gave: whether it changed an
    /// item, or its error, which fails the writer.
    pub fn finish(&mut self, outcome: Result<bool, MinistoreError>) -> (r: Result<(), MinistoreError>)
        requires
            old(self)@.0 < usize::MAX,
        ensures
            match outcome {
                Ok(changed) => r is Ok && final(self)@ == (old(self)@.0 + if changed { 1nat } else { 0nat }, old(self)@.1),
                Err(e) => r is Err && r->Err_0@ == e@ && final(self)@ == (old(self)@.0, true),
            },
    {
        match outcome {
            Ok(changed) => {
                if changed {
                    self.count = self.count + 1;
                }
                Ok(())
            },
            Err(e) => {
                self.failed = true;
                Err(e)
            },
        }
    }

    /// What the transaction ends with: the count where nothing failed, else a
    /// rollback.
    pub fn outcome(&self) -> (r: Result<usize, MinistoreError>)
        ensures
            !self@.1 ==> r is Ok && r->Ok_0 == self@.0,
            self@.1 ==> r is Err && r->Err_0@ == ErrorView::Internal("batch operation failed; transaction rolled back"@),
    {
        if self.failed {
            Err(MinistoreError::Internal(String::from_str("batch operation failed; transaction rolled back")))
        } else {
            Ok(self.count)
        }
    }
}

} // verus!

//! The batches that an operation is at work on, and the requests to stop them.
use vstd::prelude::*;

use crate::batch::busy;
use crate::error::AppError;
use crate::text::same_text;

verus! {

/// A batch that an operation is at work on.
#[derive(Debug)]
struct ActiveBatch {
    batch_id: String,
    stop_requested: bool,
}

/// The batches that an operation is at work on.
#[derive(Debug)]
pub struct ActiveBatches {
    entries: Vec<ActiveBatch>,
}

/// The batches in `entries`, each with whether it is to stop.
spec fn active(entries: Seq<ActiveBatch>) -> Map<Seq<char>, bool>
    decreases entries.len(),
{
    if entries.len() == 0 {
        Map::empty()
    } else {
        active(entries.drop_last()).insert(
            entries.last().batch_id@,
            entries.last().stop_requested,
        )
    }
}

impl View for ActiveBatches {
    type V = Map<Seq<char>, bool>;

    closed spec fn view(&self) -> Map<Seq<char>, bool> {
        active(self.entries@)
    }
}

impl ActiveBatches {
    /// No batch.
    pub fn new() -> (r: Self)
        ensures
            r@ == Map::<Seq<char>, bool>::empty(),
    {
        ActiveBatches { entries: Vec::new() }
    }

    /// Whether the batch is to stop, where an operation is at work on it.
    fn find(&self, batch_id: &str) -> (r: Option<bool>)
        ensures
            r == if self@.dom().contains(batch_id@) {
                Some(self@[batch_id@])
            } else {
                None
            },
    {
        let mut n: usize = self.entries.len();
        assert(self.entries@.take(n as int) == self.entries@);
        while n > 0
            invariant
                n <= self.entries.len(),
                self@.dom().contains(batch_id@) == active(self.entries@.take(n as int)).dom().contains(
                    batch_id@,
                ),
                self@.dom().contains(batch_id@) ==> self@[batch_id@] == active(
                    self.entries@.take(n as int),
                )[batch_id@],
            decreases n,
        {
            n = n - 1;
            assert(self.entries@.take(n + 1).drop_last() == self.entries@.take(n as int));
            if same_text(self.entries[n].batch_id.as_str(), batch_id) {
                return Some(self.entries[n].stop_requested);
            }
        }
        None
    }

    /// Takes the batch up, unless an operation is at work on it.
    pub fn acquire(&mut self, batch_id: &str) -> (r: Result<(), AppError>)
        ensures
            match r {
                Ok(_) => !old(self)@.dom().contains(batch_id@) && final(self)@ == old(self)@.insert(
                    batch_id@,
                    false,
                ),
                Err(e) => old(self)@.dom().contains(batch_id@) && final(self)@ == old(self)@ && e@
                    == busy(),
            },
    {
        match self.find(batch_id) {
            Some(_) => Err(
                AppError::validation("BATCH_BUSY", "此批次正在执行，请等待当前操作完成"),
            ),
            None => {
                let ghost before = self.entries@;
                self.entries.push(
                    ActiveBatch { batch_id: batch_id.to_owned(), stop_requested: false },
                );
                assert(self.entries@.drop_last() == before);
                Ok(())
            },
        }
    }

    /// Puts the batch down.
    pub fn release(&mut self, batch_id: &str)
        ensures
            final(self)@ == old(self)@.remove(batch_id@),
    {
        let ghost before = self.entries@;
        let mut entries: Vec<ActiveBatch> = Vec::new();
        std::mem::swap(&mut entries, &mut self.entries);
        let mut kept: Vec<ActiveBatch> = Vec::new();
        assert(active(kept@) =~= active(before.take(0)).remove(batch_id@));
        for entry in it: entries
            invariant
                it.seq() == before,
                active(kept@) == active(before.take(it.index())).remove(batch_id@),
        {
            assert(before.take(it.index() + 1).drop_last() == before.take(it.index()));
            let ghost so_far = kept@;
            if !same_text(entry.batch_id.as_str(), batch_id) {
                kept.push(entry);
                assert(kept@.drop_last() == so_far);
            }
            assert(active(kept@) =~= active(before.take(it.index() + 1)).remove(batch_id@));
        }
        assert(before.take(before.len() as int) == before);
        self.entries = kept;
    }

    /// Asks the operation that is at work on the batch to stop; whether there is one.
    pub fn request_stop(&mut self, batch_id: &str) -> (r: bool)
        ensures
            r == old(self)@.dom().contains(batch_id@),
            final(self)@ == if r {
                old(self)@.insert(batch_id@, true)
            } else {
                old(self)@
            },
    {
        match self.find(batch_id) {
            Some(_) => {
                self.release(batch_id);
                let ghost others = self.entries@;
                self.entries.push(
                    ActiveBatch { batch_id: batch_id.to_owned(), stop_requested: true },
                );
                assert(self.entries@.drop_last() == others);
                assert(self@ =~= old(self)@.insert(batch_id@, true));
                true
            },
            None => false,
        }
    }

    /// Whether the batch is to stop.
    pub fn stop_requested(&self, batch_id: &str) -> (r: bool)
        ensures
            r == (self@.dom().contains(batch_id@) && self@[batch_id@]),
    {
        match self.find(batch_id) {
            Some(stop) => stop,
            None => false,
        }
    }
}

} // verus!

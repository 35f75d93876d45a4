//! The delayed deletion of segment files that left the playlist.
use vstd::prelude::*;

verus! {

/// Files to delete together, and when.
#[derive(Debug)]
pub struct Batch {
    pub due_ms: u64,
    pub files: Vec<String>,
}

/// When a batch handed over at `now_ms` with `delay_ms` falls due: after one
/// and a half times the delay, saturating at the end of time.
pub open spec fn due_time(now_ms: u64, delay_ms: u64) -> u64 {
    let wait: int = delay_ms as int + delay_ms as int / 2;
    if now_ms as int + wait <= u64::MAX as int {
        (now_ms as int + wait) as u64
    } else {
        u64::MAX
    }
}

/// The batches of `bs` due at `now_ms`, in order.
pub open spec fn due_batches(bs: Seq<Batch>, now_ms: u64) -> Seq<Batch>
    decreases bs.len(),
{
    if bs.len() == 0 {
        Seq::empty()
    } else if bs.last().due_ms <= now_ms {
        due_batches(bs.drop_last(), now_ms).push(bs.last())
    } else {
        due_batches(bs.drop_last(), now_ms)
    }
}

/// The batches of `bs` not yet due at `now_ms`, in order.
pub open spec fn pending_batches(bs: Seq<Batch>, now_ms: u64) -> Seq<Batch>
    decreases bs.len(),
{
    if bs.len() == 0 {
        Seq::empty()
    } else if bs.last().due_ms <= now_ms {
        pending_batches(bs.drop_last(), now_ms)
    } else {
        pending_batches(bs.drop_last(), now_ms).push(bs.last())
    }
}

pub struct Reaper {
    batches: Vec<Batch>,
}

impl Reaper {
    pub closed spec fn batches_spec(&self) -> Seq<Batch> {
        self.batches@
    }

    pub fn new() -> (r: Reaper)
        ensures
            r.batches_spec().len() == 0,
    {
        Reaper { batches: Vec::new() }
    }

    /// Queues `files` for deletion `delay_ms` times one and a half from `now_ms`.
    pub fn schedule(&mut self, now_ms: u64, delay_ms: u64, files: Vec<String>)
        ensures
            final(self).batches_spec() == old(self).batches_spec().push(
                Batch { due_ms: due_time(now_ms, delay_ms), files },
            ),
    {
        let half = delay_ms / 2;
        let due = if now_ms <= u64::MAX - delay_ms && now_ms + delay_ms <= u64::MAX - half {
            now_ms + delay_ms + half
        } else {
            u64::MAX
        };
        self.batches.push(Batch { due_ms: due, files });
    }

    /// Takes out the batches due at `now_ms`, in the order they came; the
    /// others stay, in order.
    pub fn take_due(&mut self, now_ms: u64) -> (r: Vec<Batch>)
        ensures
            r@ == due_batches(old(self).batches_spec(), now_ms),
            final(self).batches_spec() == pending_batches(old(self).batches_spec(), now_ms),
    {
        let ghost all = self.batches@;
        let mut rest: Vec<Batch> = Vec::new();
        std::mem::swap(&mut rest, &mut self.batches);
        let mut due: Vec<Batch> = Vec::new();
        while rest.len() > 0
            invariant
                rest@ == all.skip(all.len() - rest@.len()),
                rest@.len() <= all.len(),
                due@ == due_batches(all.take(all.len() - rest@.len()), now_ms),
                self.batches@ == pending_batches(all.take(all.len() - rest@.len()), now_ms),
            decreases rest@.len(),
        {
            let ghost k = all.len() - rest@.len();
            let b = rest.remove(0);
            proof {
                assert(b == all[k]);
                assert(all.take(k + 1).drop_last() =~= all.take(k));
                assert(all.take(k + 1).last() == all[k]);
                assert(rest@ =~= all.skip(k + 1));
            }
            if b.due_ms <= now_ms {
                due.push(b);
            } else {
                self.batches.push(b);
            }
        }
        assert(all.take(all.len() as int) =~= all);
        due
    }
}

/// A batch handed over at `now_ms` with `delay_ms` is handed out for
/// deletion by the first `take_due` at or after one and a half times the
/// delay, after the batches due before it; earlier it stays queued.
pub proof fn lemma_batch_falls_due(bs: Seq<Batch>, b: Batch, now_ms: u64, delay_ms: u64, t: u64)
    requires
        b.due_ms == due_time(now_ms, delay_ms),
    ensures
        t >= due_time(now_ms, delay_ms) ==> due_batches(bs.push(b), t) == due_batches(bs, t).push(b)
            && pending_batches(bs.push(b), t) == pending_batches(bs, t),
        t < due_time(now_ms, delay_ms) ==> due_batches(bs.push(b), t) == due_batches(bs, t)
            && pending_batches(bs.push(b), t) == pending_batches(bs, t).push(b),
{
    assert(bs.push(b).drop_last() =~= bs);
}

} // verus!

//! Vote aggregation: casting and removing vote edges, idempotently, and the
//! fresh per-target count each returns. A vote edge is a unique
//! `(target, voter)` pair; casting one that exists and removing one that
//! does not are both no-ops, never errors.

use vstd::prelude::*;
use crate::error::Error;
use crate::model::{
    Forum, VoteKind, add_edge_exec, count_for, count_for_exec, find_comment_by_id,
    find_thread_by_id, has_comment_id, has_thread_id, remove_edge_exec, spec_add_edge,
    spec_remove_edge,
};

verus! {

impl Forum {
    /// Casts `voter`'s vote on the target item: inserts the vote edge,
    /// idempotently, and returns the fresh total for the target. The target
    /// must resolve; nothing else changes.
    pub fn cast(&mut self, kind: VoteKind, target: i64, voter: i64) -> (r: Result<u64, Error>)
        requires
            old(self).wf(),
        ensures
            final(self).wf(),
            final(self).users == old(self).users,
            final(self).threads == old(self).threads,
            final(self).comments == old(self).comments,
            final(self).follows == old(self).follows,
            final(self).next_user_id == old(self).next_user_id,
            final(self).next_thread_id == old(self).next_thread_id,
            final(self).next_comment_id == old(self).next_comment_id,
            match kind {
                VoteKind::Thread => final(self).comment_votes == old(self).comment_votes && match r {
                    Ok(c) => has_thread_id(old(self).threads@, target) && final(self).thread_votes@ == spec_add_edge(old(self).thread_votes@, target, voter) && c
                        == count_for(final(self).thread_votes@, target),
                    Err(e) => e == Error::NotFound && !has_thread_id(old(self).threads@, target)
                        && final(self).thread_votes == old(self).thread_votes,
                },
                VoteKind::Comment => final(self).thread_votes == old(self).thread_votes && match r {
                    Ok(c) => has_comment_id(old(self).comments@, target) && final(self).comment_votes@ == spec_add_edge(old(self).comment_votes@, target, voter) && c
                        == count_for(final(self).comment_votes@, target),
                    Err(e) => e == Error::NotFound && !has_comment_id(old(self).comments@, target)
                        && final(self).comment_votes == old(self).comment_votes,
                },
            },
    {
        match kind {
            VoteKind::Thread => {
                if find_thread_by_id(&self.threads, target).is_none() {
                    return Err(Error::NotFound);
                }
                add_edge_exec(&mut self.thread_votes, target, voter);
                let c = count_for_exec(&self.thread_votes, target);
                Ok(c)
            },
            VoteKind::Comment => {
                if find_comment_by_id(&self.comments, target).is_none() {
                    return Err(Error::NotFound);
                }
                add_edge_exec(&mut self.comment_votes, target, voter);
                let c = count_for_exec(&self.comment_votes, target);
                Ok(c)
            },
        }
    }

    /// Removes `voter`'s vote from the target item if it is present — a
    /// vote that was never cast is a no-op, not an error — and returns the
    /// fresh total for the target. The target must resolve; nothing else
    /// changes.
    pub fn uncast(&mut self, kind: VoteKind, target: i64, voter: i64) -> (r: Result<u64, Error>)
        requires
            old(self).wf(),
        ensures
            final(self).wf(),
            final(self).users == old(self).users,
            final(self).threads == old(self).threads,
            final(self).comments == old(self).comments,
            final(self).follows == old(self).follows,
            final(self).next_user_id == old(self).next_user_id,
            final(self).next_thread_id == old(self).next_thread_id,
            final(self).next_comment_id == old(self).next_comment_id,
            match kind {
                VoteKind::Thread => final(self).comment_votes == old(self).comment_votes && match r {
                    Ok(c) => has_thread_id(old(self).threads@, target) && final(self).thread_votes@ == spec_remove_edge(old(self).thread_votes@, target, voter) && c
                        == count_for(final(self).thread_votes@, target),
                    Err(e) => e == Error::NotFound && !has_thread_id(old(self).threads@, target)
                        && final(self).thread_votes == old(self).thread_votes,
                },
                VoteKind::Comment => final(self).thread_votes == old(self).thread_votes && match r {
                    Ok(c) => has_comment_id(old(self).comments@, target) && final(self).comment_votes@ == spec_remove_edge(old(self).comment_votes@, target, voter)
                        && c == count_for(final(self).comment_votes@, target),
                    Err(e) => e == Error::NotFound && !has_comment_id(old(self).comments@, target)
                        && final(self).comment_votes == old(self).comment_votes,
                },
            },
    {
        match kind {
            VoteKind::Thread => {
                if find_thread_by_id(&self.threads, target).is_none() {
                    return Err(Error::NotFound);
                }
                remove_edge_exec(&mut self.thread_votes, target, voter);
                proof {
                    crate::model::lemma_remove_edge_members(old(self).thread_votes@, self.thread_votes@, target, voter);
                }
                let c = count_for_exec(&self.thread_votes, target);
                Ok(c)
            },
            VoteKind::Comment => {
                if find_comment_by_id(&self.comments, target).is_none() {
                    return Err(Error::NotFound);
                }
                remove_edge_exec(&mut self.comment_votes, target, voter);
                proof {
                    crate::model::lemma_remove_edge_members(
                        old(self).comment_votes@,
                        self.comment_votes@,
                        target,
                        voter,
                    );
                }
                let c = count_for_exec(&self.comment_votes, target);
                Ok(c)
            },
        }
    }
}

} // verus!

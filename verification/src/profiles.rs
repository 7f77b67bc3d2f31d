//! The follow graph and profile aggregation: following and unfollowing by
//! username, both idempotent, and the profile read. A profile's score is the
//! count of votes received across all of the user's threads, computed fresh
//! on every read, never cached.

use vstd::prelude::*;
use crate::error::Error;
use crate::model::{
    Forum, ThreadRec, add_edge_exec, find_thread_by_id, find_user_by_name, has_username,
    remove_edge_exec, spec_add_edge, spec_remove_edge, user_idx_by_name,
};

verus! {

/// What a profile read answers with: the username, the user's thread-vote
/// score, and the account's creation timestamp.
#[derive(Debug)]
pub struct Profile {
    pub username: String,
    pub score: u64,
    pub created_at: i64,
}

/// Whether one vote edge targets a thread authored by `author`.
pub open spec fn vote_for_author(threads: Seq<ThreadRec>, edge: (i64, i64), author: i64) -> bool {
    exists|i: int| 0 <= i < threads.len() && threads[i].id == edge.0 && threads[i].author_id == author
}

/// The score of `author`: how many vote edges target threads they authored.
pub open spec fn spec_score(threads: Seq<ThreadRec>, votes: Seq<(i64, i64)>, author: i64) -> nat
    decreases votes.len(),
{
    if votes.len() == 0 {
        0
    } else {
        spec_score(threads, votes.drop_last(), author) + if vote_for_author(
            threads,
            votes.last(),
            author,
        ) {
            1nat
        } else {
            0nat
        }
    }
}

impl Forum {
    /// The profile of the user at index `i`: username, fresh score, creation
    /// timestamp.
    pub open spec fn spec_profile(self, i: int) -> Profile {
        Profile {
            username: self.users@[i].username,
            score: spec_score(self.threads@, self.thread_votes@, self.users@[i].id) as u64,
            created_at: self.users@[i].created_at,
        }
    }

    /// Computes `author`'s score fresh: one pass over the vote edges,
    /// counting those whose thread the author owns.
    fn score_exec(&self, author: i64) -> (c: u64)
        requires
            self.wf(),
        ensures
            c == spec_score(self.threads@, self.thread_votes@, author),
    {
        let mut c: u64 = 0;
        let mut i: usize = 0;
        while i < self.thread_votes.len()
            invariant
                i <= self.thread_votes@.len(),
                c <= i,
                self.wf(),
                c == spec_score(self.threads@, self.thread_votes@.subrange(0, i as int), author),
            decreases self.thread_votes@.len() - i,
        {
            proof {
                assert(self.thread_votes@.subrange(0, i + 1).drop_last() =~= self.thread_votes@.subrange(
                    0,
                    i as int,
                ));
            }
            let edge = self.thread_votes[i];
            let counts = match find_thread_by_id(&self.threads, edge.0) {
                Some(ti) => {
                    proof {
                        if self.threads@[ti as int].author_id != author {
                            assert forall|k: int|
                                0 <= k < self.threads@.len() && self.threads@[k].id == edge.0
                                    implies self.threads@[k].author_id != author by {
                                assert(k == ti as int);
                            }
                        }
                    }
                    self.threads[ti].author_id == author
                },
                None => false,
            };
            if counts {
                c = c + 1;
            }
            i = i + 1;
        }
        proof {
            assert(self.thread_votes@.subrange(0, self.thread_votes@.len() as int)
                =~= self.thread_votes@);
        }
        c
    }

    /// Builds the profile view of the user at index `i`.
    fn profile_exec(&self, i: usize) -> (r: Profile)
        requires
            self.wf(),
            i < self.users@.len(),
        ensures
            r == self.spec_profile(i as int),
    {
        let user = &self.users[i];
        let score = self.score_exec(user.id);
        Profile { username: user.username.clone(), score, created_at: user.created_at }
    }

    /// Follows the user at `followee_username`: inserts the follow edge
    /// idempotently and answers with the followee's fresh profile. An
    /// unresolvable username is `NotFound`; following oneself is `Forbidden`
    /// and creates no edge.
    pub fn follow(&mut self, follower: i64, followee_username: &str) -> (r: Result<Profile, Error>)
        requires
            old(self).wf(),
        ensures
            final(self).wf(),
            final(self).users == old(self).users,
            final(self).threads == old(self).threads,
            final(self).comments == old(self).comments,
            final(self).thread_votes == old(self).thread_votes,
            final(self).comment_votes == old(self).comment_votes,
            final(self).next_user_id == old(self).next_user_id,
            final(self).next_thread_id == old(self).next_thread_id,
            final(self).next_comment_id == old(self).next_comment_id,
            match r {
                Ok(p) => {
                    &&& has_username(old(self).users@, followee_username@)
                    &&& {
                        let k = user_idx_by_name(old(self).users@, followee_username@);
                        old(self).users@[k].id != follower && final(self).follows@ == spec_add_edge(
                            old(self).follows@,
                            old(self).users@[k].id,
                            follower,
                        ) && p == old(self).spec_profile(k)
                    }
                },
                Err(e) => final(self).follows == old(self).follows && if !has_username(
                    old(self).users@,
                    followee_username@,
                ) {
                    e == Error::NotFound
                } else {
                    e == Error::Forbidden && old(self).users@[user_idx_by_name(
                        old(self).users@,
                        followee_username@,
                    )].id == follower
                },
            },
    {
        let ui = match find_user_by_name(&self.users, followee_username) {
            None => {
                return Err(Error::NotFound);
            },
            Some(u) => u,
        };
        proof {
            let k = user_idx_by_name(self.users@, followee_username@);
            assert(self.users@[k].username@ == followee_username@);
            assert(k == ui as int);
        }
        let followee = self.users[ui].id;
        if followee == follower {
            return Err(Error::Forbidden);
        }
        let profile = self.profile_exec(ui);
        proof {
            assert(crate::model::has_user_id(self.users@, followee));
        }
        add_edge_exec(&mut self.follows, followee, follower);
        Ok(profile)
    }

    /// Unfollows the user at `followee_username`: deletes the follow edge —
    /// deleting one that never existed is a no-op, not an error — and
    /// answers with the followee's fresh profile. An unresolvable username
    /// is `NotFound`.
    pub fn unfollow(&mut self, follower: i64, followee_username: &str) -> (r: Result<
        Profile,
        Error,
    >)
        requires
            old(self).wf(),
        ensures
            final(self).wf(),
            final(self).users == old(self).users,
            final(self).threads == old(self).threads,
            final(self).comments == old(self).comments,
            final(self).thread_votes == old(self).thread_votes,
            final(self).comment_votes == old(self).comment_votes,
            final(self).next_user_id == old(self).next_user_id,
            final(self).next_thread_id == old(self).next_thread_id,
            final(self).next_comment_id == old(self).next_comment_id,
            match r {
                Ok(p) => {
                    &&& has_username(old(self).users@, followee_username@)
                    &&& {
                        let k = user_idx_by_name(old(self).users@, followee_username@);
                        final(self).follows@ == spec_remove_edge(
                            old(self).follows@,
                            old(self).users@[k].id,
                            follower,
                        ) && p == old(self).spec_profile(k)
                    }
                },
                Err(e) => e == Error::NotFound && !has_username(
                    old(self).users@,
                    followee_username@,
                ) && final(self).follows == old(self).follows,
            },
    {
        let ui = match find_user_by_name(&self.users, followee_username) {
            None => {
                return Err(Error::NotFound);
            },
            Some(u) => u,
        };
        proof {
            let k = user_idx_by_name(self.users@, followee_username@);
            assert(self.users@[k].username@ == followee_username@);
            assert(k == ui as int);
        }
        let followee = self.users[ui].id;
        let profile = self.profile_exec(ui);
        remove_edge_exec(&mut self.follows, followee, follower);
        proof {
            crate::model::lemma_remove_edge_members(
                old(self).follows@,
                self.follows@,
                followee,
                follower,
            );
        }
        Ok(profile)
    }

    /// Reads the profile of the user at `username`: username, fresh
    /// thread-vote score, creation timestamp. An unresolvable username is
    /// `NotFound`.
    pub fn profile(&self, username: &str) -> (r: Result<Profile, Error>)
        requires
            self.wf(),
        ensures
            match r {
                Ok(p) => has_username(self.users@, username@) && p == self.spec_profile(
                    user_idx_by_name(self.users@, username@),
                ),
                Err(e) => e == Error::NotFound && !has_username(self.users@, username@),
            },
    {
        let ui = match find_user_by_name(&self.users, username) {
            None => {
                return Err(Error::NotFound);
            },
            Some(u) => u,
        };
        proof {
            let k = user_idx_by_name(self.users@, username@);
            assert(self.users@[k].username@ == username@);
            assert(k == ui as int);
        }
        Ok(self.profile_exec(ui))
    }
}

} // verus!

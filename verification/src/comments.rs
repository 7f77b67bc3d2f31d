//! The comment forest: root comments and replies under a thread, single and
//! listed reads with viewer-scoped vote state, and comment voting. Clients
//! refer to comments by the base-36 form of their identifier; the forest is
//! expanded one level at a time, so list reads return direct children only.

use vstd::prelude::*;
use crate::base36::{decode36, spec_decode36};
use crate::error::Error;
use crate::model::{
    CommentRec, Forum, VoteKind, comment_idx_in_thread, count_for, find_comment_in_thread,
    find_thread_by_slug, find_user_by_id, has_comment_in_thread, has_edge, has_slug,
    has_thread_id, has_user_id, insert_key_desc, insert_key_sorted, lemma_comments_push,
    lemma_count_for_zero, lemma_insert_key_members, thread_idx_by_slug, user_idx_by_id,
};

verus! {

/// What a read returns for one comment: the stored fields, the author's
/// username, and the vote state scoped to the viewer.
#[derive(Debug)]
pub struct Comment {
    pub id: i64,
    pub pid: Option<i64>,
    pub author_id: i64,
    pub username: String,
    pub content: String,
    pub created_at: i64,
    pub is_voted: bool,
    pub vote_count: u64,
}

/// The sort keys of the records among the first `i` that `keep` selects,
/// ordered newest first.
pub open spec fn comment_keys(
    recs: Seq<CommentRec>,
    keep: spec_fn(CommentRec) -> bool,
    i: int,
) -> Seq<(i64, i64, usize)>
    decreases i,
{
    if i <= 0 {
        Seq::empty()
    } else {
        let prev = comment_keys(recs, keep, i - 1);
        if keep(recs[i - 1]) {
            insert_key_desc(prev, (recs[i - 1].created_at, recs[i - 1].id, (i - 1) as usize))
        } else {
            prev
        }
    }
}

/// Every sort key points below `i` and carries the timestamp and identifier
/// of the record it points at.
proof fn lemma_comment_keys_members(
    recs: Seq<CommentRec>,
    keep: spec_fn(CommentRec) -> bool,
    i: int,
)
    requires
        0 <= i <= usize::MAX,
    ensures
        forall|j: int|
            0 <= j < comment_keys(recs, keep, i).len() ==> (#[trigger] comment_keys(
                recs,
                keep,
                i,
            )[j]).2 < i && comment_keys(recs, keep, i)[j].0 == recs[comment_keys(
                recs,
                keep,
                i,
            )[j].2 as int].created_at && comment_keys(recs, keep, i)[j].1 == recs[comment_keys(
                recs,
                keep,
                i,
            )[j].2 as int].id,
    decreases i,
{
    if i > 0 {
        lemma_comment_keys_members(recs, keep, i - 1);
        let prev = comment_keys(recs, keep, i - 1);
        if keep(recs[i - 1]) {
            let v = (recs[i - 1].created_at, recs[i - 1].id, (i - 1) as usize);
            lemma_insert_key_members(prev, v);
            assert forall|j: int| 0 <= j < comment_keys(recs, keep, i).len() implies (
            #[trigger] comment_keys(recs, keep, i)[j]).2 < i && comment_keys(recs, keep, i)[j].0
                == recs[comment_keys(recs, keep, i)[j].2 as int].created_at && comment_keys(
                recs,
                keep,
                i,
            )[j].1 == recs[comment_keys(recs, keep, i)[j].2 as int].id by {
                let cur = comment_keys(recs, keep, i)[j];
                if cur != v {
                    let k = choose|k: int| 0 <= k < prev.len() && prev[k] == cur;
                    assert(prev[k].2 < i - 1 + 1);
                }
            }
        }
    }
}

/// The sort keys stand in listing order.
proof fn lemma_comment_keys_sorted(
    recs: Seq<CommentRec>,
    keep: spec_fn(CommentRec) -> bool,
    i: int,
)
    requires
        0 <= i,
    ensures
        crate::model::keys_sorted(comment_keys(recs, keep, i)),
    decreases i,
{
    if i > 0 {
        lemma_comment_keys_sorted(recs, keep, i - 1);
        if keep(recs[i - 1]) {
            crate::model::lemma_insert_key_desc_sorted(
                comment_keys(recs, keep, i - 1),
                (recs[i - 1].created_at, recs[i - 1].id, (i - 1) as usize),
            );
        }
    }
}

/// The view at each position of a keyed listing is the view of the record
/// its key points at.
proof fn lemma_comment_views_index(f: Forum, ks: Seq<(i64, i64, usize)>, viewer: Option<i64>)
    ensures
        f.comment_views_of_keys(ks, viewer).len() == ks.len(),
        forall|m: int|
            0 <= m < ks.len() ==> #[trigger] f.comment_views_of_keys(ks, viewer)[m]
                == f.spec_comment_view(f.comments@[ks[m].2 as int], viewer),
    decreases ks.len(),
{
    if ks.len() > 0 {
        lemma_comment_views_index(f, ks.drop_last(), viewer);
        assert forall|m: int| 0 <= m < ks.len() implies #[trigger] f.comment_views_of_keys(
            ks,
            viewer,
        )[m] == f.spec_comment_view(f.comments@[ks[m].2 as int], viewer) by {
            if m < ks.len() - 1 {
                assert(ks.drop_last()[m] == ks[m]);
                assert(f.comment_views_of_keys(ks, viewer)[m] == f.comment_views_of_keys(
                    ks.drop_last(),
                    viewer,
                )[m]);
            }
        }
    }
}

/// Selects the root comments of thread `tid`.
pub open spec fn keep_top_level(tid: i64) -> spec_fn(CommentRec) -> bool {
    |c: CommentRec| c.thread_id == tid && c.parent_id is None
}

/// Selects the direct children of comment `pid` within thread `tid`.
pub open spec fn keep_children(tid: i64, pid: i64) -> spec_fn(CommentRec) -> bool {
    |c: CommentRec| c.thread_id == tid && c.parent_id == Some(pid)
}

impl Forum {
    /// The view of one comment record for a given viewer: `is_voted` is the
    /// viewer's own membership in the comment's vote set, always false
    /// without a viewer, and `vote_count` the cardinality of that set.
    pub open spec fn spec_comment_view(self, c: CommentRec, viewer: Option<i64>) -> Comment {
        Comment {
            id: c.id,
            pid: c.parent_id,
            author_id: c.author_id,
            username: self.users@[user_idx_by_id(self.users@, c.author_id)].username,
            content: c.content,
            created_at: c.created_at,
            is_voted: match viewer {
                Some(v) => has_edge(self.comment_votes@, c.id, v),
                None => false,
            },
            vote_count: count_for(self.comment_votes@, c.id) as u64,
        }
    }

    /// The comment views standing at the given sort keys, in key order.
    pub open spec fn comment_views_of_keys(
        self,
        ks: Seq<(i64, i64, usize)>,
        viewer: Option<i64>,
    ) -> Seq<Comment>
        decreases ks.len(),
    {
        if ks.len() == 0 {
            Seq::empty()
        } else {
            self.comment_views_of_keys(ks.drop_last(), viewer).push(
                self.spec_comment_view(self.comments@[ks.last().2 as int], viewer),
            )
        }
    }

    /// The listing of the comments that `keep` selects: newest first, ties
    /// in insertion order, each with vote state scoped to `viewer`.
    pub open spec fn spec_comment_listing(
        self,
        keep: spec_fn(CommentRec) -> bool,
        viewer: Option<i64>,
    ) -> Seq<Comment> {
        self.comment_views_of_keys(
            comment_keys(self.comments@, keep, self.comments@.len() as int),
            viewer,
        )
    }

    /// Builds the view of the comment record at index `i`.
    fn comment_view_exec(&self, i: usize, viewer: Option<i64>) -> (r: Comment)
        requires
            self.wf(),
            i < self.comments@.len(),
        ensures
            r == self.spec_comment_view(self.comments@[i as int], viewer),
    {
        let c = &self.comments[i];
        proof {
            assert(has_user_id(self.users@, self.comments@[i as int].author_id));
        }
        let ui = match find_user_by_id(&self.users, c.author_id) {
            Some(u) => u,
            None => 0,
        };
        proof {
            let k = user_idx_by_id(self.users@, c.author_id);
            assert(self.users@[k].id == c.author_id);
            assert(k == ui as int);
        }
        let is_voted = match viewer {
            Some(v) => crate::model::has_edge_exec(&self.comment_votes, c.id, v),
            None => false,
        };
        let vote_count = crate::model::count_for_exec(&self.comment_votes, c.id);
        Comment {
            id: c.id,
            pid: c.parent_id,
            author_id: c.author_id,
            username: self.users[ui].username.clone(),
            content: c.content.clone(),
            created_at: c.created_at,
            is_voted,
            vote_count,
        }
    }

    /// Inserts a comment under the thread at `slug`, with the given parent,
    /// and returns its view. The slug must already have been resolved to
    /// `tid`; the parent, if any, must already have been resolved within the
    /// same thread — which is what keeps the forest's thread-consistency
    /// invariant.
    fn insert_comment(
        &mut self,
        tid: i64,
        parent_id: Option<i64>,
        author: i64,
        content: &str,
        now: i64,
    ) -> (r: Result<Comment, Error>)
        requires
            old(self).wf(),
            old(self).next_comment_id < i64::MAX,
            has_thread_id(old(self).threads@, tid),
            match parent_id {
                Some(p) => has_comment_in_thread(old(self).comments@, p, tid),
                None => true,
            },
        ensures
            final(self).wf(),
            match r {
                Ok(view) => {
                    &&& has_user_id(old(self).users@, author)
                    &&& final(self).comments@.len() == old(self).comments@.len() + 1
                    &&& final(self).comments@.subrange(0, old(self).comments@.len() as int) == old(
                        self,
                    ).comments@
                    &&& final(self).comments@.last().id == old(self).next_comment_id
                    &&& final(self).comments@.last().thread_id == tid
                    &&& final(self).comments@.last().parent_id == parent_id
                    &&& final(self).comments@.last().author_id == author
                    &&& final(self).comments@.last().content@ == content@
                    &&& final(self).comments@.last().created_at == now
                    &&& final(self).next_comment_id == old(self).next_comment_id + 1
                    &&& final(self).users == old(self).users
                    &&& final(self).threads == old(self).threads
                    &&& final(self).thread_votes == old(self).thread_votes
                    &&& final(self).comment_votes == old(self).comment_votes
                    &&& final(self).follows == old(self).follows
                    &&& final(self).next_user_id == old(self).next_user_id
                    &&& final(self).next_thread_id == old(self).next_thread_id
                    &&& view == final(self).spec_comment_view(final(self).comments@.last(), None)
                    &&& view.vote_count == 0
                    &&& view.is_voted == false
                },
                Err(e) => e == Error::Internal && !has_user_id(old(self).users@, author)
                    && final(self).same_state(*old(self)),
            },
    {
        if find_user_by_id(&self.users, author).is_none() {
            return Err(Error::Internal);
        }
        let rec = CommentRec {
            id: self.next_comment_id,
            thread_id: tid,
            parent_id,
            author_id: author,
            content: content.to_owned(),
            created_at: now,
        };
        let new_id = self.next_comment_id;
        proof {
            lemma_comments_push(self.comments@, rec);
        }
        self.comments.push(rec);
        self.next_comment_id = self.next_comment_id + 1;
        proof {
            assert forall|i: int| 0 <= i < self.comment_votes@.len() implies (
            #[trigger] self.comment_votes@[i]).0 != new_id by {
                assert(crate::model::has_comment_id(
                    old(self).comments@,
                    self.comment_votes@[i].0,
                ));
                let k = choose|k: int|
                    0 <= k < old(self).comments@.len() && old(self).comments@[k].id
                        == self.comment_votes@[i].0;
                assert(old(self).comments@[k].id < new_id);
            }
            lemma_count_for_zero(self.comment_votes@, new_id);
        }
        let view = self.comment_view_exec(self.comments.len() - 1, None);
        Ok(view)
    }

    /// Creates a root comment — one with no parent — under the thread at
    /// `slug`; a slug that does not resolve is `NotFound`, an author that
    /// does not resolve an internal failure.
    pub fn create_root(&mut self, slug: &str, author: i64, content: &str, now: i64) -> (r: Result<
        Comment,
        Error,
    >)
        requires
            old(self).wf(),
            old(self).next_comment_id < i64::MAX,
        ensures
            final(self).wf(),
            match r {
                Ok(view) => {
                    &&& has_slug(old(self).threads@, slug@)
                    &&& has_user_id(old(self).users@, author)
                    &&& final(self).comments@.len() == old(self).comments@.len() + 1
                    &&& final(self).comments@.subrange(0, old(self).comments@.len() as int) == old(
                        self,
                    ).comments@
                    &&& final(self).comments@.last().id == old(self).next_comment_id
                    &&& final(self).comments@.last().thread_id == old(self).threads@[
                        thread_idx_by_slug(old(self).threads@, slug@)
                    ].id
                    &&& final(self).comments@.last().parent_id is None
                    &&& final(self).comments@.last().author_id == author
                    &&& final(self).comments@.last().content@ == content@
                    &&& final(self).comments@.last().created_at == now
                    &&& final(self).next_comment_id == old(self).next_comment_id + 1
                    &&& final(self).users == old(self).users
                    &&& final(self).threads == old(self).threads
                    &&& final(self).thread_votes == old(self).thread_votes
                    &&& final(self).comment_votes == old(self).comment_votes
                    &&& final(self).follows == old(self).follows
                    &&& view == final(self).spec_comment_view(final(self).comments@.last(), None)
                    &&& view.vote_count == 0
                    &&& view.is_voted == false
                },
                Err(e) => final(self).same_state(*old(self)) && if !has_slug(
                    old(self).threads@,
                    slug@,
                ) {
                    e == Error::NotFound
                } else {
                    e == Error::Internal && !has_user_id(old(self).users@, author)
                },
            },
    {
        let ti = match find_thread_by_slug(&self.threads, slug) {
            None => {
                return Err(Error::NotFound);
            },
            Some(i) => i,
        };
        let tid = self.threads[ti].id;
        proof {
            let k = thread_idx_by_slug(self.threads@, slug@);
            assert(self.threads@[k].slug@ == slug@);
            assert(k == ti as int);
            assert(has_thread_id(self.threads@, tid));
        }
        self.insert_comment(tid, None, author, content, now)
    }

    /// Creates a reply to the comment referred to by `parent_ref` (in
    /// base-36) under the thread at `slug`. The parent lookup is scoped to
    /// the resolved thread, so a parent in another thread is `NotFound`,
    /// never a cross-thread edge; an unresolvable slug or reference is
    /// `NotFound` too, and an author that does not resolve an internal
    /// failure.
    pub fn create_reply(
        &mut self,
        slug: &str,
        parent_ref: &str,
        author: i64,
        content: &str,
        now: i64,
    ) -> (r: Result<Comment, Error>)
        requires
            old(self).wf(),
            old(self).next_comment_id < i64::MAX,
        ensures
            final(self).wf(),
            match r {
                Ok(view) => {
                    &&& has_slug(old(self).threads@, slug@)
                    &&& spec_decode36(parent_ref@) matches Some(pid) && has_comment_in_thread(
                        old(self).comments@,
                        pid,
                        old(self).threads@[thread_idx_by_slug(old(self).threads@, slug@)].id,
                    )
                    &&& has_user_id(old(self).users@, author)
                    &&& final(self).comments@.len() == old(self).comments@.len() + 1
                    &&& final(self).comments@.subrange(0, old(self).comments@.len() as int) == old(
                        self,
                    ).comments@
                    &&& final(self).comments@.last().id == old(self).next_comment_id
                    &&& final(self).comments@.last().thread_id == old(self).threads@[
                        thread_idx_by_slug(old(self).threads@, slug@)
                    ].id
                    &&& final(self).comments@.last().parent_id == spec_decode36(parent_ref@)
                    &&& final(self).comments@.last().author_id == author
                    &&& final(self).comments@.last().content@ == content@
                    &&& final(self).comments@.last().created_at == now
                    &&& final(self).next_comment_id == old(self).next_comment_id + 1
                    &&& final(self).users == old(self).users
                    &&& final(self).threads == old(self).threads
                    &&& final(self).thread_votes == old(self).thread_votes
                    &&& final(self).comment_votes == old(self).comment_votes
                    &&& final(self).follows == old(self).follows
                    &&& view == final(self).spec_comment_view(final(self).comments@.last(), None)
                    &&& view.vote_count == 0
                    &&& view.is_voted == false
                },
                Err(e) => final(self).same_state(*old(self)) && if !has_slug(
                    old(self).threads@,
                    slug@,
                ) {
                    e == Error::NotFound
                } else if !(spec_decode36(parent_ref@) matches Some(pid) && has_comment_in_thread(
                    old(self).comments@,
                    pid,
                    old(self).threads@[thread_idx_by_slug(old(self).threads@, slug@)].id,
                )) {
                    e == Error::NotFound
                } else {
                    e == Error::Internal && !has_user_id(old(self).users@, author)
                },
            },
    {
        let ti = match find_thread_by_slug(&self.threads, slug) {
            None => {
                return Err(Error::NotFound);
            },
            Some(i) => i,
        };
        let tid = self.threads[ti].id;
        proof {
            let k = thread_idx_by_slug(self.threads@, slug@);
            assert(self.threads@[k].slug@ == slug@);
            assert(k == ti as int);
            assert(has_thread_id(self.threads@, tid));
        }
        let pid = match decode36(parent_ref) {
            None => {
                return Err(Error::NotFound);
            },
            Some(p) => p,
        };
        if find_comment_in_thread(&self.comments, pid, tid).is_none() {
            return Err(Error::NotFound);
        }
        self.insert_comment(tid, Some(pid), author, content, now)
    }

    /// Reads one comment by its base-36 reference within the thread at
    /// `slug`, with vote state scoped to the viewer; an unresolvable slug or
    /// reference is `NotFound`.
    pub fn get_by_id(&self, slug: &str, id_ref: &str, viewer: Option<i64>) -> (r: Result<
        Comment,
        Error,
    >)
        requires
            self.wf(),
        ensures
            match r {
                Ok(view) => {
                    &&& has_slug(self.threads@, slug@)
                    &&& spec_decode36(id_ref@) matches Some(cid) && has_comment_in_thread(
                        self.comments@,
                        cid,
                        self.threads@[thread_idx_by_slug(self.threads@, slug@)].id,
                    ) && view == self.spec_comment_view(
                        self.comments@[comment_idx_in_thread(
                            self.comments@,
                            cid,
                            self.threads@[thread_idx_by_slug(self.threads@, slug@)].id,
                        )],
                        viewer,
                    )
                },
                Err(e) => e == Error::NotFound && (!has_slug(self.threads@, slug@) || !(
                spec_decode36(id_ref@) matches Some(cid) && has_comment_in_thread(
                    self.comments@,
                    cid,
                    self.threads@[thread_idx_by_slug(self.threads@, slug@)].id,
                ))),
            },
    {
        let ti = match find_thread_by_slug(&self.threads, slug) {
            None => {
                return Err(Error::NotFound);
            },
            Some(i) => i,
        };
        let tid = self.threads[ti].id;
        proof {
            let k = thread_idx_by_slug(self.threads@, slug@);
            assert(self.threads@[k].slug@ == slug@);
            assert(k == ti as int);
        }
        let cid = match decode36(id_ref) {
            None => {
                return Err(Error::NotFound);
            },
            Some(c) => c,
        };
        let ci = match find_comment_in_thread(&self.comments, cid, tid) {
            None => {
                return Err(Error::NotFound);
            },
            Some(c) => c,
        };
        proof {
            let k = comment_idx_in_thread(self.comments@, cid, tid);
            assert(self.comments@[k].id == cid && self.comments@[k].thread_id == tid);
            assert(k == ci as int);
        }
        Ok(self.comment_view_exec(ci, viewer))
    }

    /// Lists the root comments of the thread at `slug`, newest first, with
    /// vote state scoped to the viewer; a slug that does not resolve is
    /// `NotFound`.
    pub fn list_top_level(&self, slug: &str, viewer: Option<i64>) -> (r: Result<Vec<Comment>, Error>)
        requires
            self.wf(),
        ensures
            match r {
                Ok(views) => has_slug(self.threads@, slug@) && views@ == self.spec_comment_listing(
                    keep_top_level(
                        self.threads@[thread_idx_by_slug(self.threads@, slug@)].id,
                    ),
                    viewer,
                ),
                Err(e) => e == Error::NotFound && !has_slug(self.threads@, slug@),
            },
            r matches Ok(views) ==> forall|i: int, j: int|
                0 <= i < j < views@.len() ==> #[trigger] views@[i].created_at
                    >= #[trigger] views@[j].created_at,
    {
        let ti = match find_thread_by_slug(&self.threads, slug) {
            None => {
                return Err(Error::NotFound);
            },
            Some(i) => i,
        };
        let tid = self.threads[ti].id;
        proof {
            let k = thread_idx_by_slug(self.threads@, slug@);
            assert(self.threads@[k].slug@ == slug@);
            assert(k == ti as int);
        }
        let mut keys: Vec<(i64, i64, usize)> = Vec::new();
        let mut i: usize = 0;
        while i < self.comments.len()
            invariant
                i <= self.comments@.len(),
                keys@ == comment_keys(self.comments@, keep_top_level(tid), i as int),
            decreases self.comments@.len() - i,
        {
            let c = &self.comments[i];
            if c.thread_id == tid && c.parent_id.is_none() {
                insert_key_sorted(&mut keys, (c.created_at, c.id, i));
            }
            i = i + 1;
        }
        proof {
            lemma_comment_keys_members(
                self.comments@,
                keep_top_level(tid),
                self.comments@.len() as int,
            );
        }
        let views = self.comment_views_for_keys(keys, viewer);
        proof {
            lemma_comment_keys_sorted(self.comments@, keep_top_level(tid), self.comments@.len() as int);
            lemma_comment_views_index(*self, keys@, viewer);
            assert forall|i: int, j: int|
                0 <= i < j < views@.len() implies #[trigger] views@[i].created_at
                >= #[trigger] views@[j].created_at by {
                assert(!crate::model::key_newer(keys@[j], keys@[i]));
                assert(views@[i] == self.spec_comment_view(self.comments@[keys@[i].2 as int], viewer));
                assert(views@[j] == self.spec_comment_view(self.comments@[keys@[j].2 as int], viewer));
            }
        }
        Ok(views)
    }

    /// Lists the direct children — one expansion level, not the whole
    /// subtree — of the comment referred to by `parent_ref` within the
    /// thread at `slug`, newest first. No viewer is taken, so `is_voted` is
    /// false throughout; an unresolvable slug or reference is `NotFound`.
    pub fn list_children(&self, slug: &str, parent_ref: &str) -> (r: Result<Vec<Comment>, Error>)
        requires
            self.wf(),
        ensures
            match r {
                Ok(views) => {
                    &&& has_slug(self.threads@, slug@)
                    &&& spec_decode36(parent_ref@) matches Some(pid) && views@
                        == self.spec_comment_listing(
                        keep_children(
                            self.threads@[thread_idx_by_slug(self.threads@, slug@)].id,
                            pid,
                        ),
                        None,
                    )
                },
                Err(e) => e == Error::NotFound && (!has_slug(self.threads@, slug@) || spec_decode36(
                    parent_ref@,
                ) is None),
            },
            r matches Ok(views) ==> forall|i: int, j: int|
                0 <= i < j < views@.len() ==> #[trigger] views@[i].created_at
                    >= #[trigger] views@[j].created_at,
    {
        let ti = match find_thread_by_slug(&self.threads, slug) {
            None => {
                return Err(Error::NotFound);
            },
            Some(i) => i,
        };
        let tid = self.threads[ti].id;
        proof {
            let k = thread_idx_by_slug(self.threads@, slug@);
            assert(self.threads@[k].slug@ == slug@);
            assert(k == ti as int);
        }
        let pid = match decode36(parent_ref) {
            None => {
                return Err(Error::NotFound);
            },
            Some(p) => p,
        };
        let mut keys: Vec<(i64, i64, usize)> = Vec::new();
        let mut i: usize = 0;
        while i < self.comments.len()
            invariant
                i <= self.comments@.len(),
                keys@ == comment_keys(self.comments@, keep_children(tid, pid), i as int),
            decreases self.comments@.len() - i,
        {
            let c = &self.comments[i];
            let is_child = match c.parent_id {
                Some(p) => p == pid,
                None => false,
            };
            if c.thread_id == tid && is_child {
                insert_key_sorted(&mut keys, (c.created_at, c.id, i));
            }
            i = i + 1;
        }
        proof {
            lemma_comment_keys_members(
                self.comments@,
                keep_children(tid, pid),
                self.comments@.len() as int,
            );
        }
        let views = self.comment_views_for_keys(keys, None);
        proof {
            lemma_comment_keys_sorted(
                self.comments@,
                keep_children(tid, pid),
                self.comments@.len() as int,
            );
            lemma_comment_views_index(*self, keys@, None);
            assert forall|i: int, j: int|
                0 <= i < j < views@.len() implies #[trigger] views@[i].created_at
                >= #[trigger] views@[j].created_at by {
                assert(!crate::model::key_newer(keys@[j], keys@[i]));
                assert(views@[i] == self.spec_comment_view(self.comments@[keys@[i].2 as int], None));
                assert(views@[j] == self.spec_comment_view(self.comments@[keys@[j].2 as int], None));
            }
        }
        Ok(views)
    }

    /// Builds the views standing at the given sort keys, in order.
    fn comment_views_for_keys(&self, keys: Vec<(i64, i64, usize)>, viewer: Option<i64>) -> (r: Vec<
        Comment,
    >)
        requires
            self.wf(),
            forall|j: int| 0 <= j < keys@.len() ==> (#[trigger] keys@[j]).2 < self.comments@.len(),
        ensures
            r@ == self.comment_views_of_keys(keys@, viewer),
    {
        let mut out: Vec<Comment> = Vec::new();
        let mut j: usize = 0;
        while j < keys.len()
            invariant
                j <= keys@.len(),
                self.wf(),
                forall|m: int| 0 <= m < keys@.len() ==> (#[trigger] keys@[m]).2
                    < self.comments@.len(),
                out@ == self.comment_views_of_keys(keys@.subrange(0, j as int), viewer),
            decreases keys@.len() - j,
        {
            proof {
                assert(keys@.subrange(0, j + 1).drop_last() =~= keys@.subrange(0, j as int));
                assert(keys@.subrange(0, j + 1).last() == keys@[j as int]);
            }
            let k = keys[j];
            out.push(self.comment_view_exec(k.2, viewer));
            j = j + 1;
        }
        proof {
            assert(keys@.subrange(0, keys@.len() as int) =~= keys@);
        }
        out
    }

    /// Casts `voter`'s vote on the comment referred to by `id_ref` (in
    /// base-36) and returns the fresh total; a reference that does not
    /// decode or resolve is `NotFound`.
    pub fn vote_comment(&mut self, id_ref: &str, voter: i64) -> (r: Result<u64, Error>)
        requires
            old(self).wf(),
        ensures
            final(self).wf(),
            match r {
                Ok(c) => {
                    &&& spec_decode36(id_ref@) matches Some(cid) && crate::model::has_comment_id(
                        old(self).comments@,
                        cid,
                    ) && final(self).comment_votes@ == crate::model::spec_add_edge(
                        old(self).comment_votes@,
                        cid,
                        voter,
                    ) && c == count_for(final(self).comment_votes@, cid)
                    &&& final(self).users == old(self).users
                    &&& final(self).threads == old(self).threads
                    &&& final(self).comments == old(self).comments
                    &&& final(self).thread_votes == old(self).thread_votes
                    &&& final(self).follows == old(self).follows
                    &&& final(self).next_user_id == old(self).next_user_id
                    &&& final(self).next_thread_id == old(self).next_thread_id
                    &&& final(self).next_comment_id == old(self).next_comment_id
                },
                Err(e) => e == Error::NotFound && final(self).same_state(*old(self)) && !(
                spec_decode36(id_ref@) matches Some(cid) && crate::model::has_comment_id(
                    old(self).comments@,
                    cid,
                )),
            },
    {
        let cid = match decode36(id_ref) {
            None => {
                return Err(Error::NotFound);
            },
            Some(c) => c,
        };
        self.cast(VoteKind::Comment, cid, voter)
    }

    /// Removes `voter`'s vote from the comment referred to by `id_ref`, a
    /// no-op if it was never cast, and returns the fresh total; a reference
    /// that does not decode or resolve is `NotFound`.
    pub fn unvote_comment(&mut self, id_ref: &str, voter: i64) -> (r: Result<u64, Error>)
        requires
            old(self).wf(),
        ensures
            final(self).wf(),
            match r {
                Ok(c) => {
                    &&& spec_decode36(id_ref@) matches Some(cid) && crate::model::has_comment_id(
                        old(self).comments@,
                        cid,
                    ) && final(self).comment_votes@ == crate::model::spec_remove_edge(
                        old(self).comment_votes@,
                        cid,
                        voter,
                    ) && c == count_for(final(self).comment_votes@, cid)
                    &&& final(self).users == old(self).users
                    &&& final(self).threads == old(self).threads
                    &&& final(self).comments == old(self).comments
                    &&& final(self).thread_votes == old(self).thread_votes
                    &&& final(self).follows == old(self).follows
                    &&& final(self).next_user_id == old(self).next_user_id
                    &&& final(self).next_thread_id == old(self).next_thread_id
                    &&& final(self).next_comment_id == old(self).next_comment_id
                },
                Err(e) => e == Error::NotFound && final(self).same_state(*old(self)) && !(
                spec_decode36(id_ref@) matches Some(cid) && crate::model::has_comment_id(
                    old(self).comments@,
                    cid,
                )),
            },
    {
        let cid = match decode36(id_ref) {
            None => {
                return Err(Error::NotFound);
            },
            Some(c) => c,
        };
        self.uncast(VoteKind::Comment, cid, voter)
    }
}

} // verus!

//! Threads: creation with a unique slug derived from the title, single and
//! listed reads with viewer-scoped vote state, and thread voting.

use vstd::prelude::*;
use crate::error::Error;
use crate::model::{
    Forum, ThreadRec, VoteKind, count_for, find_thread_by_slug, find_user_by_id, has_edge,
    has_slug, has_thread_id, has_user_id, insert_key_desc, insert_key_sorted,
    lemma_count_for_zero, lemma_insert_key_members, lemma_threads_push, thread_idx_by_slug,
    user_idx_by_id,
};
use crate::slug::{slugify, spec_slugify};

verus! {

/// What a read returns for one thread: the stored fields, the author's
/// username, and the vote state scoped to the viewer.
#[derive(Debug)]
pub struct Thread {
    pub author_id: i64,
    pub username: String,
    pub slug: String,
    pub title: String,
    pub content: String,
    pub created_at: i64,
    pub is_voted: bool,
    pub vote_count: u64,
}

/// The sort keys of the records among the first `i` that `keep` selects,
/// ordered newest first.
pub open spec fn thread_keys(recs: Seq<ThreadRec>, keep: spec_fn(ThreadRec) -> bool, i: int) -> Seq<
    (i64, i64, usize),
>
    decreases i,
{
    if i <= 0 {
        Seq::empty()
    } else {
        let prev = thread_keys(recs, keep, i - 1);
        if keep(recs[i - 1]) {
            insert_key_desc(prev, (recs[i - 1].created_at, recs[i - 1].id, (i - 1) as usize))
        } else {
            prev
        }
    }
}

/// Every sort key points below `i` and carries the timestamp and identifier
/// of the record it points at.
proof fn lemma_thread_keys_members(recs: Seq<ThreadRec>, keep: spec_fn(ThreadRec) -> bool, i: int)
    requires
        0 <= i <= usize::MAX,
    ensures
        forall|j: int|
            0 <= j < thread_keys(recs, keep, i).len() ==> (#[trigger] thread_keys(recs, keep, i)[j]).2
                < i && thread_keys(recs, keep, i)[j].0 == recs[thread_keys(recs, keep, i)[j].2 as int].created_at
                && thread_keys(recs, keep, i)[j].1 == recs[thread_keys(recs, keep, i)[j].2 as int].id,
    decreases i,
{
    if i > 0 {
        lemma_thread_keys_members(recs, keep, i - 1);
        let prev = thread_keys(recs, keep, i - 1);
        if keep(recs[i - 1]) {
            let v = (recs[i - 1].created_at, recs[i - 1].id, (i - 1) as usize);
            lemma_insert_key_members(prev, v);
            assert forall|j: int| 0 <= j < thread_keys(recs, keep, i).len() implies (
            #[trigger] thread_keys(recs, keep, i)[j]).2 < i && thread_keys(recs, keep, i)[j].0
                == recs[thread_keys(recs, keep, i)[j].2 as int].created_at && thread_keys(
                recs,
                keep,
                i,
            )[j].1 == recs[thread_keys(recs, keep, i)[j].2 as int].id by {
                let cur = thread_keys(recs, keep, i)[j];
                if cur != v {
                    let k = choose|k: int| 0 <= k < prev.len() && prev[k] == cur;
                    assert(prev[k].2 < i - 1 + 1);
                }
            }
        }
    }
}

/// The sort keys stand in listing order.
proof fn lemma_thread_keys_sorted(recs: Seq<ThreadRec>, keep: spec_fn(ThreadRec) -> bool, i: int)
    requires
        0 <= i,
    ensures
        crate::model::keys_sorted(thread_keys(recs, keep, i)),
    decreases i,
{
    if i > 0 {
        lemma_thread_keys_sorted(recs, keep, i - 1);
        if keep(recs[i - 1]) {
            crate::model::lemma_insert_key_desc_sorted(
                thread_keys(recs, keep, i - 1),
                (recs[i - 1].created_at, recs[i - 1].id, (i - 1) as usize),
            );
        }
    }
}

/// The view at each position of a keyed listing is the view of the record
/// its key points at.
proof fn lemma_thread_views_index(f: Forum, ks: Seq<(i64, i64, usize)>, viewer: Option<i64>)
    ensures
        f.thread_views_of_keys(ks, viewer).len() == ks.len(),
        forall|m: int|
            0 <= m < ks.len() ==> #[trigger] f.thread_views_of_keys(ks, viewer)[m]
                == f.spec_thread_view(f.threads@[ks[m].2 as int], viewer),
    decreases ks.len(),
{
    if ks.len() > 0 {
        lemma_thread_views_index(f, ks.drop_last(), viewer);
        assert forall|m: int| 0 <= m < ks.len() implies #[trigger] f.thread_views_of_keys(
            ks,
            viewer,
        )[m] == f.spec_thread_view(f.threads@[ks[m].2 as int], viewer) by {
            if m < ks.len() - 1 {
                assert(ks.drop_last()[m] == ks[m]);
                assert(f.thread_views_of_keys(ks, viewer)[m] == f.thread_views_of_keys(
                    ks.drop_last(),
                    viewer,
                )[m]);
            }
        }
    }
}

/// Selects every thread.
pub open spec fn keep_all() -> spec_fn(ThreadRec) -> bool {
    |t: ThreadRec| true
}

/// Selects the threads authored by `uid`.
pub open spec fn keep_by_author(uid: i64) -> spec_fn(ThreadRec) -> bool {
    |t: ThreadRec| t.author_id == uid
}

/// The error that a duplicate slug produces: a validation failure naming the
/// `slug` field.
pub open spec fn is_duplicate_slug_error(e: Error, slug: Seq<char>) -> bool {
    match e {
        Error::UnprocessableEntity { errors } => errors@.len() == 1 && errors@[0].0@ == "slug"@
            && errors@[0].1@ == "duplicate thread slug: "@ + slug,
        _ => false,
    }
}

impl Forum {
    /// The view of one thread record for a given viewer: `is_voted` is the
    /// viewer's own membership in the thread's vote set, always false
    /// without a viewer, and `vote_count` the cardinality of that set.
    pub open spec fn spec_thread_view(self, t: ThreadRec, viewer: Option<i64>) -> Thread {
        Thread {
            author_id: t.author_id,
            username: self.users@[user_idx_by_id(self.users@, t.author_id)].username,
            slug: t.slug,
            title: t.title,
            content: t.content,
            created_at: t.created_at,
            is_voted: match viewer {
                Some(v) => has_edge(self.thread_votes@, t.id, v),
                None => false,
            },
            vote_count: count_for(self.thread_votes@, t.id) as u64,
        }
    }

    /// The thread views standing at the given sort keys, in key order.
    pub open spec fn thread_views_of_keys(self, ks: Seq<(i64, i64, usize)>, viewer: Option<i64>) -> Seq<
        Thread,
    >
        decreases ks.len(),
    {
        if ks.len() == 0 {
            Seq::empty()
        } else {
            self.thread_views_of_keys(ks.drop_last(), viewer).push(
                self.spec_thread_view(self.threads@[ks.last().2 as int], viewer),
            )
        }
    }

    /// The listing of the threads that `keep` selects: newest first, ties in
    /// insertion order, each with vote state scoped to `viewer`.
    pub open spec fn spec_thread_listing(
        self,
        keep: spec_fn(ThreadRec) -> bool,
        viewer: Option<i64>,
    ) -> Seq<Thread> {
        self.thread_views_of_keys(
            thread_keys(self.threads@, keep, self.threads@.len() as int),
            viewer,
        )
    }

    /// Builds the view of the thread record at index `i`.
    fn thread_view_exec(&self, i: usize, viewer: Option<i64>) -> (r: Thread)
        requires
            self.wf(),
            i < self.threads@.len(),
        ensures
            r == self.spec_thread_view(self.threads@[i as int], viewer),
    {
        let t = &self.threads[i];
        proof {
            assert(has_user_id(self.users@, self.threads@[i as int].author_id));
        }
        let ui = match find_user_by_id(&self.users, t.author_id) {
            Some(u) => u,
            None => 0,
        };
        proof {
            let k = user_idx_by_id(self.users@, t.author_id);
            assert(self.users@[k].id == t.author_id);
            assert(k == ui as int);
        }
        let is_voted = match viewer {
            Some(v) => crate::model::has_edge_exec(&self.thread_votes, t.id, v),
            None => false,
        };
        let vote_count = crate::model::count_for_exec(&self.thread_votes, t.id);
        Thread {
            author_id: t.author_id,
            username: self.users[ui].username.clone(),
            slug: t.slug.clone(),
            title: t.title.clone(),
            content: t.content.clone(),
            created_at: t.created_at,
            is_voted,
            vote_count,
        }
    }

    /// Creates a thread owned by `author`, deriving its slug from the title
    /// once. A title that normalizes to an already-used slug is rejected as
    /// a validation failure naming the `slug` field, and creates nothing; an
    /// author that does not resolve is an internal failure.
    pub fn create_thread(&mut self, author: i64, title: &str, content: &str, now: i64) -> (r:
        Result<Thread, Error>)
        requires
            old(self).wf(),
            old(self).next_thread_id < i64::MAX,
        ensures
            final(self).wf(),
            match r {
                Ok(view) => {
                    &&& !has_slug(old(self).threads@, spec_slugify(title@))
                    &&& has_user_id(old(self).users@, author)
                    &&& final(self).threads@.len() == old(self).threads@.len() + 1
                    &&& final(self).threads@.subrange(0, old(self).threads@.len() as int) == old(
                        self,
                    ).threads@
                    &&& final(self).threads@.last().id == old(self).next_thread_id
                    &&& final(self).threads@.last().author_id == author
                    &&& final(self).threads@.last().slug@ == spec_slugify(title@)
                    &&& final(self).threads@.last().title@ == title@
                    &&& final(self).threads@.last().content@ == content@
                    &&& final(self).threads@.last().created_at == now
                    &&& final(self).next_thread_id == old(self).next_thread_id + 1
                    &&& final(self).users == old(self).users
                    &&& final(self).comments == old(self).comments
                    &&& final(self).thread_votes == old(self).thread_votes
                    &&& final(self).comment_votes == old(self).comment_votes
                    &&& final(self).follows == old(self).follows
                    &&& final(self).next_user_id == old(self).next_user_id
                    &&& final(self).next_comment_id == old(self).next_comment_id
                    &&& view == final(self).spec_thread_view(final(self).threads@.last(), None)
                    &&& view.vote_count == 0
                    &&& view.is_voted == false
                },
                Err(e) => final(self).same_state(*old(self)) && if has_slug(
                    old(self).threads@,
                    spec_slugify(title@),
                ) {
                    is_duplicate_slug_error(e, spec_slugify(title@))
                } else {
                    !has_user_id(old(self).users@, author) && e == Error::Internal
                },
            },
    {
        let slug_s = slugify(title);
        if find_thread_by_slug(&self.threads, slug_s.as_str()).is_some() {
            let mut msg: String = "duplicate thread slug: ".to_owned();
            msg.append(slug_s.as_str());
            let mut errors: Vec<(String, String)> = Vec::new();
            errors.push(("slug".to_owned(), msg));
            return Err(Error::unprocessable_entity(errors));
        }
        if find_user_by_id(&self.users, author).is_none() {
            return Err(Error::Internal);
        }
        let rec = ThreadRec {
            id: self.next_thread_id,
            author_id: author,
            slug: slug_s,
            title: title.to_owned(),
            content: content.to_owned(),
            created_at: now,
        };
        let new_id = self.next_thread_id;
        proof {
            lemma_threads_push(self.threads@, rec);
        }
        self.threads.push(rec);
        self.next_thread_id = self.next_thread_id + 1;
        proof {
            assert forall|i: int| 0 <= i < self.thread_votes@.len() implies (
            #[trigger] self.thread_votes@[i]).0 != new_id by {
                assert(has_thread_id(old(self).threads@, self.thread_votes@[i].0));
                let k = choose|k: int|
                    0 <= k < old(self).threads@.len() && old(self).threads@[k].id
                        == self.thread_votes@[i].0;
                assert(old(self).threads@[k].id < new_id);
            }
            lemma_count_for_zero(self.thread_votes@, new_id);
        }
        let view = self.thread_view_exec(self.threads.len() - 1, None);
        Ok(view)
    }

    /// Reads one thread by slug, with vote state scoped to the viewer;
    /// a slug that does not resolve is `NotFound`.
    pub fn get_thread(&self, slug: &str, viewer: Option<i64>) -> (r: Result<Thread, Error>)
        requires
            self.wf(),
        ensures
            match r {
                Ok(view) => has_slug(self.threads@, slug@) && view == self.spec_thread_view(
                    self.threads@[thread_idx_by_slug(self.threads@, slug@)],
                    viewer,
                ),
                Err(e) => e == Error::NotFound && !has_slug(self.threads@, slug@),
            },
    {
        match find_thread_by_slug(&self.threads, slug) {
            None => Err(Error::NotFound),
            Some(i) => {
                proof {
                    let k = thread_idx_by_slug(self.threads@, slug@);
                    assert(self.threads@[k].slug@ == slug@);
                    assert(k == i as int);
                }
                Ok(self.thread_view_exec(i, viewer))
            },
        }
    }

    /// Lists every thread, newest first, ties in insertion order, with vote
    /// state scoped to the viewer.
    pub fn list_threads(&self, viewer: Option<i64>) -> (r: Vec<Thread>)
        requires
            self.wf(),
        ensures
            r@ == self.spec_thread_listing(keep_all(), viewer),
            forall|i: int, j: int|
                0 <= i < j < r@.len() ==> #[trigger] r@[i].created_at >= #[trigger] r@[j].created_at,
    {
        let mut keys: Vec<(i64, i64, usize)> = Vec::new();
        let mut i: usize = 0;
        while i < self.threads.len()
            invariant
                i <= self.threads@.len(),
                keys@ == thread_keys(self.threads@, keep_all(), i as int),
            decreases self.threads@.len() - i,
        {
            let t = &self.threads[i];
            insert_key_sorted(&mut keys, (t.created_at, t.id, i));
            i = i + 1;
        }
        proof {
            lemma_thread_keys_members(self.threads@, keep_all(), self.threads@.len() as int);
        }
        let r = self.views_for_keys(keys, viewer);
        proof {
            lemma_thread_keys_sorted(self.threads@, keep_all(), self.threads@.len() as int);
            lemma_thread_views_index(*self, keys@, viewer);
            assert forall|i: int, j: int| 0 <= i < j < r@.len() implies #[trigger] r@[i].created_at
                >= #[trigger] r@[j].created_at by {
                assert(!crate::model::key_newer(keys@[j], keys@[i]));
                assert(r@[i] == self.spec_thread_view(self.threads@[keys@[i].2 as int], viewer));
                assert(r@[j] == self.spec_thread_view(self.threads@[keys@[j].2 as int], viewer));
            }
        }
        r
    }

    /// Lists the threads authored by `username`, newest first; an unknown
    /// username owns no threads, so its listing is empty.
    pub fn list_threads_by_author(&self, username: &str, viewer: Option<i64>) -> (r: Vec<Thread>)
        requires
            self.wf(),
        ensures
            crate::model::has_username(self.users@, username@) ==> r@ == self.spec_thread_listing(
                keep_by_author(
                    self.users@[crate::model::user_idx_by_name(self.users@, username@)].id,
                ),
                viewer,
            ),
            !crate::model::has_username(self.users@, username@) ==> r@.len() == 0,
            forall|i: int, j: int|
                0 <= i < j < r@.len() ==> #[trigger] r@[i].created_at >= #[trigger] r@[j].created_at,
    {
        let ui = match crate::model::find_user_by_name(&self.users, username) {
            None => {
                return Vec::new();
            },
            Some(u) => u,
        };
        let uid = self.users[ui].id;
        proof {
            let k = crate::model::user_idx_by_name(self.users@, username@);
            assert(self.users@[k].username@ == username@);
            assert(k == ui as int);
        }
        let mut keys: Vec<(i64, i64, usize)> = Vec::new();
        let mut i: usize = 0;
        while i < self.threads.len()
            invariant
                i <= self.threads@.len(),
                keys@ == thread_keys(self.threads@, keep_by_author(uid), i as int),
            decreases self.threads@.len() - i,
        {
            let t = &self.threads[i];
            if t.author_id == uid {
                insert_key_sorted(&mut keys, (t.created_at, t.id, i));
            }
            i = i + 1;
        }
        proof {
            lemma_thread_keys_members(self.threads@, keep_by_author(uid), self.threads@.len() as int);
        }
        let r = self.views_for_keys(keys, viewer);
        proof {
            lemma_thread_keys_sorted(self.threads@, keep_by_author(uid), self.threads@.len() as int);
            lemma_thread_views_index(*self, keys@, viewer);
            assert forall|i: int, j: int| 0 <= i < j < r@.len() implies #[trigger] r@[i].created_at
                >= #[trigger] r@[j].created_at by {
                assert(!crate::model::key_newer(keys@[j], keys@[i]));
                assert(r@[i] == self.spec_thread_view(self.threads@[keys@[i].2 as int], viewer));
                assert(r@[j] == self.spec_thread_view(self.threads@[keys@[j].2 as int], viewer));
            }
        }
        r
    }

    /// Builds the views standing at the given sort keys, in order.
    fn views_for_keys(&self, keys: Vec<(i64, i64, usize)>, viewer: Option<i64>) -> (r: Vec<Thread>)
        requires
            self.wf(),
            forall|j: int| 0 <= j < keys@.len() ==> (#[trigger] keys@[j]).2 < self.threads@.len(),
        ensures
            r@ == self.thread_views_of_keys(keys@, viewer),
    {
        let mut out: Vec<Thread> = Vec::new();
        let mut j: usize = 0;
        while j < keys.len()
            invariant
                j <= keys@.len(),
                self.wf(),
                forall|m: int| 0 <= m < keys@.len() ==> (#[trigger] keys@[m]).2
                    < self.threads@.len(),
                out@ == self.thread_views_of_keys(keys@.subrange(0, j as int), viewer),
            decreases keys@.len() - j,
        {
            proof {
                assert(keys@.subrange(0, j + 1).drop_last() =~= keys@.subrange(0, j as int));
                assert(keys@.subrange(0, j + 1).last() == keys@[j as int]);
            }
            let k = keys[j];
            out.push(self.thread_view_exec(k.2, viewer));
            j = j + 1;
        }
        proof {
            assert(keys@.subrange(0, keys@.len() as int) =~= keys@);
        }
        out
    }

    /// Casts `voter`'s vote on the thread at `slug` and returns the fresh
    /// total; a slug that does not resolve is `NotFound`.
    pub fn vote_thread(&mut self, slug: &str, voter: i64) -> (r: Result<u64, Error>)
        requires
            old(self).wf(),
        ensures
            final(self).wf(),
            match r {
                Ok(c) => {
                    &&& has_slug(old(self).threads@, slug@)
                    &&& final(self).thread_votes@ == crate::model::spec_add_edge(
                        old(self).thread_votes@,
                        old(self).threads@[thread_idx_by_slug(old(self).threads@, slug@)].id,
                        voter,
                    )
                    &&& c == count_for(
                        final(self).thread_votes@,
                        old(self).threads@[thread_idx_by_slug(old(self).threads@, slug@)].id,
                    )
                    &&& final(self).users == old(self).users
                    &&& final(self).threads == old(self).threads
                    &&& final(self).comments == old(self).comments
                    &&& final(self).comment_votes == old(self).comment_votes
                    &&& final(self).follows == old(self).follows
                    &&& final(self).next_user_id == old(self).next_user_id
                    &&& final(self).next_thread_id == old(self).next_thread_id
                    &&& final(self).next_comment_id == old(self).next_comment_id
                },
                Err(e) => e == Error::NotFound && !has_slug(old(self).threads@, slug@)
                    && final(self).same_state(*old(self)),
            },
    {
        let i = match find_thread_by_slug(&self.threads, slug) {
            None => {
                return Err(Error::NotFound);
            },
            Some(i) => i,
        };
        let tid = self.threads[i].id;
        proof {
            let k = thread_idx_by_slug(self.threads@, slug@);
            assert(self.threads@[k].slug@ == slug@);
            assert(k == i as int);
            assert(has_thread_id(self.threads@, tid));
        }
        self.cast(VoteKind::Thread, tid, voter)
    }

    /// Removes `voter`'s vote from the thread at `slug`, a no-op if it was
    /// never cast, and returns the fresh total; a slug that does not resolve
    /// is `NotFound`.
    pub fn unvote_thread(&mut self, slug: &str, voter: i64) -> (r: Result<u64, Error>)
        requires
            old(self).wf(),
        ensures
            final(self).wf(),
            match r {
                Ok(c) => {
                    &&& has_slug(old(self).threads@, slug@)
                    &&& final(self).thread_votes@ == crate::model::spec_remove_edge(
                        old(self).thread_votes@,
                        old(self).threads@[thread_idx_by_slug(old(self).threads@, slug@)].id,
                        voter,
                    )
                    &&& c == count_for(
                        final(self).thread_votes@,
                        old(self).threads@[thread_idx_by_slug(old(self).threads@, slug@)].id,
                    )
                    &&& final(self).users == old(self).users
                    &&& final(self).threads == old(self).threads
                    &&& final(self).comments == old(self).comments
                    &&& final(self).comment_votes == old(self).comment_votes
                    &&& final(self).follows == old(self).follows
                    &&& final(self).next_user_id == old(self).next_user_id
                    &&& final(self).next_thread_id == old(self).next_thread_id
                    &&& final(self).next_comment_id == old(self).next_comment_id
                },
                Err(e) => e == Error::NotFound && !has_slug(old(self).threads@, slug@)
                    && final(self).same_state(*old(self)),
            },
    {
        let i = match find_thread_by_slug(&self.threads, slug) {
            None => {
                return Err(Error::NotFound);
            },
            Some(i) => i,
        };
        let tid = self.threads[i].id;
        proof {
            let k = thread_idx_by_slug(self.threads@, slug@);
            assert(self.threads@[k].slug@ == slug@);
            assert(k == i as int);
            assert(has_thread_id(self.threads@, tid));
        }
        self.uncast(VoteKind::Thread, tid, voter)
    }

    /// The fresh vote total of the thread at `slug`; a slug that does not
    /// resolve is `NotFound`.
    pub fn get_votes(&self, slug: &str) -> (r: Result<u64, Error>)
        requires
            self.wf(),
        ensures
            match r {
                Ok(c) => has_slug(self.threads@, slug@) && c == count_for(
                    self.thread_votes@,
                    self.threads@[thread_idx_by_slug(self.threads@, slug@)].id,
                ),
                Err(e) => e == Error::NotFound && !has_slug(self.threads@, slug@),
            },
    {
        match find_thread_by_slug(&self.threads, slug) {
            None => Err(Error::NotFound),
            Some(i) => {
                proof {
                    let k = thread_idx_by_slug(self.threads@, slug@);
                    assert(self.threads@[k].slug@ == slug@);
                    assert(k == i as int);
                }
                Ok(crate::model::count_for_exec(&self.thread_votes, self.threads[i].id))
            },
        }
    }
}

} // verus!

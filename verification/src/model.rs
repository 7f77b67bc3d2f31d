//! The content graph: users, threads, the comment forest, the two vote-edge
//! sets and the follow-edge set, with the invariants the rest of the library
//! relies on — unique identifiers and usernames, unique thread slugs, every
//! comment inside an existing thread with its parent (if any) in the same
//! thread, at most one vote per user per item, and no self-follow edges.

use vstd::prelude::*;

verus! {

/// A registered user: identity, unique username, stored password hash,
/// creation timestamp.
pub struct UserRec {
    pub id: i64,
    pub username: String,
    pub password_hash: String,
    pub created_at: i64,
}

/// A thread: identity, owning author, unique slug derived once from the
/// title, title, body content, creation timestamp.
pub struct ThreadRec {
    pub id: i64,
    pub author_id: i64,
    pub slug: String,
    pub title: String,
    pub content: String,
    pub created_at: i64,
}

/// A comment: identity, the thread it belongs to, an optional parent comment
/// within the same thread, its author, content and creation timestamp.
pub struct CommentRec {
    pub id: i64,
    pub thread_id: i64,
    pub parent_id: Option<i64>,
    pub author_id: i64,
    pub content: String,
    pub created_at: i64,
}

/// Which kind of content item a vote targets.
#[derive(PartialEq, Eq, Structural, Clone, Copy, Debug)]
pub enum VoteKind {
    Thread,
    Comment,
}

/// The whole content graph. Vote edges are `(target id, voter id)` pairs;
/// follow edges are `(followee id, follower id)` pairs.
pub struct Forum {
    pub users: Vec<UserRec>,
    pub threads: Vec<ThreadRec>,
    pub comments: Vec<CommentRec>,
    pub thread_votes: Vec<(i64, i64)>,
    pub comment_votes: Vec<(i64, i64)>,
    pub follows: Vec<(i64, i64)>,
    pub next_user_id: i64,
    pub next_thread_id: i64,
    pub next_comment_id: i64,
}

// ---------------------------------------------------------------------------
// Membership and lookup, in specification form.
// ---------------------------------------------------------------------------
pub open spec fn has_user_id(s: Seq<UserRec>, id: i64) -> bool {
    exists|i: int| 0 <= i < s.len() && s[i].id == id
}

pub open spec fn has_username(s: Seq<UserRec>, name: Seq<char>) -> bool {
    exists|i: int| 0 <= i < s.len() && s[i].username@ == name
}

pub open spec fn has_thread_id(s: Seq<ThreadRec>, id: i64) -> bool {
    exists|i: int| 0 <= i < s.len() && s[i].id == id
}

pub open spec fn has_slug(s: Seq<ThreadRec>, slug: Seq<char>) -> bool {
    exists|i: int| 0 <= i < s.len() && s[i].slug@ == slug
}

pub open spec fn has_comment_id(s: Seq<CommentRec>, id: i64) -> bool {
    exists|i: int| 0 <= i < s.len() && s[i].id == id
}

/// Whether a comment with identifier `id` exists inside thread `tid`.
pub open spec fn has_comment_in_thread(s: Seq<CommentRec>, id: i64, tid: i64) -> bool {
    exists|i: int| 0 <= i < s.len() && s[i].id == id && s[i].thread_id == tid
}

/// The index of the user holding `id`.
pub open spec fn user_idx_by_id(s: Seq<UserRec>, id: i64) -> int {
    choose|i: int| 0 <= i < s.len() && s[i].id == id
}

/// The index of the user holding `name`.
pub open spec fn user_idx_by_name(s: Seq<UserRec>, name: Seq<char>) -> int {
    choose|i: int| 0 <= i < s.len() && s[i].username@ == name
}

/// The index of the thread holding `slug`.
pub open spec fn thread_idx_by_slug(s: Seq<ThreadRec>, slug: Seq<char>) -> int {
    choose|i: int| 0 <= i < s.len() && s[i].slug@ == slug
}

/// The index of the comment holding `id` inside thread `tid`.
pub open spec fn comment_idx_in_thread(s: Seq<CommentRec>, id: i64, tid: i64) -> int {
    choose|i: int| 0 <= i < s.len() && s[i].id == id && s[i].thread_id == tid
}

// ---------------------------------------------------------------------------
// Edge sets: membership, idempotent insertion, removal, per-target count.
// ---------------------------------------------------------------------------
/// Whether the edge `(a, b)` is present.
pub open spec fn has_edge(s: Seq<(i64, i64)>, a: i64, b: i64) -> bool {
    exists|i: int| 0 <= i < s.len() && s[i].0 == a && s[i].1 == b
}

/// The edge set after an idempotent insertion of `(a, b)`: unchanged when
/// the edge is already present.
pub open spec fn spec_add_edge(s: Seq<(i64, i64)>, a: i64, b: i64) -> Seq<(i64, i64)> {
    if has_edge(s, a, b) {
        s
    } else {
        s.push((a, b))
    }
}

/// The index of the edge `(a, b)`.
pub open spec fn edge_idx(s: Seq<(i64, i64)>, a: i64, b: i64) -> int {
    choose|i: int| 0 <= i < s.len() && s[i].0 == a && s[i].1 == b
}

/// The edge set after removal of `(a, b)`: unchanged when the edge is
/// absent.
pub open spec fn spec_remove_edge(s: Seq<(i64, i64)>, a: i64, b: i64) -> Seq<(i64, i64)> {
    if has_edge(s, a, b) {
        s.remove(edge_idx(s, a, b))
    } else {
        s
    }
}

/// How many edges target `a`: the vote count of item `a`.
pub open spec fn count_for(s: Seq<(i64, i64)>, a: i64) -> nat
    decreases s.len(),
{
    if s.len() == 0 {
        0
    } else {
        count_for(s.drop_last(), a) + if s.last().0 == a {
            1nat
        } else {
            0nat
        }
    }
}

/// No edge at all ever targets `a`, so its count is zero and no voter holds
/// an edge to it.
pub proof fn lemma_count_for_zero(s: Seq<(i64, i64)>, a: i64)
    requires
        forall|i: int| 0 <= i < s.len() ==> s[i].0 != a,
    ensures
        count_for(s, a) == 0,
        forall|b: i64| !has_edge(s, a, b),
    decreases s.len(),
{
    if s.len() > 0 {
        lemma_count_for_zero(s.drop_last(), a);
    }
}

/// Casting a vote that is already present changes nothing: insertion is
/// idempotent, so casting twice leaves both the edge set and the count
/// exactly as one cast leaves them.
pub proof fn lemma_add_edge_idempotent(s: Seq<(i64, i64)>, a: i64, b: i64)
    ensures
        spec_add_edge(spec_add_edge(s, a, b), a, b) == spec_add_edge(s, a, b),
        count_for(spec_add_edge(spec_add_edge(s, a, b), a, b), a) == count_for(
            spec_add_edge(s, a, b),
            a,
        ),
{
    if !has_edge(s, a, b) {
        let t = s.push((a, b));
        assert(t[s.len() as int].0 == a && t[s.len() as int].1 == b);
        assert(has_edge(t, a, b));
    }
}

/// Removing an edge that was never cast changes nothing, and is no error:
/// the edge set and every count stay as they were.
pub proof fn lemma_remove_edge_absent(s: Seq<(i64, i64)>, a: i64, b: i64)
    requires
        !has_edge(s, a, b),
    ensures
        spec_remove_edge(s, a, b) == s,
        count_for(spec_remove_edge(s, a, b), a) == count_for(s, a),
{
}

// ---------------------------------------------------------------------------
// Listing order: newest first by creation timestamp, ties broken by
// insertion order. A sort key is `(created_at, id, record index)`;
// identifiers grow in insertion order, so ascending identifier order among
// equal timestamps is the persisted insertion order.
// ---------------------------------------------------------------------------
/// Whether key `a` comes before key `b` in a listing.
pub open spec fn key_newer(a: (i64, i64, usize), b: (i64, i64, usize)) -> bool {
    a.0 > b.0 || (a.0 == b.0 && a.1 < b.1)
}

/// `v` inserted into a listing already in order: before the first key it
/// precedes.
pub open spec fn insert_key_desc(s: Seq<(i64, i64, usize)>, v: (i64, i64, usize)) -> Seq<
    (i64, i64, usize),
>
    decreases s.len(),
{
    if s.len() == 0 {
        seq![v]
    } else if key_newer(v, s[0]) {
        seq![v] + s
    } else {
        seq![s[0]] + insert_key_desc(s.drop_first(), v)
    }
}

/// The ordered insertion lands exactly at the first position whose key `v`
/// precedes.
proof fn lemma_insert_key_at(s: Seq<(i64, i64, usize)>, v: (i64, i64, usize), pos: int)
    requires
        0 <= pos <= s.len(),
        forall|j: int| 0 <= j < pos ==> !key_newer(v, s[j]),
        pos < s.len() ==> key_newer(v, s[pos]),
    ensures
        insert_key_desc(s, v) == s.insert(pos, v),
    decreases pos,
{
    if pos == 0 {
        if s.len() == 0 {
            assert(insert_key_desc(s, v) =~= s.insert(0, v));
        } else {
            assert(insert_key_desc(s, v) =~= s.insert(0, v));
        }
    } else {
        lemma_insert_key_at(s.drop_first(), v, pos - 1);
        assert(seq![s[0]] + s.drop_first().insert(pos - 1, v) =~= s.insert(pos, v));
    }
}

/// Every key of an ordered insertion is either the inserted key or one of
/// the keys that were already there.
pub proof fn lemma_insert_key_members(s: Seq<(i64, i64, usize)>, v: (i64, i64, usize))
    ensures
        forall|j: int|
            0 <= j < insert_key_desc(s, v).len() ==> (insert_key_desc(s, v)[j] == v || exists|
                k: int,
            | 0 <= k < s.len() && s[k] == insert_key_desc(s, v)[j]),
        insert_key_desc(s, v).len() == s.len() + 1,
    decreases s.len(),
{
    if s.len() == 0 {
    } else if key_newer(v, s[0]) {
    } else {
        lemma_insert_key_members(s.drop_first(), v);
        let r = insert_key_desc(s, v);
        assert forall|j: int| 0 <= j < r.len() implies (r[j] == v || exists|k: int|
            0 <= k < s.len() && s[k] == r[j]) by {
            if j == 0 {
                assert(s[0] == r[0]);
            } else {
                let inner = insert_key_desc(s.drop_first(), v);
                assert(r[j] == inner[j - 1]);
                if inner[j - 1] == v {
                } else {
                    let k = choose|k: int| 0 <= k < s.drop_first().len() && s.drop_first()[k]
                        == inner[j - 1];
                    assert(s[k + 1] == r[j]);
                }
            }
        }
    }
}

/// Whether a key sequence is in listing order: no later key precedes an
/// earlier one.
pub open spec fn keys_sorted(s: Seq<(i64, i64, usize)>) -> bool {
    forall|i: int, j: int| 0 <= i < j < s.len() ==> !key_newer(s[j], s[i])
}

/// An ordered insertion keeps the listing in order.
pub proof fn lemma_insert_key_desc_sorted(s: Seq<(i64, i64, usize)>, v: (i64, i64, usize))
    requires
        keys_sorted(s),
    ensures
        keys_sorted(insert_key_desc(s, v)),
    decreases s.len(),
{
    let r = insert_key_desc(s, v);
    if s.len() == 0 {
    } else if key_newer(v, s[0]) {
        assert forall|i: int, j: int| 0 <= i < j < r.len() implies !key_newer(r[j], r[i]) by {
            assert(r[j] == s[j - 1]);
            if i == 0 {
                if j >= 2 {
                    assert(!key_newer(s[j - 1], s[0]));
                }
            } else {
                assert(r[i] == s[i - 1]);
            }
        }
    } else {
        assert(keys_sorted(s.drop_first())) by {
            assert forall|i: int, j: int|
                0 <= i < j < s.drop_first().len() implies !key_newer(
                s.drop_first()[j],
                s.drop_first()[i],
            ) by {
                assert(s.drop_first()[i] == s[i + 1] && s.drop_first()[j] == s[j + 1]);
            }
        }
        lemma_insert_key_desc_sorted(s.drop_first(), v);
        lemma_insert_key_members(s.drop_first(), v);
        let inner = insert_key_desc(s.drop_first(), v);
        assert forall|i: int, j: int| 0 <= i < j < r.len() implies !key_newer(r[j], r[i]) by {
            if i == 0 {
                assert(r[0] == s[0]);
                assert(r[j] == inner[j - 1]);
                if inner[j - 1] == v {
                } else {
                    let k = choose|k: int|
                        0 <= k < s.drop_first().len() && s.drop_first()[k] == inner[j - 1];
                    assert(s[k + 1] == inner[j - 1]);
                }
            } else {
                assert(r[i] == inner[i - 1] && r[j] == inner[j - 1]);
            }
        }
    }
}

/// Inserts a sort key at its ordered position.
pub(crate) fn insert_key_sorted(out: &mut Vec<(i64, i64, usize)>, v: (i64, i64, usize))
    ensures
        final(out)@ == insert_key_desc(old(out)@, v),
{
    let mut pos: usize = 0;
    while pos < out.len() && !(v.0 > out[pos].0 || (v.0 == out[pos].0 && v.1 < out[pos].1))
        invariant
            pos <= out@.len(),
            out@ == old(out)@,
            forall|j: int| 0 <= j < pos ==> !key_newer(v, out@[j]),
        decreases out@.len() - pos,
    {
        pos = pos + 1;
    }
    proof {
        lemma_insert_key_at(out@, v, pos as int);
    }
    out.insert(pos, v);
}

/// After a removal, every remaining edge stood in the set before it, and
/// uniqueness carries over.
pub proof fn lemma_remove_edge_members(before: Seq<(i64, i64)>, after: Seq<(i64, i64)>, a: i64, b: i64)
    requires
        after == spec_remove_edge(before, a, b),
        forall|i: int, j: int|
            0 <= i < before.len() && 0 <= j < before.len() && i != j ==> before[i] != before[j],
    ensures
        forall|i: int| 0 <= i < after.len() ==> before.contains(#[trigger] after[i]),
        forall|i: int, j: int|
            0 <= i < after.len() && 0 <= j < after.len() && i != j ==> after[i] != after[j],
{
    if has_edge(before, a, b) {
        let r = edge_idx(before, a, b);
        assert(0 <= r < before.len() && before[r].0 == a && before[r].1 == b);
        assert(after.len() == before.len() - 1);
        assert forall|i: int| 0 <= i < after.len() implies before.contains(
            #[trigger] after[i],
        ) by {
            if i < r {
                assert(before[i] == after[i]);
            } else {
                assert(before[i + 1] == after[i]);
            }
        }
        assert forall|i: int, j: int|
            0 <= i < after.len() && 0 <= j < after.len() && i != j implies after[i] != after[j] by {
            let i0 = if i < r {
                i
            } else {
                i + 1
            };
            let j0 = if j < r {
                j
            } else {
                j + 1
            };
            assert(before[i0] == after[i]);
            assert(before[j0] == after[j]);
        }
    } else {
        assert forall|i: int| 0 <= i < after.len() implies before.contains(
            #[trigger] after[i],
        ) by {
            assert(before[i] == after[i]);
        }
    }
}

/// Appending a user keeps every existing user reachable.
pub proof fn lemma_users_push(s: Seq<UserRec>, rec: UserRec)
    ensures
        forall|id: i64| has_user_id(s, id) ==> has_user_id(s.push(rec), id),
        forall|name: Seq<char>| has_username(s, name) ==> has_username(s.push(rec), name),
{
    assert forall|id: i64| has_user_id(s, id) implies has_user_id(s.push(rec), id) by {
        let k = choose|k: int| 0 <= k < s.len() && s[k].id == id;
        assert(s.push(rec)[k] == s[k]);
    }
    assert forall|name: Seq<char>| has_username(s, name) implies has_username(
        s.push(rec),
        name,
    ) by {
        let k = choose|k: int| 0 <= k < s.len() && s[k].username@ == name;
        assert(s.push(rec)[k] == s[k]);
    }
}

/// Appending a thread keeps every existing thread reachable.
pub proof fn lemma_threads_push(s: Seq<ThreadRec>, rec: ThreadRec)
    ensures
        forall|id: i64| has_thread_id(s, id) ==> has_thread_id(s.push(rec), id),
        forall|slug: Seq<char>| has_slug(s, slug) ==> has_slug(s.push(rec), slug),
{
    assert forall|id: i64| has_thread_id(s, id) implies has_thread_id(s.push(rec), id) by {
        let k = choose|k: int| 0 <= k < s.len() && s[k].id == id;
        assert(s.push(rec)[k] == s[k]);
    }
    assert forall|slug: Seq<char>| has_slug(s, slug) implies has_slug(s.push(rec), slug) by {
        let k = choose|k: int| 0 <= k < s.len() && s[k].slug@ == slug;
        assert(s.push(rec)[k] == s[k]);
    }
}

/// Appending a comment keeps every existing comment reachable, also inside
/// its thread.
pub proof fn lemma_comments_push(s: Seq<CommentRec>, rec: CommentRec)
    ensures
        forall|id: i64| has_comment_id(s, id) ==> has_comment_id(s.push(rec), id),
        forall|id: i64, tid: i64|
            has_comment_in_thread(s, id, tid) ==> has_comment_in_thread(s.push(rec), id, tid),
{
    assert forall|id: i64| has_comment_id(s, id) implies has_comment_id(s.push(rec), id) by {
        let k = choose|k: int| 0 <= k < s.len() && s[k].id == id;
        assert(s.push(rec)[k] == s[k]);
    }
    assert forall|id: i64, tid: i64| has_comment_in_thread(s, id, tid) implies has_comment_in_thread(
        s.push(rec),
        id,
        tid,
    ) by {
        let k = choose|k: int| 0 <= k < s.len() && s[k].id == id && s[k].thread_id == tid;
        assert(s.push(rec)[k] == s[k]);
    }
}

// ---------------------------------------------------------------------------
// The well-formedness invariant.
// ---------------------------------------------------------------------------
impl Forum {
    /// Identifiers and usernames are unique and below the next-identifier
    /// counters; every thread and comment has an existing author; every
    /// comment sits in an existing thread and its parent, if present, is a
    /// comment of the same thread; vote edges are unique and target existing
    /// items; follow edges are unique, never self-referential, and target an
    /// existing followee.
    pub open spec fn wf(self) -> bool {
        let users = self.users@;
        let threads = self.threads@;
        let comments = self.comments@;
        &&& 1 <= self.next_user_id
        &&& 1 <= self.next_thread_id
        &&& 1 <= self.next_comment_id
        &&& forall|i: int, j: int|
            0 <= i < users.len() && 0 <= j < users.len() && i != j ==> users[i].id != users[j].id
                && users[i].username@ != users[j].username@
        &&& forall|i: int| 0 <= i < users.len() ==> 1 <= #[trigger] users[i].id < self.next_user_id
        &&& forall|i: int, j: int|
            0 <= i < threads.len() && 0 <= j < threads.len() && i != j ==> threads[i].id
                != threads[j].id && threads[i].slug@ != threads[j].slug@
        &&& forall|i: int|
            0 <= i < threads.len() ==> 1 <= #[trigger] threads[i].id < self.next_thread_id
        &&& forall|i: int|
            0 <= i < threads.len() ==> has_user_id(users, #[trigger] threads[i].author_id)
        &&& forall|i: int, j: int|
            0 <= i < comments.len() && 0 <= j < comments.len() && i != j ==> comments[i].id
                != comments[j].id
        &&& forall|i: int|
            0 <= i < comments.len() ==> 1 <= #[trigger] comments[i].id < self.next_comment_id
        &&& forall|i: int|
            0 <= i < comments.len() ==> has_thread_id(threads, #[trigger] comments[i].thread_id)
        &&& forall|i: int|
            0 <= i < comments.len() ==> has_user_id(users, #[trigger] comments[i].author_id)
        &&& forall|i: int|
            0 <= i < comments.len() ==> match #[trigger] comments[i].parent_id {
                Some(p) => has_comment_in_thread(comments, p, comments[i].thread_id),
                None => true,
            }
        &&& forall|i: int, j: int|
            0 <= i < self.thread_votes@.len() && 0 <= j < self.thread_votes@.len() && i != j
                ==> self.thread_votes@[i] != self.thread_votes@[j]
        &&& forall|i: int|
            0 <= i < self.thread_votes@.len() ==> has_thread_id(
                threads,
                #[trigger] self.thread_votes@[i].0,
            )
        &&& forall|i: int, j: int|
            0 <= i < self.comment_votes@.len() && 0 <= j < self.comment_votes@.len() && i != j
                ==> self.comment_votes@[i] != self.comment_votes@[j]
        &&& forall|i: int|
            0 <= i < self.comment_votes@.len() ==> has_comment_id(
                comments,
                #[trigger] self.comment_votes@[i].0,
            )
        &&& forall|i: int, j: int|
            0 <= i < self.follows@.len() && 0 <= j < self.follows@.len() && i != j
                ==> self.follows@[i] != self.follows@[j]
        &&& forall|i: int|
            0 <= i < self.follows@.len() ==> #[trigger] self.follows@[i].0 != self.follows@[i].1
        &&& forall|i: int|
            0 <= i < self.follows@.len() ==> has_user_id(users, #[trigger] self.follows@[i].0)
    }

    /// Whether two states hold exactly the same content.
    pub open spec fn same_state(self, other: Forum) -> bool {
        &&& self.users == other.users
        &&& self.threads == other.threads
        &&& self.comments == other.comments
        &&& self.thread_votes == other.thread_votes
        &&& self.comment_votes == other.comment_votes
        &&& self.follows == other.follows
        &&& self.next_user_id == other.next_user_id
        &&& self.next_thread_id == other.next_thread_id
        &&& self.next_comment_id == other.next_comment_id
    }

    /// A fresh, empty content graph.
    pub fn new() -> (f: Forum)
        ensures
            f.wf(),
            f.users@.len() == 0,
            f.threads@.len() == 0,
            f.comments@.len() == 0,
            f.thread_votes@.len() == 0,
            f.comment_votes@.len() == 0,
            f.follows@.len() == 0,
            f.next_user_id == 1,
            f.next_thread_id == 1,
            f.next_comment_id == 1,
    {
        Forum {
            users: Vec::new(),
            threads: Vec::new(),
            comments: Vec::new(),
            thread_votes: Vec::new(),
            comment_votes: Vec::new(),
            follows: Vec::new(),
            next_user_id: 1,
            next_thread_id: 1,
            next_comment_id: 1,
        }
    }
}

// ---------------------------------------------------------------------------
// Executable lookups and edge operations.
// ---------------------------------------------------------------------------
/// Relies on `str`'s `==`: equality of the two character sequences.
#[verifier::external_body]
pub(crate) fn str_eq(a: &str, b: &str) -> (r: bool)
    ensures
        r == (a@ == b@),
{
    a == b
}

pub(crate) fn find_user_by_name(users: &Vec<UserRec>, name: &str) -> (r: Option<usize>)
    ensures
        match r {
            Some(i) => i < users@.len() && users@[i as int].username@ == name@,
            None => !has_username(users@, name@),
        },
{
    let mut i: usize = 0;
    while i < users.len()
        invariant
            i <= users@.len(),
            forall|j: int| 0 <= j < i ==> users@[j].username@ != name@,
        decreases users@.len() - i,
    {
        if str_eq(users[i].username.as_str(), name) {
            return Some(i);
        }
        i = i + 1;
    }
    None
}

pub(crate) fn find_user_by_id(users: &Vec<UserRec>, id: i64) -> (r: Option<usize>)
    ensures
        match r {
            Some(i) => i < users@.len() && users@[i as int].id == id,
            None => !has_user_id(users@, id),
        },
{
    let mut i: usize = 0;
    while i < users.len()
        invariant
            i <= users@.len(),
            forall|j: int| 0 <= j < i ==> users@[j].id != id,
        decreases users@.len() - i,
    {
        if users[i].id == id {
            return Some(i);
        }
        i = i + 1;
    }
    None
}

pub(crate) fn find_thread_by_slug(threads: &Vec<ThreadRec>, slug: &str) -> (r: Option<usize>)
    ensures
        match r {
            Some(i) => i < threads@.len() && threads@[i as int].slug@ == slug@,
            None => !has_slug(threads@, slug@),
        },
{
    let mut i: usize = 0;
    while i < threads.len()
        invariant
            i <= threads@.len(),
            forall|j: int| 0 <= j < i ==> threads@[j].slug@ != slug@,
        decreases threads@.len() - i,
    {
        if str_eq(threads[i].slug.as_str(), slug) {
            return Some(i);
        }
        i = i + 1;
    }
    None
}

pub(crate) fn find_thread_by_id(threads: &Vec<ThreadRec>, id: i64) -> (r: Option<usize>)
    ensures
        match r {
            Some(i) => i < threads@.len() && threads@[i as int].id == id,
            None => !has_thread_id(threads@, id),
        },
{
    let mut i: usize = 0;
    while i < threads.len()
        invariant
            i <= threads@.len(),
            forall|j: int| 0 <= j < i ==> threads@[j].id != id,
        decreases threads@.len() - i,
    {
        if threads[i].id == id {
            return Some(i);
        }
        i = i + 1;
    }
    None
}

pub(crate) fn find_comment_by_id(comments: &Vec<CommentRec>, id: i64) -> (r: Option<usize>)
    ensures
        match r {
            Some(i) => i < comments@.len() && comments@[i as int].id == id,
            None => !has_comment_id(comments@, id),
        },
{
    let mut i: usize = 0;
    while i < comments.len()
        invariant
            i <= comments@.len(),
            forall|j: int| 0 <= j < i ==> comments@[j].id != id,
        decreases comments@.len() - i,
    {
        if comments[i].id == id {
            return Some(i);
        }
        i = i + 1;
    }
    None
}

pub(crate) fn find_comment_in_thread(comments: &Vec<CommentRec>, id: i64, tid: i64) -> (r: Option<
    usize,
>)
    ensures
        match r {
            Some(i) => i < comments@.len() && comments@[i as int].id == id && comments@[
                i as int
            ].thread_id == tid,
            None => !has_comment_in_thread(comments@, id, tid),
        },
{
    let mut i: usize = 0;
    while i < comments.len()
        invariant
            i <= comments@.len(),
            forall|j: int| 0 <= j < i ==> !(comments@[j].id == id && comments@[j].thread_id == tid),
        decreases comments@.len() - i,
    {
        if comments[i].id == id && comments[i].thread_id == tid {
            return Some(i);
        }
        i = i + 1;
    }
    None
}

pub(crate) fn has_edge_exec(v: &Vec<(i64, i64)>, a: i64, b: i64) -> (r: bool)
    ensures
        r == has_edge(v@, a, b),
{
    let mut i: usize = 0;
    while i < v.len()
        invariant
            i <= v@.len(),
            forall|j: int| 0 <= j < i ==> !(v@[j].0 == a && v@[j].1 == b),
        decreases v@.len() - i,
    {
        let p = v[i];
        if p.0 == a && p.1 == b {
            return true;
        }
        i = i + 1;
    }
    false
}

/// Idempotent insertion of the edge `(a, b)`.
pub(crate) fn add_edge_exec(v: &mut Vec<(i64, i64)>, a: i64, b: i64)
    ensures
        final(v)@ == spec_add_edge(old(v)@, a, b),
{
    if !has_edge_exec(v, a, b) {
        v.push((a, b));
    }
}

/// Removal of the edge `(a, b)`; absence is a no-op. Edges are assumed
/// unique, as the invariant guarantees.
pub(crate) fn remove_edge_exec(v: &mut Vec<(i64, i64)>, a: i64, b: i64)
    requires
        forall|i: int, j: int|
            0 <= i < old(v)@.len() && 0 <= j < old(v)@.len() && i != j ==> old(v)@[i] != old(v)@[j],
    ensures
        final(v)@ == spec_remove_edge(old(v)@, a, b),
{
    let mut i: usize = 0;
    while i < v.len()
        invariant
            i <= v@.len(),
            v@ == old(v)@,
            forall|j: int| 0 <= j < i ==> !(v@[j].0 == a && v@[j].1 == b),
            forall|i0: int, j0: int|
                0 <= i0 < v@.len() && 0 <= j0 < v@.len() && i0 != j0 ==> v@[i0] != v@[j0],
        decreases v@.len() - i,
    {
        let p = v[i];
        if p.0 == a && p.1 == b {
            proof {
                assert(has_edge(v@, a, b));
                let k = edge_idx(v@, a, b);
                assert(v@[k].0 == a && v@[k].1 == b);
                assert(v@[i as int].0 == a && v@[i as int].1 == b);
                assert(v@[k] == v@[i as int]);
                assert(k == i as int);
            }
            v.remove(i);
            return ;
        }
        i = i + 1;
    }
    proof {
        assert(!has_edge(v@, a, b));
    }
}

/// Counts the edges targeting `a`.
pub(crate) fn count_for_exec(v: &Vec<(i64, i64)>, a: i64) -> (c: u64)
    ensures
        c == count_for(v@, a),
{
    let mut c: u64 = 0;
    let mut i: usize = 0;
    while i < v.len()
        invariant
            i <= v@.len(),
            c <= i,
            c == count_for(v@.subrange(0, i as int), a),
        decreases v@.len() - i,
    {
        proof {
            assert(v@.subrange(0, i + 1).drop_last() =~= v@.subrange(0, i as int));
        }
        let p = v[i];
        if p.0 == a {
            c = c + 1;
        }
        i = i + 1;
    }
    proof {
        assert(v@.subrange(0, v@.len() as int) =~= v@);
    }
    c
}

} // verus!

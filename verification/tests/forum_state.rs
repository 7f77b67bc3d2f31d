use forum::auth::verify;
use forum::base36::encode36;
use forum::error::Error;
use forum::model::{Forum, VoteKind};

const KEY: &[u8] = b"secret_idk";
const NOW: i64 = 1_700_000_000;

fn register(f: &mut Forum, name: &str) -> i64 {
    let user = f.register(name, "hunter2-pass", KEY, NOW).unwrap();
    verify(&user.token, KEY, NOW).unwrap()
}

#[test]
fn register_login_and_self_read() {
    let mut f = Forum::new();
    let alice = f.register("alice", "wonderland", KEY, NOW).unwrap();
    assert_eq!(alice.username, "alice");
    assert_eq!(alice.created_at, NOW);
    let id = verify(&alice.token, KEY, NOW).unwrap();

    let logged_in = f.login("alice", "wonderland", KEY, NOW + 5).unwrap();
    assert_eq!(logged_in.username, "alice");
    assert_eq!(verify(&logged_in.token, KEY, NOW + 5), Ok(id));

    let wrong = f.login("alice", "not-the-password", KEY, NOW);
    assert!(matches!(wrong, Err(Error::Unauthorized)));

    let unknown = f.login("bob", "wonderland", KEY, NOW);
    match unknown {
        Err(Error::UnprocessableEntity { errors }) => {
            assert_eq!(errors, vec![("username".to_string(), "does not exist".to_string())]);
        },
        other => panic!("expected a validation failure, got {:?}", other),
    }

    let me = f.get_user(id, KEY, NOW + 9).unwrap();
    assert_eq!(me.username, "alice");
    assert_eq!(me.created_at, NOW);
    assert!(matches!(f.get_user(id + 1, KEY, NOW), Err(Error::NotFound)));
}

#[test]
fn duplicate_username_is_rejected() {
    let mut f = Forum::new();
    register(&mut f, "alice");
    match f.register("alice", "other-password", KEY, NOW + 1) {
        Err(Error::UnprocessableEntity { errors }) => {
            assert_eq!(errors, vec![("username".to_string(), "username taken".to_string())]);
        },
        other => panic!("expected a validation failure, got {:?}", other),
    }
    assert_eq!(f.users.len(), 1);
}

#[test]
fn unparseable_stored_hash_is_an_internal_failure() {
    let mut f = Forum::new();
    f.register_hashed("alice", "not-a-phc-hash".to_string(), KEY, NOW).unwrap();
    let r = f.login("alice", "whatever", KEY, NOW);
    assert!(matches!(r, Err(Error::Internal)));
}

#[test]
fn register_hashed_rejects_a_taken_username() {
    let mut f = Forum::new();
    f.register_hashed("alice", "hash-one".to_string(), KEY, NOW).unwrap();
    match f.register_hashed("alice", "hash-two".to_string(), KEY, NOW + 1) {
        Err(Error::UnprocessableEntity { errors }) => {
            assert_eq!(errors, vec![("username".to_string(), "username taken".to_string())]);
        },
        other => panic!("expected a validation failure, got {:?}", other),
    }
    assert_eq!(f.users.len(), 1);
}

#[test]
fn duplicate_slug_is_rejected_and_creates_nothing() {
    let mut f = Forum::new();
    let alice = register(&mut f, "alice");
    let t = f.create_thread(alice, "Hello, World!", "first!", NOW).unwrap();
    assert_eq!(t.slug, "hello-world");
    match f.create_thread(alice, "hello WORLD", "again", NOW + 1) {
        Err(Error::UnprocessableEntity { errors }) => {
            assert_eq!(errors.len(), 1);
            assert_eq!(errors[0].0, "slug");
            assert_eq!(errors[0].1, "duplicate thread slug: hello-world");
        },
        other => panic!("expected a validation failure, got {:?}", other),
    }
    assert_eq!(f.threads.len(), 1);
}

#[test]
fn thread_vote_visibility_scenario() {
    let mut f = Forum::new();
    let alice = register(&mut f, "alice");
    let t = f.create_thread(alice, "Hello, World!", "body", NOW).unwrap();
    assert_eq!(t.slug, "hello-world");

    let anon = f.get_thread("hello-world", None).unwrap();
    assert_eq!(anon.is_voted, false);
    assert_eq!(anon.vote_count, 0);

    let count = f.vote_thread("hello-world", alice).unwrap();
    assert_eq!(count, 1);

    let as_alice = f.get_thread("hello-world", Some(alice)).unwrap();
    assert_eq!(as_alice.is_voted, true);
    assert_eq!(as_alice.vote_count, 1);

    let anon_again = f.get_thread("hello-world", None).unwrap();
    assert_eq!(anon_again.is_voted, false);
    assert_eq!(anon_again.vote_count, 1);
}

#[test]
fn casting_twice_is_idempotent() {
    let mut f = Forum::new();
    let alice = register(&mut f, "alice");
    f.create_thread(alice, "A thread", "body", NOW).unwrap();
    let first = f.vote_thread("a-thread", alice).unwrap();
    let second = f.vote_thread("a-thread", alice).unwrap();
    assert_eq!(first, 1);
    assert_eq!(second, 1);
    assert_eq!(f.get_votes("a-thread").unwrap(), 1);
}

#[test]
fn uncasting_a_vote_that_was_never_cast_is_a_noop() {
    let mut f = Forum::new();
    let alice = register(&mut f, "alice");
    f.create_thread(alice, "A thread", "body", NOW).unwrap();
    let count = f.unvote_thread("a-thread", alice).unwrap();
    assert_eq!(count, 0);
    let count = f.vote_thread("a-thread", alice).unwrap();
    assert_eq!(count, 1);
    let count = f.unvote_thread("a-thread", alice + 1).unwrap();
    assert_eq!(count, 1);
}

#[test]
fn vote_then_unvote_returns_to_zero() {
    let mut f = Forum::new();
    let alice = register(&mut f, "alice");
    f.create_thread(alice, "A thread", "body", NOW).unwrap();
    assert_eq!(f.vote_thread("a-thread", alice).unwrap(), 1);
    assert_eq!(f.unvote_thread("a-thread", alice).unwrap(), 0);
    assert_eq!(f.get_votes("a-thread").unwrap(), 0);
}

#[test]
fn voting_an_unknown_target_is_not_found() {
    let mut f = Forum::new();
    let alice = register(&mut f, "alice");
    assert!(matches!(f.vote_thread("missing", alice), Err(Error::NotFound)));
    assert!(matches!(f.unvote_thread("missing", alice), Err(Error::NotFound)));
    assert!(matches!(f.get_votes("missing"), Err(Error::NotFound)));
    assert!(matches!(f.get_thread("missing", None), Err(Error::NotFound)));
    assert!(matches!(f.cast(VoteKind::Thread, 99, alice), Err(Error::NotFound)));
    assert!(matches!(f.cast(VoteKind::Comment, 99, alice), Err(Error::NotFound)));
    assert!(matches!(f.uncast(VoteKind::Comment, 99, alice), Err(Error::NotFound)));
}

#[test]
fn comment_tree_scenario() {
    let mut f = Forum::new();
    let alice = register(&mut f, "alice");
    let bob = register(&mut f, "bob");
    f.create_thread(alice, "A thread", "body", NOW).unwrap();

    let c1 = f.create_root("a-thread", alice, "root comment", NOW + 1).unwrap();
    assert_eq!(c1.pid, None);
    assert_eq!(c1.username, "alice");
    assert_eq!(c1.vote_count, 0);
    assert_eq!(c1.is_voted, false);

    let c1_ref = encode36(c1.id);
    let c2 = f.create_reply("a-thread", &c1_ref, bob, "a reply", NOW + 2).unwrap();
    assert_eq!(c2.pid, Some(c1.id));
    assert_eq!(c2.username, "bob");

    let children = f.list_children("a-thread", &c1_ref).unwrap();
    assert_eq!(children.len(), 1);
    assert_eq!(children[0].id, c2.id);
    assert_eq!(children[0].pid, Some(c1.id));
    assert_eq!(children[0].content, "a reply");

    let top = f.list_top_level("a-thread", None).unwrap();
    assert_eq!(top.len(), 1);
    assert_eq!(top[0].id, c1.id);
    assert_eq!(top[0].pid, None);
}

#[test]
fn comment_votes_and_reads() {
    let mut f = Forum::new();
    let alice = register(&mut f, "alice");
    let bob = register(&mut f, "bob");
    f.create_thread(alice, "A thread", "body", NOW).unwrap();
    let c1 = f.create_root("a-thread", alice, "root", NOW + 1).unwrap();
    let c1_ref = encode36(c1.id);

    assert_eq!(f.vote_comment(&c1_ref, bob).unwrap(), 1);
    assert_eq!(f.vote_comment(&c1_ref, bob).unwrap(), 1);

    let seen_by_bob = f.get_by_id("a-thread", &c1_ref, Some(bob)).unwrap();
    assert_eq!(seen_by_bob.is_voted, true);
    assert_eq!(seen_by_bob.vote_count, 1);

    let seen_anon = f.get_by_id("a-thread", &c1_ref, None).unwrap();
    assert_eq!(seen_anon.is_voted, false);
    assert_eq!(seen_anon.vote_count, 1);

    assert_eq!(f.unvote_comment(&c1_ref, bob).unwrap(), 0);
    assert_eq!(f.unvote_comment(&c1_ref, bob).unwrap(), 0);

    assert!(matches!(f.get_by_id("a-thread", "zzz", None), Err(Error::NotFound)));
    assert!(matches!(f.get_by_id("missing", &c1_ref, None), Err(Error::NotFound)));
    assert!(matches!(f.vote_comment("!", bob), Err(Error::NotFound)));
}

#[test]
fn reply_parent_must_live_in_the_same_thread() {
    let mut f = Forum::new();
    let alice = register(&mut f, "alice");
    f.create_thread(alice, "First", "body", NOW).unwrap();
    f.create_thread(alice, "Second", "body", NOW).unwrap();
    let c1 = f.create_root("first", alice, "root in first", NOW + 1).unwrap();
    let c1_ref = encode36(c1.id);
    let r = f.create_reply("second", &c1_ref, alice, "cross-thread", NOW + 2);
    assert!(matches!(r, Err(Error::NotFound)));
    let ok = f.create_reply("first", &c1_ref, alice, "same thread", NOW + 2);
    assert!(ok.is_ok());
}

#[test]
fn listings_are_newest_first_with_stable_ties() {
    let mut f = Forum::new();
    let alice = register(&mut f, "alice");
    f.create_thread(alice, "Oldest", "body", 100).unwrap();
    f.create_thread(alice, "Newest", "body", 300).unwrap();
    f.create_thread(alice, "Tie one", "body", 200).unwrap();
    f.create_thread(alice, "Tie two", "body", 200).unwrap();
    let listing = f.list_threads(None);
    let slugs: Vec<&str> = listing.iter().map(|t| t.slug.as_str()).collect();
    assert_eq!(slugs, vec!["newest", "tie-one", "tie-two", "oldest"]);

    let comments_thread = f.create_thread(alice, "With comments", "body", 400).unwrap();
    assert_eq!(comments_thread.slug, "with-comments");
    f.create_root("with-comments", alice, "older", 10).unwrap();
    f.create_root("with-comments", alice, "newer", 20).unwrap();
    f.create_root("with-comments", alice, "tied", 10).unwrap();
    let top = f.list_top_level("with-comments", None).unwrap();
    let bodies: Vec<&str> = top.iter().map(|c| c.content.as_str()).collect();
    assert_eq!(bodies, vec!["newer", "older", "tied"]);
}

#[test]
fn follow_graph_and_profiles() {
    let mut f = Forum::new();
    let alice = register(&mut f, "alice");
    let bob = register(&mut f, "bob");

    // Bob's score counts votes received on his threads, not votes he cast.
    f.create_thread(bob, "Bobs thread", "body", NOW).unwrap();
    f.vote_thread("bobs-thread", alice).unwrap();
    f.vote_thread("bobs-thread", bob).unwrap();

    let p = f.follow(alice, "bob").unwrap();
    assert_eq!(p.username, "bob");
    assert_eq!(p.score, 2);
    assert_eq!(f.follows.len(), 1);

    // Following twice keeps a single edge.
    f.follow(alice, "bob").unwrap();
    assert_eq!(f.follows.len(), 1);

    // A self-follow is forbidden and creates no edge.
    let r = f.follow(alice, "alice");
    assert!(matches!(r, Err(Error::Forbidden)));
    assert_eq!(f.follows.len(), 1);

    // Unfollowing an edge that never existed is a no-op, not an error.
    let p = f.unfollow(bob, "alice").unwrap();
    assert_eq!(p.username, "alice");
    assert_eq!(p.score, 0);
    assert_eq!(f.follows.len(), 1);

    let p = f.unfollow(alice, "bob").unwrap();
    assert_eq!(p.username, "bob");
    assert_eq!(f.follows.len(), 0);

    assert!(matches!(f.follow(alice, "carol"), Err(Error::NotFound)));
    assert!(matches!(f.unfollow(alice, "carol"), Err(Error::NotFound)));
    assert!(matches!(f.profile("carol"), Err(Error::NotFound)));

    let p = f.profile("bob").unwrap();
    assert_eq!(p.username, "bob");
    assert_eq!(p.score, 2);
    assert_eq!(p.created_at, NOW);
}

#[test]
fn author_listing_is_scoped_and_viewer_aware() {
    let mut f = Forum::new();
    let alice = register(&mut f, "alice");
    let bob = register(&mut f, "bob");
    f.create_thread(alice, "Alices thread", "body", 100).unwrap();
    f.create_thread(bob, "Bobs thread", "body", 200).unwrap();
    f.vote_thread("alices-thread", bob).unwrap();

    let alices = f.list_threads_by_author("alice", Some(bob));
    assert_eq!(alices.len(), 1);
    assert_eq!(alices[0].slug, "alices-thread");
    assert_eq!(alices[0].username, "alice");
    assert_eq!(alices[0].is_voted, true);
    assert_eq!(alices[0].vote_count, 1);

    let alices_anon = f.list_threads_by_author("alice", None);
    assert_eq!(alices_anon[0].is_voted, false);

    assert_eq!(f.list_threads_by_author("carol", None).len(), 0);
}

use social_graph::Contract;
use social_graph::SocialError;

fn s(x: &str) -> String {
    x.to_string()
}

fn new_account(c: &mut Contract, who: &str, name: &str) {
    let r = c.create_account(
        s(who),
        Some(s(name)),
        Some(s("")),
        Some(s("")),
        Some(s("")),
        Some(s("")),
        0,
    );
    assert!(r.is_ok());
}

#[test]
fn test_account_details() {
    let mut contract = Contract::new();
    let r = contract.create_account(
        s("robert.testnet"),
        Some(s("Robert3")),
        Some(s("")),
        Some(s("")),
        Some(s("")),
        Some(s("")),
        0,
    );
    assert!(r.is_ok());
    println!("{:?}", contract.get_account_details(&s("robert.testnet")));
    let details = contract.get_account_details(&s("robert.testnet")).unwrap();
    assert_eq!(details.name, "Robert3");
    assert_eq!(details.address, "robert.testnet");
}

#[test]
fn test_follow_functionalities() {
    let mut contract = Contract::new();
    new_account(&mut contract, "robert.testnet", "Hallse");

    contract.follow_user(s("robert.testnet"), s("vdz2h.testnet")).unwrap();
    contract.follow_user(s("robert.testnet"), s("vdz3h.testnet")).unwrap();
    contract.follow_user(s("robert.testnet"), s("vdz4h.testnet")).unwrap();

    println!(
        "following count: {}",
        contract.get_user_following_count(&s("robert.testnet")).unwrap()
    );
    println!(
        "Following list: {:?}",
        contract.get_user_following_list(&s("robert.testnet")).unwrap()
    );
    assert_eq!(contract.get_user_following_count(&s("robert.testnet")).unwrap(), 3);

    contract.unfollow_user(&s("robert.testnet"), &s("vdz3h.testnet")).unwrap();

    println!(
        "following count: {}",
        contract.get_user_following_count(&s("robert.testnet")).unwrap()
    );
    println!(
        "Following list: {:?}",
        contract.get_user_following_list(&s("robert.testnet")).unwrap()
    );
    assert_eq!(contract.get_user_following_count(&s("robert.testnet")).unwrap(), 2);
}

#[test]
fn test_create_post_and_get_addrid() {
    let mut contract = Contract::new();

    contract.create_post(s("robert.testnet"), s("Hello world"), 0);
    contract.create_post(s("robert.testnet"), s("THis is tiring"), 0);
    contract.create_post(s("robert.testnet"), s("Good morning everyone"), 0);

    println!("{:?}", contract.list_all());
    let all = contract.list_all();
    assert_eq!(all.len(), 3);
    assert_eq!(all[0].post_id, 3);
    assert_eq!(all[0].content, "Good morning everyone");
    assert_eq!(all[2].post_id, 1);
    assert_eq!(all[2].content, "Hello world");
    assert_eq!(contract.get_poster_address(1), "robert.testnet");
}

#[test]
fn account_exists_only_after_creation() {
    let mut c = Contract::new();
    assert!(!c.is_user_exists(&s("alice")));
    new_account(&mut c, "alice", "Alice");
    assert!(c.is_user_exists(&s("alice")));
    assert!(!c.is_user_exists(&s("bob")));
    // Unrelated operations keep the account alive.
    new_account(&mut c, "bob", "Bob");
    c.follow_user(s("alice"), s("bob")).unwrap();
    c.create_post(s("alice"), s("x"), 1);
    c.like_post(1, s("bob"), 2);
    c.comment_on_post(1, s("bob"), s("y"), 3).unwrap();
    c.edit_account(&s("alice"), s("Alice2"), s("here"), s("url"), s("desc")).unwrap();
    c.edit_profile_image(&s("alice"), s("img")).unwrap();
    assert!(c.is_user_exists(&s("alice")));
    assert!(c.is_user_exists(&s("bob")));
}

#[test]
fn duplicate_account_rejected_and_first_values_kept() {
    let mut c = Contract::new();
    let r1 = c.create_account(
        s("robert.testnet"),
        Some(s("Robert")),
        Some(s("img1")),
        Some(s("loc1")),
        Some(s("url1")),
        Some(s("desc1")),
        42,
    );
    assert!(r1.is_ok());
    let r2 = c.create_account(
        s("robert.testnet"),
        Some(s("Robert2")),
        Some(s("img2")),
        Some(s("loc2")),
        Some(s("url2")),
        Some(s("desc2")),
        43,
    );
    assert_eq!(r2, Err(SocialError::AlreadyExists));
    let stored = c.get_account_details(&s("robert.testnet")).unwrap();
    assert_eq!(stored.name, "Robert");
    assert_eq!(stored.profile_image_url, "img1");
    assert_eq!(stored.location, "loc1");
    assert_eq!(stored.url, "url1");
    assert_eq!(stored.description, "desc1");
    assert_eq!(stored.created_at, 42);
}

#[test]
fn missing_optionals_default_to_empty() {
    let mut c = Contract::new();
    c.create_account(s("alice"), None, None, None, None, None, 5).unwrap();
    let stored = c.get_account_details(&s("alice")).unwrap();
    assert_eq!(stored.name, "");
    assert_eq!(stored.profile_image_url, "");
    assert_eq!(stored.location, "");
    assert_eq!(stored.url, "");
    assert_eq!(stored.description, "");
    assert_eq!(stored.created_at, 5);
}

#[test]
fn edit_replaces_fields_and_preserves_identity() {
    let mut c = Contract::new();
    let r = c.create_account(
        s("alice"),
        Some(s("Alice")),
        Some(s("img")),
        Some(s("loc")),
        Some(s("url")),
        Some(s("desc")),
        7,
    );
    assert!(r.is_ok());
    c.edit_account(&s("alice"), s("A2"), s("l2"), s("u2"), s("d2")).unwrap();
    let stored = c.get_account_details(&s("alice")).unwrap();
    assert_eq!(stored.name, "A2");
    assert_eq!(stored.location, "l2");
    assert_eq!(stored.url, "u2");
    assert_eq!(stored.description, "d2");
    // Identity, image and creation time survive the edit.
    assert_eq!(stored.address, "alice");
    assert_eq!(stored.profile_image_url, "img");
    assert_eq!(stored.created_at, 7);

    c.edit_profile_image(&s("alice"), s("img2")).unwrap();
    let stored = c.get_account_details(&s("alice")).unwrap();
    assert_eq!(stored.profile_image_url, "img2");
    assert_eq!(stored.name, "A2");

    assert_eq!(c.edit_account(&s("ghost"), s(""), s(""), s(""), s("")), Err(SocialError::NotFound));
    assert_eq!(c.edit_profile_image(&s("ghost"), s("")), Err(SocialError::NotFound));
    assert_eq!(c.get_account_details(&s("ghost")).unwrap_err(), SocialError::NotFound);
}

#[test]
fn follow_rejects_repeats_and_unfollow_rejects_absence() {
    let mut c = Contract::new();
    new_account(&mut c, "alice", "Alice");
    assert!(c.is_user_followed(&s("alice"), &s("bob")).is_none());
    c.follow_user(s("alice"), s("bob")).unwrap();
    assert!(c.is_user_followed(&s("alice"), &s("bob")).is_some());
    assert_eq!(c.follow_user(s("alice"), s("bob")), Err(SocialError::AlreadyExists));
    c.unfollow_user(&s("alice"), &s("bob")).unwrap();
    assert!(c.is_user_followed(&s("alice"), &s("bob")).is_none());
    assert_eq!(c.unfollow_user(&s("alice"), &s("bob")), Err(SocialError::NotFound));
}

#[test]
fn follow_counts_match_lists_and_back_follow_is_reported() {
    let mut c = Contract::new();
    new_account(&mut c, "alice", "Alice");
    new_account(&mut c, "bob", "Bob");
    new_account(&mut c, "charlie", "Charlie");
    c.edit_profile_image(&s("bob"), s("bob-img")).unwrap();

    c.follow_user(s("alice"), s("bob")).unwrap();
    c.follow_user(s("bob"), s("alice")).unwrap();
    c.follow_user(s("charlie"), s("alice")).unwrap();

    let following = c.get_user_following_list(&s("alice")).unwrap();
    let following_count = c.get_user_following_count(&s("alice")).unwrap();
    assert_eq!(following.len() as u64, following_count);
    assert_eq!(following_count, 1);
    assert_eq!(following[0].user_account_id, "bob");
    assert_eq!(following[0].profile_image_url, "bob-img");
    assert!(following[0].is_followed);

    let followers = c.get_user_followers_list(&s("alice")).unwrap();
    let followers_count = c.get_user_followers_count(&s("alice")).unwrap();
    assert_eq!(followers.len() as u64, followers_count);
    assert_eq!(followers_count, 2);
    // bob is followed back by alice, charlie is not.
    for entry in &followers {
        if entry.user_account_id == "bob" {
            assert!(entry.is_followed);
        } else {
            assert_eq!(entry.user_account_id, "charlie");
            assert!(!entry.is_followed);
        }
    }

    // Lists and counts of an unknown identity are refused.
    assert!(c.get_user_following_list(&s("ghost")).is_err());
    assert_eq!(c.get_user_following_count(&s("ghost")).unwrap_err(), SocialError::NotFound);
    assert!(c.get_user_followers_list(&s("ghost")).is_err());
    assert_eq!(c.get_user_followers_count(&s("ghost")).unwrap_err(), SocialError::NotFound);
}

#[test]
fn post_ids_increase_by_one_whoever_posts() {
    let mut c = Contract::new();
    c.create_post(s("alice"), s("a"), 1);
    c.create_post(s("bob"), s("b"), 2);
    c.create_post(s("alice"), s(""), 3);
    let all = c.list_all();
    assert_eq!(all.len(), 3);
    assert_eq!(all[2].post_id, 1);
    assert_eq!(all[1].post_id, 2);
    assert_eq!(all[0].post_id, 3);
    // Empty content is stored as given.
    assert_eq!(all[0].content, "");
    assert!(c.post_exists(1) && c.post_exists(2) && c.post_exists(3));
    assert!(!c.post_exists(0) && !c.post_exists(4));
}

#[test]
fn like_toggle_twice_is_a_net_no_op() {
    let mut c = Contract::new();
    c.create_post(s("alice"), s("a"), 1);
    assert_eq!(c.like_count(1), 0);
    assert!(!c.liked_by(1, &s("bob")));
    c.like_post(1, s("bob"), 2);
    assert_eq!(c.like_count(1), 1);
    assert!(c.liked_by(1, &s("bob")));
    c.like_post(1, s("bob"), 3);
    assert_eq!(c.like_count(1), 0);
    assert!(!c.liked_by(1, &s("bob")));
}

#[test]
fn likes_are_per_user_and_per_post() {
    let mut c = Contract::new();
    c.create_post(s("alice"), s("a"), 1);
    c.create_post(s("alice"), s("b"), 2);
    c.like_post(1, s("bob"), 3);
    c.like_post(1, s("carol"), 4);
    c.like_post(2, s("bob"), 5);
    assert_eq!(c.like_count(1), 2);
    assert_eq!(c.like_count(2), 1);
    let likers = c.get_post_likes_details(1);
    assert_eq!(likers, vec![s("bob"), s("carol")]);
    // Withdrawing bob's like of post 1 leaves carol's and his other like.
    c.like_post(1, s("bob"), 6);
    assert_eq!(c.like_count(1), 1);
    assert_eq!(c.get_post_likes_details(1), vec![s("carol")]);
    assert!(c.liked_by(2, &s("bob")));
}

#[test]
fn orphan_engagement_is_allowed() {
    let mut c = Contract::new();
    // No post 9 exists; the like and the comment still land.
    c.like_post(9, s("bob"), 1);
    assert_eq!(c.like_count(9), 1);
    c.comment_on_post(9, s("bob"), s("into the void"), 2).unwrap();
    assert_eq!(c.comment_count(9), 1);
    assert!(!c.post_exists(9));
}

#[test]
fn empty_comment_rejected_and_count_unchanged() {
    let mut c = Contract::new();
    c.create_post(s("alice"), s("a"), 1);
    assert_eq!(c.comment_on_post(1, s("bob"), s(""), 2), Err(SocialError::EmptyInput));
    assert_eq!(c.comment_count(1), 0);
    c.comment_on_post(1, s("bob"), s("hi"), 3).unwrap();
    assert_eq!(c.comment_on_post(1, s("bob"), s(""), 4), Err(SocialError::EmptyInput));
    assert_eq!(c.comment_count(1), 1);
}

#[test]
fn comment_ids_are_global_and_sequential() {
    let mut c = Contract::new();
    c.create_post(s("alice"), s("a"), 1);
    c.create_post(s("bob"), s("b"), 2);
    c.comment_on_post(1, s("bob"), s("one"), 3).unwrap();
    c.comment_on_post(2, s("alice"), s("two"), 4).unwrap();
    c.comment_on_post(1, s("alice"), s("three"), 5).unwrap();
    let on_first = c.comments_for(1);
    assert_eq!(on_first.len(), 2);
    assert_eq!(on_first[0].comment_id, 1);
    assert_eq!(on_first[0].comment, "one");
    assert_eq!(on_first[1].comment_id, 3);
    let on_second = c.comments_for(2);
    assert_eq!(on_second.len(), 1);
    assert_eq!(on_second[0].comment_id, 2);
}

#[test]
fn end_to_end_engagement_flow() {
    let mut c = Contract::new();
    new_account(&mut c, "alice", "Alice");
    new_account(&mut c, "bob", "Bob");
    c.create_post(s("alice"), s("hello"), 1);
    let feed = c.get_all_posts(None);
    assert_eq!(feed.len(), 1);
    assert_eq!(feed[0].post.post_id, 1);
    c.like_post(1, s("bob"), 2);
    assert_eq!(c.like_count(1), 1);
    assert!(c.liked_by(1, &s("bob")));
    c.like_post(1, s("bob"), 3);
    assert_eq!(c.like_count(1), 0);
    c.comment_on_post(1, s("alice"), s("hi"), 4).unwrap();
    assert_eq!(c.comment_count(1), 1);
    let comments = c.comments_for(1);
    assert_eq!(comments[0].comment_id, 1);
}

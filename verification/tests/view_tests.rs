use social_graph::messaging::create_post_cb;
use social_graph::messaging::MessagingDb;
use social_graph::Contract;
use social_graph::SocialError;

fn s(x: &str) -> String {
    x.to_string()
}

fn populated() -> Contract {
    let mut c = Contract::new();
    c.create_account(
        s("alice"),
        Some(s("Alice")),
        Some(s("alice-img")),
        None,
        None,
        None,
        1,
    )
    .unwrap();
    c.create_account(s("bob"), Some(s("Bob")), Some(s("bob-img")), None, None, None, 2).unwrap();
    c.create_post(s("alice"), s("first"), 3);
    c.create_post(s("bob"), s("second"), 4);
    c.create_post(s("alice"), s("third"), 5);
    c.like_post(1, s("bob"), 6);
    c.like_post(3, s("bob"), 7);
    c.like_post(3, s("ghost"), 8);
    c.comment_on_post(3, s("bob"), s("nice"), 9).unwrap();
    c
}

#[test]
fn feed_is_newest_first_with_strictly_decreasing_ids() {
    let c = populated();
    let feed = c.get_all_posts(None);
    assert_eq!(feed.len(), 3);
    for w in feed.windows(2) {
        assert!(w[0].post.post_id > w[1].post.post_id);
    }
    assert_eq!(feed[0].post.post_id, 3);
    assert_eq!(feed[0].post.content, "third");
    assert_eq!(feed[0].name, "Alice");
    assert_eq!(feed[0].profile_image_url, "alice-img");
    assert_eq!(feed[0].like_count, 2);
    assert_eq!(feed[0].comment_count, 1);
    assert_eq!(feed[1].name, "Bob");
    assert_eq!(feed[2].like_count, 1);
    // Without a viewer, is_liked is absent — not false.
    for entry in &feed {
        assert!(entry.is_liked.is_none());
        assert!(entry.like_details.is_none());
        assert!(entry.comment_details.is_none());
    }
}

#[test]
fn feed_reports_is_liked_for_the_viewer_per_post() {
    let c = populated();
    let bob = s("bob");
    let feed = c.get_all_posts(Some(&bob));
    assert_eq!(feed[0].is_liked, Some(true)); // post 3
    assert_eq!(feed[1].is_liked, Some(false)); // post 2
    assert_eq!(feed[2].is_liked, Some(true)); // post 1
    let alice = s("alice");
    let feed = c.get_all_posts(Some(&alice));
    assert_eq!(feed[0].is_liked, Some(false));
}

#[test]
fn empty_feed_is_empty() {
    let c = Contract::new();
    assert_eq!(c.get_all_posts(None).len(), 0);
}

#[test]
fn single_post_detail_joins_everything() {
    let c = populated();
    let bob = s("bob");
    let view = c.get_single_post(3, Some(&bob)).unwrap();
    assert_eq!(view.post.post_id, 3);
    assert_eq!(view.post.user_address, "alice");
    assert_eq!(view.name, "Alice");
    assert_eq!(view.profile_image_url, "alice-img");
    assert_eq!(view.like_count, 2);
    assert_eq!(view.comment_count, 1);
    assert_eq!(view.is_liked, Some(true));
    let likes = view.like_details.unwrap();
    assert_eq!(likes.len(), 2);
    assert_eq!(likes[0].user_address, "bob");
    assert_eq!(likes[0].profile_image_url, "bob-img");
    // An engaging identity without a profile gets an empty image.
    assert_eq!(likes[1].user_address, "ghost");
    assert_eq!(likes[1].profile_image_url, "");
    let comments = view.comment_details.unwrap();
    assert_eq!(comments.len(), 1);
    assert_eq!(comments[0].comment_id, 1);
    assert_eq!(comments[0].user_address, "bob");
    assert_eq!(comments[0].profile_image_url, "bob-img");
    assert_eq!(comments[0].comment, "nice");
    assert_eq!(comments[0].created_at, 9);
}

#[test]
fn single_post_of_missing_id_is_not_found() {
    let c = populated();
    assert_eq!(c.get_single_post(9, None).unwrap_err(), SocialError::NotFound);
    assert_eq!(c.get_single_post(0, None).unwrap_err(), SocialError::NotFound);
}

#[test]
fn user_posts_are_in_creation_order_with_increasing_ids() {
    let c = populated();
    let alice = s("alice");
    let mine = c.user_posts(&alice, None);
    assert_eq!(mine.len(), 2);
    assert!(mine[0].post.post_id < mine[1].post.post_id);
    assert_eq!(mine[0].post.post_id, 1);
    assert_eq!(mine[0].post.content, "first");
    assert_eq!(mine[1].post.post_id, 3);
    // Without a viewer, is_liked is judged for the account itself.
    assert_eq!(mine[0].is_liked, Some(false));
    assert_eq!(mine[1].is_liked, Some(false));
    let bob = s("bob");
    let mine = c.user_posts(&alice, Some(&bob));
    assert_eq!(mine[0].is_liked, Some(true));
    assert_eq!(mine[1].is_liked, Some(true));
    // An account with no posts yields an empty list.
    let ghost = s("ghost");
    assert_eq!(c.user_posts(&ghost, None).len(), 0);
}

#[test]
fn list_by_author_keeps_creation_order() {
    let c = populated();
    let posts = c.list_by_author(&s("alice"));
    assert_eq!(posts.len(), 2);
    assert_eq!(posts[0].post_id, 1);
    assert_eq!(posts[1].post_id, 3);
    assert_eq!(c.list_by_author(&s("nobody")).len(), 0);
}

#[test]
fn likes_for_lists_the_posts_likes() {
    let c = populated();
    let likes = c.likes_for(3);
    assert_eq!(likes.len(), 2);
    assert_eq!(likes[0].user_address, "bob");
    assert_eq!(likes[0].created_at, 7);
    assert_eq!(likes[1].user_address, "ghost");
    assert_eq!(c.likes_for(2).len(), 0);
}

#[test]
fn message_callbacks_decide_each_outcome() {
    let db = MessagingDb::new();
    assert_eq!(db.send_messages_cb(None), "oops");
    assert_eq!(db.send_messages_cb(Some(true)), "Account exist");
    assert_eq!(db.send_messages_cb(Some(false)), "Account does not exist");

    let name = s("Robert");
    let content = s("Hello world");
    assert_eq!(create_post_cb(Some(&name), &content), "add = Robert, content = Hello world");
    assert_eq!(
        create_post_cb(None, &content),
        "Unable to connect to server, please try again"
    );
}

//! The laws of the store, proved over the models that the functions'
//! contracts speak of. Each law names the operations it composes; the
//! operations' own contracts pin their state changes to exactly the model
//! expressions used here.

use vstd::prelude::*;

use crate::account::{account_listed, account_record, accounts_wf, AccountView};
use crate::content::{posts_wf, PostDetailView};
use crate::engagement::{
    like_listed, like_toggle_model, likes_of, likes_wf, lemma_like_toggle_properties, LikeView,
};
use crate::follow::{
    edge_listed, followers_entry, followers_list_model, followers_of, following_list_model,
    following_of, EdgeView,
};

verus! {

/// An identity exists after a creation exactly when it existed before or is
/// the created one: creation establishes existence and never revokes
/// another's. Together with the contracts of the remaining mutations (which
/// leave the profile table untouched) and of `edit_account` /
/// `edit_profile_image` (covered by the next law), an account exists from
/// its creation on, forever.
pub proof fn lemma_account_exists_after_create(
    accounts: Seq<AccountView>,
    a: AccountView,
    id: Seq<char>,
)
    ensures
        account_listed(accounts.push(a), id) <==> (account_listed(accounts, id) || a.address
            == id),
{
    let post = accounts.push(a);
    if account_listed(accounts, id) {
        let i = choose|i: int| 0 <= i < accounts.len() && #[trigger] accounts[i].address == id;
        assert(post[i].address == id);
    }
    if a.address == id {
        assert(post[accounts.len() as int].address == id);
    }
    if account_listed(post, id) {
        let i = choose|i: int| 0 <= i < post.len() && #[trigger] post[i].address == id;
        if i < accounts.len() {
            assert(accounts[i].address == id);
        }
    }
}

/// An edit never creates or removes an identity: replacing the record at a
/// slot with one of the same address leaves every existence question as it
/// was.
pub proof fn lemma_account_exists_after_edit(
    accounts: Seq<AccountView>,
    i: int,
    b: AccountView,
    id: Seq<char>,
)
    requires
        0 <= i < accounts.len(),
        b.address == accounts[i].address,
    ensures
        account_listed(accounts.update(i, b), id) == account_listed(accounts, id),
{
    let post = accounts.update(i, b);
    if account_listed(accounts, id) {
        let k = choose|k: int| 0 <= k < accounts.len() && #[trigger] accounts[k].address == id;
        assert(post[k].address == id);
    }
    if account_listed(post, id) {
        let k = choose|k: int| 0 <= k < post.len() && #[trigger] post[k].address == id;
        assert(accounts[k].address == id);
    }
}

/// A first creation stores exactly the given profile: afterwards the
/// identity is listed and its record is the created one, and the table stays
/// well-formed. A second creation for the same identity is refused by
/// `create_account`'s contract with the table unchanged, so the stored
/// fields remain the first call's values.
pub proof fn lemma_create_account_stores(accounts: Seq<AccountView>, a: AccountView)
    requires
        accounts_wf(accounts),
        !account_listed(accounts, a.address),
    ensures
        accounts_wf(accounts.push(a)),
        account_listed(accounts.push(a), a.address),
        account_record(accounts.push(a), a.address) == a,
{
    let post = accounts.push(a);
    assert forall|i: int, j: int| 0 <= i < j < post.len() implies #[trigger] post[i].address
        != #[trigger] post[j].address by {
        if j < accounts.len() {
            assert(accounts[i].address != accounts[j].address);
        } else {
            assert(post[i] == accounts[i]);
        }
    }
    assert(post[accounts.len() as int].address == a.address);
    crate::account::lemma_account_index_unique(post, a.address, accounts.len() as int);
}

/// The following and followers counts equal the lengths of the matching
/// lists, and every entry of a followers list reports `is_followed` exactly
/// as the edge set answers whether the listed identity follows that peer.
pub proof fn lemma_follow_counts_match_lists(
    edges: Seq<EdgeView>,
    accounts: Seq<AccountView>,
    a: Seq<char>,
)
    ensures
        following_of(edges, a).len() == following_list_model(edges, accounts, a).len(),
        followers_of(edges, a).len() == followers_list_model(edges, accounts, a).len(),
        forall|k: int|
            0 <= k < following_list_model(edges, accounts, a).len() ==> (
            #[trigger] following_list_model(edges, accounts, a)[k]).is_followed,
        forall|k: int|
            0 <= k < followers_list_model(edges, accounts, a).len() ==> (
            #[trigger] followers_list_model(edges, accounts, a)[k]).is_followed == edge_listed(
                edges,
                a,
                followers_list_model(edges, accounts, a)[k].user_account_id,
            ),
{
    let gl = following_list_model(edges, accounts, a);
    assert forall|k: int| 0 <= k < gl.len() implies (#[trigger] gl[k]).is_followed by {
        assert(gl[k] == (crate::follow::following_entry(accounts))(following_of(edges, a)[k]));
    }
    let fl = followers_list_model(edges, accounts, a);
    assert forall|k: int| 0 <= k < fl.len() implies (#[trigger] fl[k]).is_followed == edge_listed(
        edges,
        a,
        fl[k].user_account_id,
    ) by {
        assert(fl[k] == (followers_entry(edges, accounts, a))(followers_of(edges, a)[k]));
    }
}

/// Post ids strictly increase along the log, whoever the authors, every
/// existing id is at most the counter, and the id the next creation assigns
/// — the counter plus one, per `create_post`'s contract — exceeds them all:
/// the next id is the previous maximum plus one.
pub proof fn lemma_post_id_allocation(posts: Seq<PostDetailView>, counter: u64)
    requires
        posts_wf(posts, counter),
    ensures
        forall|i: int, j: int|
            0 <= i < j < posts.len() ==> (#[trigger] posts[i]).post_id < (
            #[trigger] posts[j]).post_id,
        forall|i: int| 0 <= i < posts.len() ==> (#[trigger] posts[i]).post_id <= counter,
        forall|i: int| 0 <= i < posts.len() ==> (#[trigger] posts[i]).post_id < counter + 1,
{
    assert forall|i: int| 0 <= i < posts.len() implies (#[trigger] posts[i]).post_id <= counter by {
        assert(posts[i].post_id == i + 1);
    }
}

/// Toggling the same user's like of the same post twice restores both the
/// post's like count and the user's liked-status to what they were before
/// the two calls, whatever timestamps the calls carried.
pub proof fn lemma_like_toggle_twice(likes: Seq<LikeView>, p: u64, u: Seq<char>, t1: u64, t2: u64)
    requires
        likes_wf(likes),
    ensures
        ({
            let once = like_toggle_model(likes, p, u, t1);
            let twice = like_toggle_model(once, p, u, t2);
            likes_of(twice, p).len() == likes_of(likes, p).len() && like_listed(twice, p, u)
                == like_listed(likes, p, u)
        }),
{
    lemma_like_toggle_properties(likes, p, u, t1);
    lemma_like_toggle_properties(like_toggle_model(likes, p, u, t1), p, u, t2);
}

} // verus!

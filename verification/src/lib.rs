//! A social-graph and content store: user profiles, a directed follow graph,
//! posts, likes, comments, and the read views composed from them.
//!
//! The store is a single in-memory state owned by one [`Contract`] value.
//! The acting identity and the clock are supplied by the caller on every
//! mutating call; resolving them (and persisting the state) is the hosting
//! environment's business, not this library's. Every mutating call touches
//! exactly one of the five collections (plus its counter), and every read
//! view is computed fresh from them.

use vstd::prelude::*;

pub mod account;
pub mod content;
pub mod engagement;
pub mod follow;
pub mod laws;
pub mod messaging;
pub mod query;
pub mod seq_util;

use crate::account::{accounts_wf, AccountView, UserAccountDetail};
use crate::content::{posts_wf, PostDetail, PostDetailView};
use crate::engagement::{comments_wf, likes_wf, CommentView, LikeView, PostComment, PostLikes};
use crate::follow::{edges_wf, EdgeView, UserFollowers};

verus! {

/// The error taxonomy of the store.
///
/// Every declared failure aborts the call immediately; no partial update is
/// ever applied.
#[derive(Clone, Copy, PartialEq, Eq, Debug)]
pub enum SocialError {
    /// A profile was created twice for one identity.
    AlreadyExists,
    /// A profile, follow edge or post is missing on a path that declares the
    /// lookup.
    NotFound,
    /// A required text (a comment) has length zero.
    EmptyInput,
}

/// Names of the persisted collections of the store.
///
/// The hosting shell keys its storage by these; the library itself keeps all
/// state in memory.
#[derive(Clone, Copy, PartialEq, Eq, Debug)]
pub enum StorageKeys {
    UserList,
    UserFollowers,
    AllPosts,
    PostLikes,
    PostComments,
}

/// The whole store: the profile table, the follow edges, and the three
/// append-grown logs with their two counters.
pub struct Contract {
    pub user_list: Vec<UserAccountDetail>,
    pub user_followers: Vec<UserFollowers>,
    pub all_posts: Vec<PostDetail>,
    pub post_likes: Vec<PostLikes>,
    pub post_comments: Vec<PostComment>,
    pub post_counter: u64,
    pub comment_counter: u64,
}

impl Contract {
    /// The profile table as a sequence of profile values, in creation order.
    pub open spec fn users(&self) -> Seq<AccountView> {
        self.user_list@.map_values(|u: UserAccountDetail| u@)
    }

    /// The follow edges as a sequence of edge values.
    pub open spec fn edges(&self) -> Seq<EdgeView> {
        self.user_followers@.map_values(|e: UserFollowers| e@)
    }

    /// The post log as a sequence of post values, in creation order.
    pub open spec fn posts(&self) -> Seq<PostDetailView> {
        self.all_posts@.map_values(|p: PostDetail| p@)
    }

    /// The like records as a sequence of like values.
    pub open spec fn likes(&self) -> Seq<LikeView> {
        self.post_likes@.map_values(|l: PostLikes| l@)
    }

    /// The comment log as a sequence of comment values, in creation order.
    pub open spec fn comments(&self) -> Seq<CommentView> {
        self.post_comments@.map_values(|c: PostComment| c@)
    }

    /// The store's invariant: profiles unique per identity, edges unique per
    /// ordered pair, likes unique per (post, user), both logs dense with
    /// their counters, comment texts non-empty.
    pub open spec fn wf(&self) -> bool {
        &&& accounts_wf(self.users())
        &&& edges_wf(self.edges())
        &&& posts_wf(self.posts(), self.post_counter)
        &&& likes_wf(self.likes())
        &&& comments_wf(self.comments(), self.comment_counter)
    }

    /// Everything but the profile table is unchanged.
    pub open spec fn same_but_user_list(&self, pre: &Contract) -> bool {
        &&& self.user_followers@ == pre.user_followers@
        &&& self.all_posts@ == pre.all_posts@
        &&& self.post_likes@ == pre.post_likes@
        &&& self.post_comments@ == pre.post_comments@
        &&& self.post_counter == pre.post_counter
        &&& self.comment_counter == pre.comment_counter
    }

    /// Everything but the follow edges is unchanged.
    pub open spec fn same_but_user_followers(&self, pre: &Contract) -> bool {
        &&& self.user_list@ == pre.user_list@
        &&& self.all_posts@ == pre.all_posts@
        &&& self.post_likes@ == pre.post_likes@
        &&& self.post_comments@ == pre.post_comments@
        &&& self.post_counter == pre.post_counter
        &&& self.comment_counter == pre.comment_counter
    }

    /// Everything but the post log and its counter is unchanged.
    pub open spec fn same_but_posts(&self, pre: &Contract) -> bool {
        &&& self.user_list@ == pre.user_list@
        &&& self.user_followers@ == pre.user_followers@
        &&& self.post_likes@ == pre.post_likes@
        &&& self.post_comments@ == pre.post_comments@
        &&& self.comment_counter == pre.comment_counter
    }

    /// Everything but the like records is unchanged.
    pub open spec fn same_but_post_likes(&self, pre: &Contract) -> bool {
        &&& self.user_list@ == pre.user_list@
        &&& self.user_followers@ == pre.user_followers@
        &&& self.all_posts@ == pre.all_posts@
        &&& self.post_comments@ == pre.post_comments@
        &&& self.post_counter == pre.post_counter
        &&& self.comment_counter == pre.comment_counter
    }

    /// Everything but the comment log and its counter is unchanged.
    pub open spec fn same_but_post_comments(&self, pre: &Contract) -> bool {
        &&& self.user_list@ == pre.user_list@
        &&& self.user_followers@ == pre.user_followers@
        &&& self.all_posts@ == pre.all_posts@
        &&& self.post_likes@ == pre.post_likes@
        &&& self.post_counter == pre.post_counter
    }

    /// A fresh, empty store. Each process owns exactly one; the hosting
    /// shell refuses to initialize twice.
    pub fn new() -> (c: Contract)
        ensures
            c.wf(),
            c.users() == Seq::<AccountView>::empty(),
            c.edges() == Seq::<EdgeView>::empty(),
            c.posts() == Seq::<PostDetailView>::empty(),
            c.likes() == Seq::<LikeView>::empty(),
            c.comments() == Seq::<CommentView>::empty(),
            c.post_counter == 0,
            c.comment_counter == 0,
    {
        let c = Contract {
            user_list: Vec::new(),
            user_followers: Vec::new(),
            all_posts: Vec::new(),
            post_likes: Vec::new(),
            post_comments: Vec::new(),
            post_counter: 0,
            comment_counter: 0,
        };
        proof {
            assert(c.users() =~= Seq::<AccountView>::empty());
            assert(c.edges() =~= Seq::<EdgeView>::empty());
            assert(c.posts() =~= Seq::<PostDetailView>::empty());
            assert(c.likes() =~= Seq::<LikeView>::empty());
            assert(c.comments() =~= Seq::<CommentView>::empty());
        }
        c
    }
}

} // verus!

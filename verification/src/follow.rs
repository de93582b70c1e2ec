//! The follow graph: directed edges between identities, at most one edge per
//! ordered pair. Following and unfollowing reject repeats with an error (the
//! alternative, a single toggling call, is deliberately not offered: a caller
//! that follows twice has lost track of its own state and is told so).
//!
//! Removal swaps the last edge into the removed slot, so edge order is not
//! stable across removals; no caller may depend on it.

use vstd::prelude::*;

use crate::account::{account_listed, image_of, AccountView};
use crate::seq_util::lemma_filter_empty;
use crate::seq_util::lemma_filter_push;
use crate::seq_util::swap_removed;
use crate::Contract;
use crate::SocialError;

verus! {

/// One directed follow edge: `user_account_id` follows `follower_account_id`.
/// (Mind the names: the second field holds the identity being followed.)
#[derive(Debug)]
pub struct UserFollowers {
    pub user_account_id: String,
    pub follower_account_id: String,
}

/// The mathematical value of an edge, under honest names.
pub struct EdgeView {
    pub follower: Seq<char>,
    pub followee: Seq<char>,
}

impl View for UserFollowers {
    type V = EdgeView;

    open spec fn view(&self) -> EdgeView {
        EdgeView { follower: self.user_account_id@, followee: self.follower_account_id@ }
    }
}

/// One entry of a following or followers list: a peer, its profile image,
/// and whether the listed identity follows that peer.
#[derive(Debug)]
pub struct UserFollowList {
    pub profile_image_url: String,
    pub user_account_id: String,
    pub is_followed: bool,
}

/// The mathematical value of a list entry.
pub struct FollowEntryView {
    pub profile_image_url: Seq<char>,
    pub user_account_id: Seq<char>,
    pub is_followed: bool,
}

impl View for UserFollowList {
    type V = FollowEntryView;

    open spec fn view(&self) -> FollowEntryView {
        FollowEntryView {
            profile_image_url: self.profile_image_url@,
            user_account_id: self.user_account_id@,
            is_followed: self.is_followed,
        }
    }
}

/// Whether the edge from `a` to `b` is present.
pub open spec fn edge_listed(edges: Seq<EdgeView>, a: Seq<char>, b: Seq<char>) -> bool {
    exists|i: int| 0 <= i < edges.len() && #[trigger] edges[i] == (EdgeView { follower: a, followee: b })
}

/// The index of the edge from `a` to `b`; meaningful only when it is listed.
pub open spec fn edge_index(edges: Seq<EdgeView>, a: Seq<char>, b: Seq<char>) -> int {
    choose|i: int| 0 <= i < edges.len() && #[trigger] edges[i] == (EdgeView { follower: a, followee: b })
}

/// At most one edge per ordered pair.
pub open spec fn edges_wf(edges: Seq<EdgeView>) -> bool {
    forall|i: int, j: int| 0 <= i < j < edges.len() ==> #[trigger] edges[i] != #[trigger] edges[j]
}

/// Follower test, as a named predicate so that every statement about
/// filtering by follower speaks of one function value.
pub open spec fn by_follower(a: Seq<char>) -> spec_fn(EdgeView) -> bool {
    |e: EdgeView| e.follower == a
}

/// Followee test, likewise named.
pub open spec fn by_followee(a: Seq<char>) -> spec_fn(EdgeView) -> bool {
    |e: EdgeView| e.followee == a
}

/// The edges whose follower is `a`, in storage order.
pub open spec fn following_of(edges: Seq<EdgeView>, a: Seq<char>) -> Seq<EdgeView> {
    edges.filter(by_follower(a))
}

/// The edges whose followee is `a`, in storage order.
pub open spec fn followers_of(edges: Seq<EdgeView>, a: Seq<char>) -> Seq<EdgeView> {
    edges.filter(by_followee(a))
}

/// The list entry made of an edge of `a`'s following list: the followed
/// peer, its profile image, and `is_followed` true — `a` follows every peer
/// of this list by definition.
pub open spec fn following_entry(accounts: Seq<AccountView>) -> spec_fn(EdgeView) -> FollowEntryView {
    |e: EdgeView|
        FollowEntryView {
            profile_image_url: image_of(accounts, e.followee),
            user_account_id: e.followee,
            is_followed: true,
        }
}

/// The list entry made of an edge of `a`'s followers list: the following
/// peer, its profile image, and whether `a` follows that peer back.
pub open spec fn followers_entry(
    edges: Seq<EdgeView>,
    accounts: Seq<AccountView>,
    a: Seq<char>,
) -> spec_fn(EdgeView) -> FollowEntryView {
    |e: EdgeView|
        FollowEntryView {
            profile_image_url: image_of(accounts, e.follower),
            user_account_id: e.follower,
            is_followed: edge_listed(edges, a, e.follower),
        }
}

/// The following list of `a`.
pub open spec fn following_list_model(
    edges: Seq<EdgeView>,
    accounts: Seq<AccountView>,
    a: Seq<char>,
) -> Seq<FollowEntryView> {
    following_of(edges, a).map_values(following_entry(accounts))
}

/// The followers list of `a`; `is_followed` of each entry is judged against
/// the whole edge set.
pub open spec fn followers_list_model(
    edges: Seq<EdgeView>,
    accounts: Seq<AccountView>,
    a: Seq<char>,
) -> Seq<FollowEntryView> {
    followers_of(edges, a).map_values(followers_entry(edges, accounts, a))
}

/// In a well-formed edge set the index of a listed edge is the only index
/// that holds it.
pub proof fn lemma_edge_index_unique(edges: Seq<EdgeView>, a: Seq<char>, b: Seq<char>, i: int)
    requires
        edges_wf(edges),
        0 <= i < edges.len(),
        edges[i] == (EdgeView { follower: a, followee: b }),
    ensures
        edge_listed(edges, a, b),
        edge_index(edges, a, b) == i,
{
    assert(edge_listed(edges, a, b));
    let j = edge_index(edges, a, b);
    if i < j {
        assert(edges[i] != edges[j]);
    } else if j < i {
        assert(edges[j] != edges[i]);
    }
}

impl Contract {
    /// The position of the edge from `user_account_id` to
    /// `destination_account_id`, used both as an existence probe and as the
    /// slot to remove on unfollow.
    pub fn is_user_followed(
        &self,
        user_account_id: &String,
        destination_account_id: &String,
    ) -> (r: Option<usize>)
        ensures
            match r {
                Option::Some(i) => i < self.edges().len() && self.edges()[i as int] == (EdgeView {
                    follower: user_account_id@,
                    followee: destination_account_id@,
                }) && edge_listed(self.edges(), user_account_id@, destination_account_id@),
                Option::None => !edge_listed(
                    self.edges(),
                    user_account_id@,
                    destination_account_id@,
                ),
            },
    {
        let n = self.user_followers.len();
        let mut i: usize = 0;
        while i < n
            invariant
                n == self.user_followers@.len(),
                i <= n,
                forall|k: int| 0 <= k < i ==> #[trigger] self.edges()[k] != (EdgeView {
                    follower: user_account_id@,
                    followee: destination_account_id@,
                }),
            decreases n - i,
        {
            let e = &self.user_followers[i];
            if e.user_account_id == *user_account_id && e.follower_account_id
                == *destination_account_id {
                assert(self.edges()[i as int] == (EdgeView {
                    follower: user_account_id@,
                    followee: destination_account_id@,
                }));
                return Option::Some(i);
            }
            i = i + 1;
        }
        Option::None
    }

    /// Add the follow edge from `user_account_id` to `address`. Fails with
    /// `AlreadyExists`, changing nothing, when the edge is already present.
    pub fn follow_user(&mut self, user_account_id: String, address: String) -> (r: Result<
        (),
        SocialError,
    >)
        requires
            old(self).wf(),
        ensures
            final(self).wf(),
            final(self).same_but_user_followers(old(self)),
            match r {
                Result::Ok(()) => !edge_listed(old(self).edges(), user_account_id@, address@)
                    && final(self).edges() == old(self).edges().push(
                    (EdgeView { follower: user_account_id@, followee: address@ }),
                ),
                Result::Err(e) => e == SocialError::AlreadyExists && edge_listed(
                    old(self).edges(),
                    user_account_id@,
                    address@,
                ) && *final(self) == *old(self),
            },
    {
        if self.is_user_followed(&user_account_id, &address).is_some() {
            return Result::Err(SocialError::AlreadyExists);
        }
        let edge = UserFollowers { user_account_id, follower_account_id: address };
        self.user_followers.push(edge);
        proof {
            let pre = old(self).edges();
            let post = self.edges();
            assert(post =~= pre.push(edge@));
            assert forall|i: int, j: int| 0 <= i < j < post.len() implies #[trigger] post[i]
                != #[trigger] post[j] by {
                if j < pre.len() {
                    assert(pre[i] != pre[j]);
                } else {
                    assert(post[j] == edge@);
                    assert(!edge_listed(pre, edge@.follower, edge@.followee));
                    assert(post[i] == pre[i]);
                }
            }
        }
        Result::Ok(())
    }

    /// Remove the follow edge from `user_account_id` to `address` by
    /// swapping the last edge into its slot. Fails with `NotFound`, changing
    /// nothing, when the edge is absent.
    pub fn unfollow_user(&mut self, user_account_id: &String, address: &String) -> (r: Result<
        (),
        SocialError,
    >)
        requires
            old(self).wf(),
        ensures
            final(self).wf(),
            final(self).same_but_user_followers(old(self)),
            match r {
                Result::Ok(()) => edge_listed(old(self).edges(), user_account_id@, address@)
                    && final(self).edges() == swap_removed(
                    old(self).edges(),
                    edge_index(old(self).edges(), user_account_id@, address@),
                ) && !edge_listed(final(self).edges(), user_account_id@, address@),
                Result::Err(e) => e == SocialError::NotFound && !edge_listed(
                    old(self).edges(),
                    user_account_id@,
                    address@,
                ) && *final(self) == *old(self),
            },
    {
        let found = self.is_user_followed(user_account_id, address);
        match found {
            Option::Some(i) => {
                proof {
                    lemma_edge_index_unique(
                        self.edges(),
                        user_account_id@,
                        address@,
                        i as int,
                    );
                }
                self.user_followers.swap_remove(i);
                proof {
                    let pre = old(self).edges();
                    let post = self.edges();
                    let ii = i as int;
                    assert(post =~= swap_removed(pre, ii));
                    assert forall|a: int, b: int| 0 <= a < b < post.len() implies #[trigger] post[a]
                        != #[trigger] post[b] by {
                        let n = pre.len() as int;
                        let pa: int = if a == ii { n - 1 } else { a };
                        let pb: int = if b == ii { n - 1 } else { b };
                        assert(post[a] == pre[pa]);
                        assert(post[b] == pre[pb]);
                    }
                    assert forall|k: int| 0 <= k < post.len() implies #[trigger] post[k]
                        != (EdgeView { follower: user_account_id@, followee: address@ }) by {
                        let n = pre.len() as int;
                        let pk: int = if k == ii { n - 1 } else { k };
                        assert(post[k] == pre[pk]);
                        if pk != ii {
                            assert(pre[pk] != pre[ii]);
                        }
                    }
                }
                Result::Ok(())
            },
            Option::None => Result::Err(SocialError::NotFound),
        }
    }

    /// The peers that `user_account_id` follows, each with its profile
    /// image. Fails with `NotFound` when the identity has no profile.
    pub fn get_user_following_list(&self, user_account_id: &String) -> (r: Result<
        Vec<UserFollowList>,
        SocialError,
    >)
        requires
            self.wf(),
        ensures
            match r {
                Result::Ok(list) => account_listed(self.users(), user_account_id@)
                    && list@.map_values(|x: UserFollowList| x@) == following_list_model(
                    self.edges(),
                    self.users(),
                    user_account_id@,
                ),
                Result::Err(e) => e == SocialError::NotFound && !account_listed(
                    self.users(),
                    user_account_id@,
                ),
            },
    {
        if !self.is_user_exists(user_account_id) {
            return Result::Err(SocialError::NotFound);
        }
        let n = self.user_followers.len();
        let mut out: Vec<UserFollowList> = Vec::new();
        let mut i: usize = 0;
        proof {
            lemma_filter_empty(by_follower(user_account_id@));
            assert(self.edges().subrange(0, 0) =~= Seq::<EdgeView>::empty());
            assert(out@.map_values(|x: UserFollowList| x@) =~= following_list_model(
                self.edges().subrange(0, 0),
                self.users(),
                user_account_id@,
            ));
        }
        while i < n
            invariant
                self.wf(),
                n == self.user_followers@.len(),
                i <= n,
                out@.map_values(|x: UserFollowList| x@) == following_list_model(
                    self.edges().subrange(0, i as int),
                    self.users(),
                    user_account_id@,
                ),
            decreases n - i,
        {
            let ghost prefix = self.edges().subrange(0, i as int);
            let ghost prev = out@.map_values(|x: UserFollowList| x@);
            proof {
                assert(self.edges().subrange(0, i + 1) =~= prefix.push(self.edges()[i as int]));
                lemma_filter_push(prefix, by_follower(user_account_id@), self.edges()[i as int]);
            }
            let e = &self.user_followers[i];
            if e.user_account_id == *user_account_id {
                let entry = UserFollowList {
                    profile_image_url: self.image_lookup(&e.follower_account_id),
                    user_account_id: e.follower_account_id.clone(),
                    is_followed: true,
                };
                proof {
                    assert(entry@ == (following_entry(self.users()))(self.edges()[i as int]));
                }
                out.push(entry);
                proof {
                    assert(out@.map_values(|x: UserFollowList| x@) =~= prev.push(entry@));
                    assert(following_list_model(
                        self.edges().subrange(0, i + 1),
                        self.users(),
                        user_account_id@,
                    ) =~= prev.push(entry@));
                }
            }
            i = i + 1;
        }
        proof {
            assert(self.edges().subrange(0, n as int) =~= self.edges());
        }
        Result::Ok(out)
    }

    /// How many peers `user_account_id` follows. Fails with `NotFound` when
    /// the identity has no profile.
    pub fn get_user_following_count(&self, user_account_id: &String) -> (r: Result<
        u64,
        SocialError,
    >)
        requires
            self.wf(),
        ensures
            match r {
                Result::Ok(c) => account_listed(self.users(), user_account_id@) && c
                    == following_of(self.edges(), user_account_id@).len(),
                Result::Err(e) => e == SocialError::NotFound && !account_listed(
                    self.users(),
                    user_account_id@,
                ),
            },
    {
        if !self.is_user_exists(user_account_id) {
            return Result::Err(SocialError::NotFound);
        }
        let n = self.user_followers.len();
        let mut count: u64 = 0;
        let mut i: usize = 0;
        proof {
            lemma_filter_empty(by_follower(user_account_id@));
            assert(self.edges().subrange(0, 0) =~= Seq::<EdgeView>::empty());
        }
        while i < n
            invariant
                n == self.user_followers@.len(),
                i <= n,
                count == following_of(self.edges().subrange(0, i as int), user_account_id@).len(),
                count <= i,
            decreases n - i,
        {
            let ghost prefix = self.edges().subrange(0, i as int);
            proof {
                assert(self.edges().subrange(0, i + 1) =~= prefix.push(self.edges()[i as int]));
                lemma_filter_push(prefix, by_follower(user_account_id@), self.edges()[i as int]);
            }
            if self.user_followers[i].user_account_id == *user_account_id {
                count = count + 1;
            }
            i = i + 1;
        }
        proof {
            assert(self.edges().subrange(0, n as int) =~= self.edges());
        }
        Result::Ok(count)
    }

    /// The peers that follow `user_account_id`, each with its profile image
    /// and whether `user_account_id` follows it back. Fails with `NotFound`
    /// when the identity has no profile.
    pub fn get_user_followers_list(&self, user_account_id: &String) -> (r: Result<
        Vec<UserFollowList>,
        SocialError,
    >)
        requires
            self.wf(),
        ensures
            match r {
                Result::Ok(list) => account_listed(self.users(), user_account_id@)
                    && list@.map_values(|x: UserFollowList| x@) == followers_list_model(
                    self.edges(),
                    self.users(),
                    user_account_id@,
                ),
                Result::Err(e) => e == SocialError::NotFound && !account_listed(
                    self.users(),
                    user_account_id@,
                ),
            },
    {
        if !self.is_user_exists(user_account_id) {
            return Result::Err(SocialError::NotFound);
        }
        let n = self.user_followers.len();
        let mut out: Vec<UserFollowList> = Vec::new();
        let mut i: usize = 0;
        proof {
            lemma_filter_empty(by_followee(user_account_id@));
            assert(self.edges().subrange(0, 0) =~= Seq::<EdgeView>::empty());
            assert(out@.map_values(|x: UserFollowList| x@) =~= followers_of(
                self.edges().subrange(0, 0),
                user_account_id@,
            ).map_values(followers_entry(self.edges(), self.users(), user_account_id@)));
        }
        while i < n
            invariant
                self.wf(),
                n == self.user_followers@.len(),
                i <= n,
                out@.map_values(|x: UserFollowList| x@) == followers_of(
                    self.edges().subrange(0, i as int),
                    user_account_id@,
                ).map_values(followers_entry(self.edges(), self.users(), user_account_id@)),
            decreases n - i,
        {
            let ghost prefix = self.edges().subrange(0, i as int);
            let ghost prev = out@.map_values(|x: UserFollowList| x@);
            proof {
                assert(self.edges().subrange(0, i + 1) =~= prefix.push(self.edges()[i as int]));
                lemma_filter_push(prefix, by_followee(user_account_id@), self.edges()[i as int]);
            }
            let e = &self.user_followers[i];
            if e.follower_account_id == *user_account_id {
                let followed_back = self.is_user_followed(user_account_id, &e.user_account_id);
                let entry = UserFollowList {
                    profile_image_url: self.image_lookup(&e.user_account_id),
                    user_account_id: e.user_account_id.clone(),
                    is_followed: followed_back.is_some(),
                };
                proof {
                    assert(entry@ == (followers_entry(
                        self.edges(),
                        self.users(),
                        user_account_id@,
                    ))(self.edges()[i as int]));
                }
                out.push(entry);
                proof {
                    assert(out@.map_values(|x: UserFollowList| x@) =~= prev.push(entry@));
                    assert(followers_of(self.edges().subrange(0, i + 1), user_account_id@)
                        .map_values(followers_entry(self.edges(), self.users(), user_account_id@))
                        =~= prev.push(entry@));
                }
            }
            i = i + 1;
        }
        proof {
            assert(self.edges().subrange(0, n as int) =~= self.edges());
        }
        Result::Ok(out)
    }

    /// How many peers follow `user_account_id`. Fails with `NotFound` when
    /// the identity has no profile.
    pub fn get_user_followers_count(&self, user_account_id: &String) -> (r: Result<
        u64,
        SocialError,
    >)
        requires
            self.wf(),
        ensures
            match r {
                Result::Ok(c) => account_listed(self.users(), user_account_id@) && c
                    == followers_of(self.edges(), user_account_id@).len(),
                Result::Err(e) => e == SocialError::NotFound && !account_listed(
                    self.users(),
                    user_account_id@,
                ),
            },
    {
        if !self.is_user_exists(user_account_id) {
            return Result::Err(SocialError::NotFound);
        }
        let n = self.user_followers.len();
        let mut count: u64 = 0;
        let mut i: usize = 0;
        proof {
            lemma_filter_empty(by_followee(user_account_id@));
            assert(self.edges().subrange(0, 0) =~= Seq::<EdgeView>::empty());
        }
        while i < n
            invariant
                n == self.user_followers@.len(),
                i <= n,
                count == followers_of(self.edges().subrange(0, i as int), user_account_id@).len(),
                count <= i,
            decreases n - i,
        {
            let ghost prefix = self.edges().subrange(0, i as int);
            proof {
                assert(self.edges().subrange(0, i + 1) =~= prefix.push(self.edges()[i as int]));
                lemma_filter_push(prefix, by_followee(user_account_id@), self.edges()[i as int]);
            }
            if self.user_followers[i].follower_account_id == *user_account_id {
                count = count + 1;
            }
            i = i + 1;
        }
        proof {
            assert(self.edges().subrange(0, n as int) =~= self.edges());
        }
        Result::Ok(count)
    }
}

} // verus!

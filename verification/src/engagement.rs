//! Per-post engagement: likes (one per post and user, toggled) and comments
//! (append-only, non-empty text, globally numbered).
//!
//! Neither path checks the post id against the post log: engaging with a
//! nonexistent post silently succeeds and leaves an orphan record. That gap
//! is deliberate and documented; queries key engagement by post id alone.
//!
//! Removing a like swaps the last like into the removed slot, so like order
//! is not stable across removals; no caller may depend on it.

use vstd::prelude::*;

use crate::seq_util::lemma_filter_empty;
use crate::seq_util::lemma_filter_push;
use crate::seq_util::lemma_filter_swap_removed;
use crate::seq_util::swap_removed;
use crate::Contract;
use crate::SocialError;
use vstd::string::StrSliceExecFns;

verus! {

/// One like record.
#[derive(Debug)]
pub struct PostLikes {
    pub post_id: u64,
    pub user_address: String,
    pub created_at: u64,
}

/// The mathematical value of a like record.
pub struct LikeView {
    pub post_id: u64,
    pub user: Seq<char>,
    pub created_at: u64,
}

impl View for PostLikes {
    type V = LikeView;

    open spec fn view(&self) -> LikeView {
        LikeView { post_id: self.post_id, user: self.user_address@, created_at: self.created_at }
    }
}

/// One comment record.
#[derive(Debug)]
pub struct PostComment {
    pub comment_id: u64,
    pub post_id: u64,
    pub user_address: String,
    pub comment: String,
    pub created_at: u64,
}

/// The mathematical value of a comment record.
pub struct CommentView {
    pub comment_id: u64,
    pub post_id: u64,
    pub user: Seq<char>,
    pub text: Seq<char>,
    pub created_at: u64,
}

impl View for PostComment {
    type V = CommentView;

    open spec fn view(&self) -> CommentView {
        CommentView {
            comment_id: self.comment_id,
            post_id: self.post_id,
            user: self.user_address@,
            text: self.comment@,
            created_at: self.created_at,
        }
    }
}

/// At most one like per (post, user) pair.
pub open spec fn likes_wf(likes: Seq<LikeView>) -> bool {
    forall|i: int, j: int|
        0 <= i < j < likes.len() ==> !(#[trigger] likes[i].post_id == #[trigger] likes[j].post_id
            && likes[i].user == likes[j].user)
}

/// The comment log is dense and clean: the counter equals the length, the
/// comment at index `i` carries id `i + 1`, and no comment text is empty.
pub open spec fn comments_wf(comments: Seq<CommentView>, counter: u64) -> bool {
    &&& counter == comments.len()
    &&& forall|i: int| 0 <= i < comments.len() ==> #[trigger] comments[i].comment_id == i + 1
    &&& forall|i: int| 0 <= i < comments.len() ==> #[trigger] comments[i].text.len() > 0
}

/// Whether `u` currently likes post `p`.
pub open spec fn like_listed(likes: Seq<LikeView>, p: u64, u: Seq<char>) -> bool {
    exists|i: int|
        0 <= i < likes.len() && (#[trigger] likes[i].post_id) == p && likes[i].user == u
}

/// The index of `u`'s like of post `p`; meaningful only when it is listed.
pub open spec fn like_index(likes: Seq<LikeView>, p: u64, u: Seq<char>) -> int {
    choose|i: int|
        0 <= i < likes.len() && (#[trigger] likes[i].post_id) == p && likes[i].user == u
}

/// Membership test by post id, as a named predicate so that every statement
/// about a post's likes speaks of one function value.
pub open spec fn like_on(p: u64) -> spec_fn(LikeView) -> bool {
    |l: LikeView| l.post_id == p
}

/// The likes of post `p`, in storage order.
pub open spec fn likes_of(likes: Seq<LikeView>, p: u64) -> Seq<LikeView> {
    likes.filter(like_on(p))
}

/// Membership test by post id for comments.
pub open spec fn comment_on(p: u64) -> spec_fn(CommentView) -> bool {
    |c: CommentView| c.post_id == p
}

/// The comments of post `p`, in creation order.
pub open spec fn comments_of(comments: Seq<CommentView>, p: u64) -> Seq<CommentView> {
    comments.filter(comment_on(p))
}

/// What one like toggle leaves behind: a new like of `p` by `u` stamped `t`
/// when absent, and the like swap-removed when present.
pub open spec fn like_toggle_model(likes: Seq<LikeView>, p: u64, u: Seq<char>, t: u64) -> Seq<
    LikeView,
> {
    if like_listed(likes, p, u) {
        swap_removed(likes, like_index(likes, p, u))
    } else {
        likes.push(LikeView { post_id: p, user: u, created_at: t })
    }
}

/// In a well-formed like set the index of a listed like is the only index
/// that holds its (post, user) pair.
pub proof fn lemma_like_index_unique(likes: Seq<LikeView>, p: u64, u: Seq<char>, i: int)
    requires
        likes_wf(likes),
        0 <= i < likes.len(),
        likes[i].post_id == p,
        likes[i].user == u,
    ensures
        like_listed(likes, p, u),
        like_index(likes, p, u) == i,
{
    assert(like_listed(likes, p, u));
    let j = like_index(likes, p, u);
    if i < j {
        assert(!(likes[i].post_id == likes[j].post_id && likes[i].user == likes[j].user));
    } else if j < i {
        assert(!(likes[j].post_id == likes[i].post_id && likes[j].user == likes[i].user));
    }
}

/// One like toggle keeps the like set well-formed, flips exactly the
/// (post, user) membership in question, and moves the post's like count by
/// one in the corresponding direction.
pub proof fn lemma_like_toggle_properties(likes: Seq<LikeView>, p: u64, u: Seq<char>, t: u64)
    requires
        likes_wf(likes),
    ensures
        likes_wf(like_toggle_model(likes, p, u, t)),
        like_listed(like_toggle_model(likes, p, u, t), p, u) == !like_listed(likes, p, u),
        likes_of(like_toggle_model(likes, p, u, t), p).len() == if like_listed(likes, p, u) {
            likes_of(likes, p).len() - 1
        } else {
            likes_of(likes, p).len() + 1int
        },
{
    let post = like_toggle_model(likes, p, u, t);
    if like_listed(likes, p, u) {
        let ii = like_index(likes, p, u);
        assert(0 <= ii < likes.len() && likes[ii].post_id == p && likes[ii].user == u);
        let n = likes.len() as int;
        assert(post == swap_removed(likes, ii));
        lemma_filter_swap_removed(likes, like_on(p), ii);
        assert((like_on(p))(likes[ii]));
        assert forall|a: int, b: int| 0 <= a < b < post.len() implies !((
        #[trigger] post[a].post_id) == (#[trigger] post[b].post_id) && post[a].user
            == post[b].user) by {
            let pa: int = if a == ii { n - 1 } else { a };
            let pb: int = if b == ii { n - 1 } else { b };
            assert(post[a] == likes[pa]);
            assert(post[b] == likes[pb]);
            if pa < pb {
                assert(!(likes[pa].post_id == likes[pb].post_id && likes[pa].user
                    == likes[pb].user));
            } else {
                assert(!(likes[pb].post_id == likes[pa].post_id && likes[pb].user
                    == likes[pa].user));
            }
        }
        assert forall|k: int| 0 <= k < post.len() implies !((#[trigger] post[k].post_id) == p
            && post[k].user == u) by {
            let pk: int = if k == ii { n - 1 } else { k };
            assert(post[k] == likes[pk]);
            if pk != ii {
                if pk < ii {
                    assert(!(likes[pk].post_id == likes[ii].post_id && likes[pk].user
                        == likes[ii].user));
                } else {
                    assert(!(likes[ii].post_id == likes[pk].post_id && likes[ii].user
                        == likes[pk].user));
                }
            }
        }
    } else {
        let l = LikeView { post_id: p, user: u, created_at: t };
        assert(post == likes.push(l));
        lemma_filter_push(likes, like_on(p), l);
        assert(post[post.len() - 1].post_id == p);
        assert(like_listed(post, p, u));
        assert forall|a: int, b: int| 0 <= a < b < post.len() implies !((
        #[trigger] post[a].post_id) == (#[trigger] post[b].post_id) && post[a].user
            == post[b].user) by {
            if b < likes.len() {
                assert(!(likes[a].post_id == likes[b].post_id && likes[a].user == likes[b].user));
            } else {
                assert(post[b] == l);
                assert(!like_listed(likes, p, u));
                assert(post[a] == likes[a]);
            }
        }
    }
}

impl Contract {
    /// The slot of `address`'s like of `post_id`, if any.
    fn find_like(&self, post_id: u64, address: &String) -> (r: Option<usize>)
        ensures
            match r {
                Option::Some(i) => i < self.likes().len() && self.likes()[i as int].post_id
                    == post_id && self.likes()[i as int].user == address@ && like_listed(
                    self.likes(),
                    post_id,
                    address@,
                ),
                Option::None => !like_listed(self.likes(), post_id, address@),
            },
    {
        let n = self.post_likes.len();
        let mut i: usize = 0;
        while i < n
            invariant
                n == self.post_likes@.len(),
                i <= n,
                forall|k: int|
                    0 <= k < i ==> !((#[trigger] self.likes()[k].post_id) == post_id
                        && self.likes()[k].user == address@),
            decreases n - i,
        {
            let l = &self.post_likes[i];
            if l.post_id == post_id && l.user_address == *address {
                return Option::Some(i);
            }
            i = i + 1;
        }
        Option::None
    }

    /// Toggle `address`'s like of `post_id`: like it when not yet liked,
    /// withdraw the like when already liked. `now` stamps a new like. The
    /// post need not exist (a like of a missing post is a silent orphan).
    pub fn like_post(&mut self, post_id: u64, address: String, now: u64)
        requires
            old(self).wf(),
        ensures
            final(self).wf(),
            final(self).same_but_post_likes(old(self)),
            final(self).likes() == like_toggle_model(old(self).likes(), post_id, address@, now),
            like_listed(final(self).likes(), post_id, address@) == !like_listed(
                old(self).likes(),
                post_id,
                address@,
            ),
            likes_of(final(self).likes(), post_id).len() == if like_listed(
                old(self).likes(),
                post_id,
                address@,
            ) {
                likes_of(old(self).likes(), post_id).len() - 1
            } else {
                likes_of(old(self).likes(), post_id).len() + 1int
            },
    {
        let found = self.find_like(post_id, &address);
        match found {
            Option::None => {
                let like = PostLikes { post_id, user_address: address, created_at: now };
                self.post_likes.push(like);
                proof {
                    let pre = old(self).likes();
                    let post = self.likes();
                    assert(post =~= pre.push(like@));
                    lemma_filter_push(pre, like_on(post_id), like@);
                    assert(post[post.len() - 1].post_id == post_id);
                    assert(like_listed(post, post_id, address@));
                    assert forall|i: int, j: int| 0 <= i < j < post.len() implies !((
                    #[trigger] post[i].post_id) == (#[trigger] post[j].post_id) && post[i].user
                        == post[j].user) by {
                        if j < pre.len() {
                            assert(!(pre[i].post_id == pre[j].post_id && pre[i].user
                                == pre[j].user));
                        } else {
                            assert(post[j] == like@);
                            assert(!like_listed(pre, post_id, address@));
                            assert(post[i] == pre[i]);
                        }
                    }
                }
            },
            Option::Some(i) => {
                proof {
                    lemma_like_index_unique(self.likes(), post_id, address@, i as int);
                }
                self.post_likes.swap_remove(i);
                proof {
                    let pre = old(self).likes();
                    let post = self.likes();
                    let ii = i as int;
                    let n = pre.len() as int;
                    assert(post =~= swap_removed(pre, ii));
                    lemma_filter_swap_removed(pre, like_on(post_id), ii);
                    assert((like_on(post_id))(pre[ii]));
                    assert forall|a: int, b: int| 0 <= a < b < post.len() implies !((
                    #[trigger] post[a].post_id) == (#[trigger] post[b].post_id) && post[a].user
                        == post[b].user) by {
                        let pa: int = if a == ii { n - 1 } else { a };
                        let pb: int = if b == ii { n - 1 } else { b };
                        assert(post[a] == pre[pa]);
                        assert(post[b] == pre[pb]);
                        if pa < pb {
                            assert(!(pre[pa].post_id == pre[pb].post_id && pre[pa].user
                                == pre[pb].user));
                        } else {
                            assert(!(pre[pb].post_id == pre[pa].post_id && pre[pb].user
                                == pre[pa].user));
                        }
                    }
                    assert forall|k: int| 0 <= k < post.len() implies !((
                    #[trigger] post[k].post_id) == post_id && post[k].user == address@) by {
                        let pk: int = if k == ii { n - 1 } else { k };
                        assert(post[k] == pre[pk]);
                        if pk != ii {
                            if pk < ii {
                                assert(!(pre[pk].post_id == pre[ii].post_id && pre[pk].user
                                    == pre[ii].user));
                            } else {
                                assert(!(pre[ii].post_id == pre[pk].post_id && pre[ii].user
                                    == pre[pk].user));
                            }
                        }
                    }
                }
            },
        }
    }

    /// Append a comment by `address` on `post_id` with the next global
    /// comment id; `now` is the caller-supplied clock. Fails with
    /// `EmptyInput`, changing nothing, when the text has no characters. The
    /// post need not exist (a comment on a missing post is a silent orphan).
    pub fn comment_on_post(&mut self, post_id: u64, address: String, comment: String, now: u64)
        -> (r: Result<(), SocialError>)
        requires
            old(self).wf(),
            old(self).post_comments@.len() < u64::MAX,
        ensures
            final(self).wf(),
            final(self).same_but_post_comments(old(self)),
            match r {
                Result::Ok(()) => comment@.len() > 0 && final(self).comment_counter == old(
                    self,
                ).comment_counter + 1 && final(self).comments() == old(self).comments().push(
                    (CommentView {
                        comment_id: (old(self).comment_counter + 1) as u64,
                        post_id,
                        user: address@,
                        text: comment@,
                        created_at: now,
                    }),
                ),
                Result::Err(e) => e == SocialError::EmptyInput && comment@.len() == 0 && *final(self)
                    == *old(self),
            },
    {
        if comment.as_str().unicode_len() == 0 {
            return Result::Err(SocialError::EmptyInput);
        }
        let record = PostComment {
            comment_id: self.comment_counter + 1,
            post_id,
            user_address: address,
            comment,
            created_at: now,
        };
        self.post_comments.push(record);
        self.comment_counter = self.comment_counter + 1;
        proof {
            assert(self.comments() =~= old(self).comments().push(record@));
        }
        Result::Ok(())
    }

    /// Whether `address` currently likes `post_id`.
    pub fn liked_by(&self, post_id: u64, address: &String) -> (r: bool)
        ensures
            r == like_listed(self.likes(), post_id, address@),
    {
        self.find_like(post_id, address).is_some()
    }

    /// How many likes post `post_id` has.
    pub fn like_count(&self, post_id: u64) -> (r: u64)
        ensures
            r == likes_of(self.likes(), post_id).len(),
    {
        let n = self.post_likes.len();
        let mut count: u64 = 0;
        let mut i: usize = 0;
        proof {
            lemma_filter_empty(like_on(post_id));
            assert(self.likes().subrange(0, 0) =~= Seq::<LikeView>::empty());
        }
        while i < n
            invariant
                n == self.post_likes@.len(),
                i <= n,
                count == likes_of(self.likes().subrange(0, i as int), post_id).len(),
                count <= i,
            decreases n - i,
        {
            let ghost prefix = self.likes().subrange(0, i as int);
            proof {
                assert(self.likes().subrange(0, i + 1) =~= prefix.push(self.likes()[i as int]));
                lemma_filter_push(prefix, like_on(post_id), self.likes()[i as int]);
            }
            if self.post_likes[i].post_id == post_id {
                count = count + 1;
            }
            i = i + 1;
        }
        proof {
            assert(self.likes().subrange(0, n as int) =~= self.likes());
        }
        count
    }

    /// The like records of post `post_id`, in storage order.
    pub fn likes_for(&self, post_id: u64) -> (r: Vec<PostLikes>)
        ensures
            r@.map_values(|l: PostLikes| l@) == likes_of(self.likes(), post_id),
    {
        let n = self.post_likes.len();
        let mut out: Vec<PostLikes> = Vec::new();
        let mut i: usize = 0;
        proof {
            lemma_filter_empty(like_on(post_id));
            assert(self.likes().subrange(0, 0) =~= Seq::<LikeView>::empty());
            assert(out@.map_values(|l: PostLikes| l@) =~= Seq::<LikeView>::empty());
        }
        while i < n
            invariant
                n == self.post_likes@.len(),
                i <= n,
                out@.map_values(|l: PostLikes| l@) == likes_of(
                    self.likes().subrange(0, i as int),
                    post_id,
                ),
            decreases n - i,
        {
            let ghost prefix = self.likes().subrange(0, i as int);
            let ghost prev = out@.map_values(|l: PostLikes| l@);
            proof {
                assert(self.likes().subrange(0, i + 1) =~= prefix.push(self.likes()[i as int]));
                lemma_filter_push(prefix, like_on(post_id), self.likes()[i as int]);
            }
            let l = &self.post_likes[i];
            if l.post_id == post_id {
                let copy = PostLikes {
                    post_id: l.post_id,
                    user_address: l.user_address.clone(),
                    created_at: l.created_at,
                };
                proof {
                    assert(copy@ == self.likes()[i as int]);
                }
                out.push(copy);
                proof {
                    assert(out@.map_values(|x: PostLikes| x@) =~= prev.push(copy@));
                }
            }
            i = i + 1;
        }
        proof {
            assert(self.likes().subrange(0, n as int) =~= self.likes());
        }
        out
    }

    /// The addresses that like post `post_id`, in storage order.
    pub fn get_post_likes_details(&self, post_id: u64) -> (r: Vec<String>)
        ensures
            r@.len() == likes_of(self.likes(), post_id).len(),
            forall|k: int| 0 <= k < r@.len() ==> #[trigger] r@[k]@ == likes_of(
                self.likes(),
                post_id,
            )[k].user,
    {
        let likes = self.likes_for(post_id);
        let mut out: Vec<String> = Vec::new();
        let mut i: usize = 0;
        let n = likes.len();
        while i < n
            invariant
                n == likes@.len(),
                likes@.map_values(|l: PostLikes| l@) == likes_of(self.likes(), post_id),
                i <= n,
                out@.len() == i,
                forall|k: int| 0 <= k < i ==> #[trigger] out@[k]@ == likes_of(
                    self.likes(),
                    post_id,
                )[k].user,
            decreases n - i,
        {
            out.push(likes[i].user_address.clone());
            i = i + 1;
        }
        out
    }

    /// How many comments post `post_id` has.
    pub fn comment_count(&self, post_id: u64) -> (r: u64)
        ensures
            r == comments_of(self.comments(), post_id).len(),
    {
        let n = self.post_comments.len();
        let mut count: u64 = 0;
        let mut i: usize = 0;
        proof {
            lemma_filter_empty(comment_on(post_id));
            assert(self.comments().subrange(0, 0) =~= Seq::<CommentView>::empty());
        }
        while i < n
            invariant
                n == self.post_comments@.len(),
                i <= n,
                count == comments_of(self.comments().subrange(0, i as int), post_id).len(),
                count <= i,
            decreases n - i,
        {
            let ghost prefix = self.comments().subrange(0, i as int);
            proof {
                assert(self.comments().subrange(0, i + 1) =~= prefix.push(
                    self.comments()[i as int],
                ));
                lemma_filter_push(prefix, comment_on(post_id), self.comments()[i as int]);
            }
            if self.post_comments[i].post_id == post_id {
                count = count + 1;
            }
            i = i + 1;
        }
        proof {
            assert(self.comments().subrange(0, n as int) =~= self.comments());
        }
        count
    }

    /// The comment records of post `post_id`, in creation order.
    pub fn comments_for(&self, post_id: u64) -> (r: Vec<PostComment>)
        ensures
            r@.map_values(|c: PostComment| c@) == comments_of(self.comments(), post_id),
    {
        let n = self.post_comments.len();
        let mut out: Vec<PostComment> = Vec::new();
        let mut i: usize = 0;
        proof {
            lemma_filter_empty(comment_on(post_id));
            assert(self.comments().subrange(0, 0) =~= Seq::<CommentView>::empty());
            assert(out@.map_values(|c: PostComment| c@) =~= Seq::<CommentView>::empty());
        }
        while i < n
            invariant
                n == self.post_comments@.len(),
                i <= n,
                out@.map_values(|c: PostComment| c@) == comments_of(
                    self.comments().subrange(0, i as int),
                    post_id,
                ),
            decreases n - i,
        {
            let ghost prefix = self.comments().subrange(0, i as int);
            let ghost prev = out@.map_values(|c: PostComment| c@);
            proof {
                assert(self.comments().subrange(0, i + 1) =~= prefix.push(
                    self.comments()[i as int],
                ));
                lemma_filter_push(prefix, comment_on(post_id), self.comments()[i as int]);
            }
            let c = &self.post_comments[i];
            if c.post_id == post_id {
                let copy = PostComment {
                    comment_id: c.comment_id,
                    post_id: c.post_id,
                    user_address: c.user_address.clone(),
                    comment: c.comment.clone(),
                    created_at: c.created_at,
                };
                proof {
                    assert(copy@ == self.comments()[i as int]);
                }
                out.push(copy);
                proof {
                    assert(out@.map_values(|x: PostComment| x@) =~= prev.push(copy@));
                }
            }
            i = i + 1;
        }
        proof {
            assert(self.comments().subrange(0, n as int) =~= self.comments());
        }
        out
    }
}

} // verus!

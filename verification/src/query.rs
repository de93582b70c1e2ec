//! Read views composed from the stores: the feed, a single post's detail,
//! and a user's posts. Every view is computed fresh per call from the
//! current state; nothing is cached. A composed read never returns a
//! partial result: either every joined lookup succeeds or the call fails.

use vstd::prelude::*;

use crate::account::{account_listed, account_record, image_of, AccountView, UserAccountDetail};
use crate::content::{by_author, post_at, post_listed, posts_by, PostDetail, PostDetailView};
use crate::engagement::{
    comments_of, like_listed, likes_of, CommentView, LikeView, PostComment, PostLikes,
};
use crate::seq_util::lemma_filter_elements;
use crate::Contract;
use crate::SocialError;

verus! {

/// One like of a post, joined with the liker's profile image.
#[derive(Debug)]
pub struct PostLikeDetailsOutput {
    pub user_address: String,
    pub profile_image_url: String,
}

/// The mathematical value of a joined like entry.
pub struct LikeDetailView {
    pub user_address: Seq<char>,
    pub profile_image_url: Seq<char>,
}

impl View for PostLikeDetailsOutput {
    type V = LikeDetailView;

    open spec fn view(&self) -> LikeDetailView {
        LikeDetailView {
            user_address: self.user_address@,
            profile_image_url: self.profile_image_url@,
        }
    }
}

/// One comment on a post, joined with the commenter's profile image.
#[derive(Debug)]
pub struct PostCommentDetailsOutput {
    pub comment_id: u64,
    pub user_address: String,
    pub profile_image_url: String,
    pub comment: String,
    pub created_at: u64,
}

/// The mathematical value of a joined comment entry.
pub struct CommentDetailView {
    pub comment_id: u64,
    pub user_address: Seq<char>,
    pub profile_image_url: Seq<char>,
    pub comment: Seq<char>,
    pub created_at: u64,
}

impl View for PostCommentDetailsOutput {
    type V = CommentDetailView;

    open spec fn view(&self) -> CommentDetailView {
        CommentDetailView {
            comment_id: self.comment_id,
            user_address: self.user_address@,
            profile_image_url: self.profile_image_url@,
            comment: self.comment@,
            created_at: self.created_at,
        }
    }
}

/// One post as a view: the record joined with its author's name and image,
/// engagement counts, optionally the full engagement lists, and optionally
/// whether the viewer likes it.
#[derive(Debug)]
pub struct PostOutputFormat {
    pub name: String,
    pub profile_image_url: String,
    pub post: PostDetail,
    pub like_count: u64,
    pub comment_count: u64,
    pub like_details: Option<Vec<PostLikeDetailsOutput>>,
    pub comment_details: Option<Vec<PostCommentDetailsOutput>>,
    pub is_liked: Option<bool>,
}

/// The joined form of one like record.
pub open spec fn like_detail_entry(accounts: Seq<AccountView>) -> spec_fn(LikeView) -> LikeDetailView {
    |l: LikeView|
        LikeDetailView { user_address: l.user, profile_image_url: image_of(accounts, l.user) }
}

/// The full like list of post `p`, joined with profile images.
pub open spec fn like_details_model(
    likes: Seq<LikeView>,
    accounts: Seq<AccountView>,
    p: u64,
) -> Seq<LikeDetailView> {
    likes_of(likes, p).map_values(like_detail_entry(accounts))
}

/// The joined form of one comment record.
pub open spec fn comment_detail_entry(accounts: Seq<AccountView>) -> spec_fn(CommentView) -> CommentDetailView {
    |c: CommentView|
        CommentDetailView {
            comment_id: c.comment_id,
            user_address: c.user,
            profile_image_url: image_of(accounts, c.user),
            comment: c.text,
            created_at: c.created_at,
        }
}

/// The full comment list of post `p`, joined with profile images.
pub open spec fn comment_details_model(
    comments: Seq<CommentView>,
    accounts: Seq<AccountView>,
    p: u64,
) -> Seq<CommentDetailView> {
    comments_of(comments, p).map_values(comment_detail_entry(accounts))
}

/// The viewer argument as an optional identity.
pub open spec fn opt_viewer(v: Option<&String>) -> Option<Seq<char>> {
    match v {
        Option::Some(s) => Option::Some(s@),
        Option::None => Option::None,
    }
}

/// The identity `is_liked` is judged against in a user's post list: the
/// viewer when one is given, else the listed account itself.
pub open spec fn effective_viewer(account: Seq<char>, v: Option<Seq<char>>) -> Seq<char> {
    match v {
        Option::Some(x) => x,
        Option::None => account,
    }
}

/// What a summary view of post `pv` must hold: the record itself, the
/// author's name and image, the engagement counts, no detail lists, and
/// `is_liked` judged for the viewer exactly when one is given.
pub open spec fn feed_entry_ok(
    out: PostOutputFormat,
    accounts: Seq<AccountView>,
    likes: Seq<LikeView>,
    comments: Seq<CommentView>,
    pv: PostDetailView,
    viewer: Option<Seq<char>>,
) -> bool {
    &&& out.post@ == pv
    &&& out.name@ == account_record(accounts, pv.author).name
    &&& out.profile_image_url@ == account_record(accounts, pv.author).profile_image_url
    &&& out.like_count == likes_of(likes, pv.post_id).len()
    &&& out.comment_count == comments_of(comments, pv.post_id).len()
    &&& out.like_details is None
    &&& out.comment_details is None
    &&& out.is_liked == match viewer {
        Option::Some(v) => Option::Some(like_listed(likes, pv.post_id, v)),
        Option::None => Option::None::<bool>,
    }
}

/// What the detail view of post `pv` must hold: everything a summary view
/// holds, plus the full joined like and comment lists.
pub open spec fn detail_entry_ok(
    out: PostOutputFormat,
    accounts: Seq<AccountView>,
    likes: Seq<LikeView>,
    comments: Seq<CommentView>,
    pv: PostDetailView,
    viewer: Option<Seq<char>>,
) -> bool {
    &&& out.post@ == pv
    &&& out.name@ == account_record(accounts, pv.author).name
    &&& out.profile_image_url@ == account_record(accounts, pv.author).profile_image_url
    &&& out.like_count == likes_of(likes, pv.post_id).len()
    &&& out.comment_count == comments_of(comments, pv.post_id).len()
    &&& out.like_details matches Option::Some(ld) && ld@.map_values(
        |x: PostLikeDetailsOutput| x@,
    ) == like_details_model(likes, accounts, pv.post_id)
    &&& out.comment_details matches Option::Some(cd) && cd@.map_values(
        |x: PostCommentDetailsOutput| x@,
    ) == comment_details_model(comments, accounts, pv.post_id)
    &&& out.is_liked == match viewer {
        Option::Some(v) => Option::Some(like_listed(likes, pv.post_id, v)),
        Option::None => Option::None::<bool>,
    }
}

/// What the detail view of post `pv` must hold when the author's profile is
/// supplied from outside: as `detail_entry_ok`, but the name and image come
/// from `profile` and no viewer judgement is made.
pub open spec fn detail_with_profile_ok(
    out: PostOutputFormat,
    profile: AccountView,
    accounts: Seq<AccountView>,
    likes: Seq<LikeView>,
    comments: Seq<CommentView>,
    pv: PostDetailView,
) -> bool {
    &&& out.post@ == pv
    &&& out.name@ == profile.name
    &&& out.profile_image_url@ == profile.profile_image_url
    &&& out.like_count == likes_of(likes, pv.post_id).len()
    &&& out.comment_count == comments_of(comments, pv.post_id).len()
    &&& out.like_details matches Option::Some(ld) && ld@.map_values(
        |x: PostLikeDetailsOutput| x@,
    ) == like_details_model(likes, accounts, pv.post_id)
    &&& out.comment_details matches Option::Some(cd) && cd@.map_values(
        |x: PostCommentDetailsOutput| x@,
    ) == comment_details_model(comments, accounts, pv.post_id)
    &&& out.is_liked is None
}

impl Contract {
    /// One summary view: the post at index `i` of the log, joined.
    fn summary_entry(&self, i: usize, account_id: Option<&String>) -> (out: PostOutputFormat)
        requires
            self.wf(),
            i < self.posts().len(),
            account_listed(self.users(), self.posts()[i as int].author),
        ensures
            feed_entry_ok(
                out,
                self.users(),
                self.likes(),
                self.comments(),
                self.posts()[i as int],
                opt_viewer(account_id),
            ),
    {
        let p = &self.all_posts[i];
        let profile = self.account_ref(&p.user_address);
        let like_count = self.like_count(p.post_id);
        let comment_count = self.comment_count(p.post_id);
        let is_liked = match account_id {
            Option::Some(v) => Option::Some(self.liked_by(p.post_id, v)),
            Option::None => Option::None,
        };
        PostOutputFormat {
            name: profile.name.clone(),
            profile_image_url: profile.profile_image_url.clone(),
            post: PostDetail {
                post_id: p.post_id,
                user_address: p.user_address.clone(),
                content: p.content.clone(),
                created_at: p.created_at,
            },
            like_count,
            comment_count,
            like_details: Option::None,
            comment_details: Option::None,
            is_liked,
        }
    }

    /// The feed: every post, newest first, each joined with its author's
    /// name and image, its engagement counts, and — only when a viewer is
    /// given — whether the viewer likes it. Post ids strictly decrease along
    /// the result. Every post's author must have a profile.
    pub fn get_all_posts(&self, account_id: Option<&String>) -> (r: Vec<PostOutputFormat>)
        requires
            self.wf(),
            forall|i: int|
                0 <= i < self.posts().len() ==> account_listed(
                    self.users(),
                    #[trigger] self.posts()[i].author,
                ),
        ensures
            r@.len() == self.posts().len(),
            forall|j: int|
                0 <= j < r@.len() ==> feed_entry_ok(
                    #[trigger] r@[j],
                    self.users(),
                    self.likes(),
                    self.comments(),
                    self.posts()[self.posts().len() - 1 - j],
                    opt_viewer(account_id),
                ),
            forall|j1: int, j2: int|
                0 <= j1 < j2 < r@.len() ==> #[trigger] r@[j1].post.post_id > #[trigger] r@[j2].post.post_id,
    {
        let n = self.all_posts.len();
        let mut out: Vec<PostOutputFormat> = Vec::new();
        let mut i: usize = n;
        while i > 0
            invariant
                self.wf(),
                forall|k: int|
                    0 <= k < self.posts().len() ==> account_listed(
                        self.users(),
                        #[trigger] self.posts()[k].author,
                    ),
                n == self.all_posts@.len(),
                i <= n,
                out@.len() == n - i,
                forall|j: int|
                    0 <= j < out@.len() ==> feed_entry_ok(
                        #[trigger] out@[j],
                        self.users(),
                        self.likes(),
                        self.comments(),
                        self.posts()[n - 1 - j],
                        opt_viewer(account_id),
                    ),
            decreases i,
        {
            i = i - 1;
            let entry = self.summary_entry(i, account_id);
            out.push(entry);
        }
        proof {
            assert forall|j1: int, j2: int| 0 <= j1 < j2 < out@.len() implies #[trigger] out@[j1].post.post_id
                > #[trigger] out@[j2].post.post_id by {
                assert(feed_entry_ok(
                    out@[j1],
                    self.users(),
                    self.likes(),
                    self.comments(),
                    self.posts()[n - 1 - j1],
                    opt_viewer(account_id),
                ));
                assert(feed_entry_ok(
                    out@[j2],
                    self.users(),
                    self.likes(),
                    self.comments(),
                    self.posts()[n - 1 - j2],
                    opt_viewer(account_id),
                ));
                assert(self.posts()[n - 1 - j1].post_id == n - j1);
                assert(self.posts()[n - 1 - j2].post_id == n - j2);
            }
        }
        out
    }

    /// The detail view of post `post_id` with its author's profile supplied
    /// by the caller: the shape of the cross-contract callback, where the
    /// profile arrives from another contract instead of the local table.
    /// `is_liked` is absent; the callback carries no viewer. Fails with
    /// `NotFound` when no such post exists.
    pub fn get_single_post_cb(&self, post_id: u64, profile: &UserAccountDetail) -> (r: Result<
        PostOutputFormat,
        SocialError,
    >)
        requires
            self.wf(),
        ensures
            match r {
                Result::Ok(out) => post_listed(self.posts(), post_id) && detail_with_profile_ok(
                    out,
                    profile@,
                    self.users(),
                    self.likes(),
                    self.comments(),
                    post_at(self.posts(), post_id),
                ),
                Result::Err(e) => e == SocialError::NotFound && !post_listed(
                    self.posts(),
                    post_id,
                ),
            },
    {
        if !self.post_exists(post_id) {
            return Result::Err(SocialError::NotFound);
        }
        let n = self.all_posts.len();
        proof {
            crate::content::lemma_post_listed_range(self.posts(), self.post_counter, post_id);
            assert(post_id <= n);
        }
        let i: usize = (post_id - 1) as usize;
        let p = &self.all_posts[i];

        let raw_likes = self.likes_for(post_id);
        let mut like_details: Vec<PostLikeDetailsOutput> = Vec::new();
        let mut k: usize = 0;
        let ln = raw_likes.len();
        while k < ln
            invariant
                self.wf(),
                ln == raw_likes@.len(),
                raw_likes@.map_values(|l: PostLikes| l@) == likes_of(self.likes(), post_id),
                k <= ln,
                like_details@.len() == k,
                forall|m: int|
                    0 <= m < k ==> #[trigger] like_details@[m]@ == (like_detail_entry(
                        self.users(),
                    ))(likes_of(self.likes(), post_id)[m]),
            decreases ln - k,
        {
            let l = &raw_likes[k];
            let entry = PostLikeDetailsOutput {
                user_address: l.user_address.clone(),
                profile_image_url: self.image_lookup(&l.user_address),
            };
            proof {
                assert(l@ == likes_of(self.likes(), post_id)[k as int]);
                assert(entry@ == (like_detail_entry(self.users()))(
                    likes_of(self.likes(), post_id)[k as int],
                ));
            }
            like_details.push(entry);
            k = k + 1;
        }
        proof {
            assert(like_details@.map_values(|x: PostLikeDetailsOutput| x@) =~= like_details_model(
                self.likes(),
                self.users(),
                post_id,
            ));
        }

        let raw_comments = self.comments_for(post_id);
        let mut comment_details: Vec<PostCommentDetailsOutput> = Vec::new();
        let mut k2: usize = 0;
        let cn = raw_comments.len();
        while k2 < cn
            invariant
                self.wf(),
                cn == raw_comments@.len(),
                raw_comments@.map_values(|c: PostComment| c@) == comments_of(
                    self.comments(),
                    post_id,
                ),
                k2 <= cn,
                comment_details@.len() == k2,
                forall|m: int|
                    0 <= m < k2 ==> #[trigger] comment_details@[m]@ == (comment_detail_entry(
                        self.users(),
                    ))(comments_of(self.comments(), post_id)[m]),
            decreases cn - k2,
        {
            let c = &raw_comments[k2];
            let entry = PostCommentDetailsOutput {
                comment_id: c.comment_id,
                user_address: c.user_address.clone(),
                profile_image_url: self.image_lookup(&c.user_address),
                comment: c.comment.clone(),
                created_at: c.created_at,
            };
            proof {
                assert(c@ == comments_of(self.comments(), post_id)[k2 as int]);
                assert(entry@ == (comment_detail_entry(self.users()))(
                    comments_of(self.comments(), post_id)[k2 as int],
                ));
            }
            comment_details.push(entry);
            k2 = k2 + 1;
        }
        proof {
            assert(comment_details@.map_values(|x: PostCommentDetailsOutput| x@)
                =~= comment_details_model(self.comments(), self.users(), post_id));
        }

        let like_count = like_details.len() as u64;
        let comment_count = comment_details.len() as u64;
        proof {
            assert(like_details@.len() == likes_of(self.likes(), post_id).len());
            assert(comment_details@.len() == comments_of(self.comments(), post_id).len());
        }
        Result::Ok(
            PostOutputFormat {
                name: profile.name.clone(),
                profile_image_url: profile.profile_image_url.clone(),
                post: PostDetail {
                    post_id: p.post_id,
                    user_address: p.user_address.clone(),
                    content: p.content.clone(),
                    created_at: p.created_at,
                },
                like_count,
                comment_count,
                like_details: Option::Some(like_details),
                comment_details: Option::Some(comment_details),
                is_liked: Option::None,
            },
        )
    }

    /// The detail view of post `post_id`: the summary join plus the full
    /// like and comment lists, each joined with the engaging identity's
    /// profile image (empty for identities without a profile), and — only
    /// when a viewer is given — whether the viewer likes the post. Fails
    /// with `NotFound` when no such post exists. The post's author must have
    /// a profile.
    pub fn get_single_post(&self, post_id: u64, account_id: Option<&String>) -> (r: Result<
        PostOutputFormat,
        SocialError,
    >)
        requires
            self.wf(),
            post_listed(self.posts(), post_id) ==> account_listed(
                self.users(),
                post_at(self.posts(), post_id).author,
            ),
        ensures
            match r {
                Result::Ok(out) => post_listed(self.posts(), post_id) && detail_entry_ok(
                    out,
                    self.users(),
                    self.likes(),
                    self.comments(),
                    post_at(self.posts(), post_id),
                    opt_viewer(account_id),
                ),
                Result::Err(e) => e == SocialError::NotFound && !post_listed(
                    self.posts(),
                    post_id,
                ),
            },
    {
        if !self.post_exists(post_id) {
            return Result::Err(SocialError::NotFound);
        }
        let n = self.all_posts.len();
        proof {
            crate::content::lemma_post_listed_range(self.posts(), self.post_counter, post_id);
            assert(post_id <= n);
        }
        let i: usize = (post_id - 1) as usize;
        let author = &self.all_posts[i].user_address;
        proof {
            assert(post_at(self.posts(), post_id) == self.posts()[i as int]);
            assert(self.posts()[i as int].author == author@);
        }
        let profile = self.account_ref(author);
        let looked_up = self.get_single_post_cb(post_id, profile);
        let mut out = match looked_up {
            Result::Ok(o) => o,
            Result::Err(_) => vstd::pervasive::unreached(),
        };
        out.is_liked = match account_id {
            Option::Some(v) => Option::Some(self.liked_by(post_id, v)),
            Option::None => Option::None,
        };
        Result::Ok(out)
    }

    /// The posts authored by `account`, in creation order (post ids strictly
    /// increase along the result), each joined as in the feed; `is_liked` is
    /// judged for the viewer when one is given, else for `account` itself.
    /// When `account` has posts it must have a profile.
    pub fn user_posts(&self, account: &String, viewer: Option<&String>) -> (r: Vec<
        PostOutputFormat,
    >)
        requires
            self.wf(),
            posts_by(self.posts(), account@).len() > 0 ==> account_listed(self.users(), account@),
        ensures
            r@.len() == posts_by(self.posts(), account@).len(),
            forall|j: int|
                0 <= j < r@.len() ==> feed_entry_ok(
                    #[trigger] r@[j],
                    self.users(),
                    self.likes(),
                    self.comments(),
                    posts_by(self.posts(), account@)[j],
                    Option::Some(effective_viewer(account@, opt_viewer(viewer))),
                ),
            forall|j1: int, j2: int|
                0 <= j1 < j2 < r@.len() ==> #[trigger] r@[j1].post.post_id < #[trigger] r@[j2].post.post_id,
    {
        let ghost mine = posts_by(self.posts(), account@);
        let raw = self.list_by_author(account);
        let viewer_id: &String = match viewer {
            Option::Some(v) => v,
            Option::None => account,
        };
        let mut out: Vec<PostOutputFormat> = Vec::new();
        let mut k: usize = 0;
        let n = raw.len();
        proof {
            lemma_filter_elements(self.posts(), by_author(account@));
        }
        while k < n
            invariant
                self.wf(),
                n == raw@.len(),
                raw@.map_values(|p: PostDetail| p@) == mine,
                mine == posts_by(self.posts(), account@),
                mine.len() > 0 ==> account_listed(self.users(), account@),
                forall|m: int| 0 <= m < mine.len() ==> (#[trigger] mine[m]).author == account@,
                viewer_id@ == effective_viewer(account@, opt_viewer(viewer)),
                k <= n,
                out@.len() == k,
                forall|j: int|
                    0 <= j < k ==> feed_entry_ok(
                        #[trigger] out@[j],
                        self.users(),
                        self.likes(),
                        self.comments(),
                        mine[j],
                        Option::Some(viewer_id@),
                    ),
            decreases n - k,
        {
            let p = &raw[k];
            proof {
                assert(p@ == mine[k as int]);
                assert(mine[k as int].author == account@);
            }
            let profile = self.account_ref(&p.user_address);
            let like_count = self.like_count(p.post_id);
            let comment_count = self.comment_count(p.post_id);
            let is_liked = Option::Some(self.liked_by(p.post_id, viewer_id));
            let entry = PostOutputFormat {
                name: profile.name.clone(),
                profile_image_url: profile.profile_image_url.clone(),
                post: PostDetail {
                    post_id: p.post_id,
                    user_address: p.user_address.clone(),
                    content: p.content.clone(),
                    created_at: p.created_at,
                },
                like_count,
                comment_count,
                like_details: Option::None,
                comment_details: Option::None,
                is_liked,
            };
            out.push(entry);
            k = k + 1;
        }
        proof {
            lemma_posts_by_ordered(self.posts(), self.post_counter, account@);
            assert forall|j1: int, j2: int| 0 <= j1 < j2 < out@.len() implies #[trigger] out@[j1].post.post_id
                < #[trigger] out@[j2].post.post_id by {
                assert(feed_entry_ok(
                    out@[j1],
                    self.users(),
                    self.likes(),
                    self.comments(),
                    mine[j1],
                    Option::Some(viewer_id@),
                ));
                assert(feed_entry_ok(
                    out@[j2],
                    self.users(),
                    self.likes(),
                    self.comments(),
                    mine[j2],
                    Option::Some(viewer_id@),
                ));
            }
        }
        out
    }
}

/// In a well-formed log an author's posts keep strictly increasing ids: the
/// filter preserves the log's creation order.
pub proof fn lemma_posts_by_ordered(posts: Seq<PostDetailView>, counter: u64, a: Seq<char>)
    requires
        crate::content::posts_wf(posts, counter),
    ensures
        forall|j1: int, j2: int|
            0 <= j1 < j2 < posts_by(posts, a).len() ==> (#[trigger] posts_by(posts, a)[j1]).post_id
                < (#[trigger] posts_by(posts, a)[j2]).post_id,
{
    lemma_ordered_filter(posts, a);
}

/// The inductive core of `lemma_posts_by_ordered`, stated over any log whose
/// ids strictly increase with the index.
proof fn lemma_ordered_filter(posts: Seq<PostDetailView>, a: Seq<char>)
    requires
        forall|i1: int, i2: int|
            0 <= i1 < i2 < posts.len() ==> (#[trigger] posts[i1]).post_id < (
            #[trigger] posts[i2]).post_id,
    ensures
        forall|j1: int, j2: int|
            0 <= j1 < j2 < posts_by(posts, a).len() ==> (#[trigger] posts_by(posts, a)[j1]).post_id
                < (#[trigger] posts_by(posts, a)[j2]).post_id,
    decreases posts.len(),
{
    if posts.len() == 0 {
        crate::seq_util::lemma_filter_empty(by_author(a));
    } else {
        let t = posts.drop_last();
        assert forall|i1: int, i2: int| 0 <= i1 < i2 < t.len() implies (#[trigger] t[i1]).post_id
            < (#[trigger] t[i2]).post_id by {
            assert(t[i1] == posts[i1]);
            assert(t[i2] == posts[i2]);
        }
        lemma_ordered_filter(t, a);
        assert(posts =~= t.push(posts.last()));
        crate::seq_util::lemma_filter_push(t, by_author(a), posts.last());
        lemma_filter_elements(t, by_author(a));
        assert forall|j1: int, j2: int|
            0 <= j1 < j2 < posts_by(posts, a).len() implies (#[trigger] posts_by(posts, a)[j1]).post_id
            < (#[trigger] posts_by(posts, a)[j2]).post_id by {
            if (by_author(a))(posts.last()) && j2 == posts_by(posts, a).len() - 1 {
                assert(posts_by(posts, a)[j2] == posts.last());
                assert(posts_by(posts, a)[j1] == posts_by(t, a)[j1]);
                assert(t.contains(posts_by(t, a)[j1]));
                let m = choose|m: int| 0 <= m < t.len() && t[m] == posts_by(t, a)[j1];
                assert(t[m] == posts[m]);
                assert(posts[m].post_id < posts[posts.len() - 1].post_id);
            } else {
                assert(posts_by(posts, a)[j1] == posts_by(t, a)[j1]);
                assert(posts_by(posts, a)[j2] == posts_by(t, a)[j2]);
            }
        }
    }
}

} // verus!

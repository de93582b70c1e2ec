//! Posts: an append-only log with a global counter. Post ids start at 1,
//! increase by exactly one per post, and are never reused; a post is
//! immutable once created.

use vstd::prelude::*;

use crate::seq_util::lemma_filter_empty;
use crate::seq_util::lemma_filter_push;
use crate::Contract;

verus! {

/// One post record.
#[derive(Debug)]
pub struct PostDetail {
    pub post_id: u64,
    pub user_address: String,
    pub content: String,
    pub created_at: u64,
}

/// The mathematical value of a post record.
pub struct PostDetailView {
    pub post_id: u64,
    pub author: Seq<char>,
    pub content: Seq<char>,
    pub created_at: u64,
}

impl View for PostDetail {
    type V = PostDetailView;

    open spec fn view(&self) -> PostDetailView {
        PostDetailView {
            post_id: self.post_id,
            author: self.user_address@,
            content: self.content@,
            created_at: self.created_at,
        }
    }
}

/// The post log is dense: the counter equals the length, and the post at
/// index `i` carries id `i + 1`. Ids are therefore 1..=counter, strictly
/// increasing, never reused.
pub open spec fn posts_wf(posts: Seq<PostDetailView>, counter: u64) -> bool {
    &&& counter == posts.len()
    &&& forall|i: int| 0 <= i < posts.len() ==> #[trigger] posts[i].post_id == i + 1
}

/// Whether a post with id `post_id` exists.
pub open spec fn post_listed(posts: Seq<PostDetailView>, post_id: u64) -> bool {
    exists|i: int| 0 <= i < posts.len() && #[trigger] posts[i].post_id == post_id
}

/// The post with id `post_id`; meaningful only when it is listed (in a
/// well-formed log it sits at index `post_id - 1`).
pub open spec fn post_at(posts: Seq<PostDetailView>, post_id: u64) -> PostDetailView {
    posts[post_id - 1]
}

/// Authorship test, as a named predicate so that every statement about
/// filtering by author speaks of one function value.
pub open spec fn by_author(a: Seq<char>) -> spec_fn(PostDetailView) -> bool {
    |p: PostDetailView| p.author == a
}

/// The posts authored by `a`, in creation order.
pub open spec fn posts_by(posts: Seq<PostDetailView>, a: Seq<char>) -> Seq<PostDetailView> {
    posts.filter(by_author(a))
}

/// In a well-formed log, a post id is listed exactly when it lies in
/// 1..=len, and then it names the record at index `post_id - 1`.
pub proof fn lemma_post_listed_range(posts: Seq<PostDetailView>, counter: u64, post_id: u64)
    requires
        posts_wf(posts, counter),
    ensures
        post_listed(posts, post_id) <==> 1 <= post_id <= posts.len(),
        post_listed(posts, post_id) ==> post_at(posts, post_id).post_id == post_id,
{
    if 1 <= post_id <= posts.len() {
        assert(posts[post_id - 1].post_id == post_id);
    }
    if post_listed(posts, post_id) {
        let i = choose|i: int| 0 <= i < posts.len() && #[trigger] posts[i].post_id == post_id;
        assert(posts[i].post_id == i + 1);
    }
}

impl Contract {
    /// Append a post by `user_address` with the next id; `now` is the
    /// caller-supplied clock. Content is stored as given, empty content
    /// included.
    pub fn create_post(&mut self, user_address: String, content: String, now: u64)
        requires
            old(self).wf(),
            old(self).all_posts@.len() < u64::MAX,
        ensures
            final(self).wf(),
            final(self).same_but_posts(old(self)),
            final(self).post_counter == old(self).post_counter + 1,
            final(self).posts() == old(self).posts().push(
                (PostDetailView {
                    post_id: (old(self).post_counter + 1) as u64,
                    author: user_address@,
                    content: content@,
                    created_at: now,
                }),
            ),
    {
        let detail = PostDetail {
            post_id: self.post_counter + 1,
            user_address,
            content,
            created_at: now,
        };
        self.all_posts.push(detail);
        self.post_counter = self.post_counter + 1;
        proof {
            assert(self.posts() =~= old(self).posts().push(detail@));
        }
    }

    /// Whether a post with id `post_id` exists.
    pub fn post_exists(&self, post_id: u64) -> (r: bool)
        requires
            self.wf(),
        ensures
            r == post_listed(self.posts(), post_id),
    {
        proof {
            lemma_post_listed_range(self.posts(), self.post_counter, post_id);
        }
        1 <= post_id && post_id <= self.post_counter
    }

    /// The author of the post with id `post_id`. Callers must have verified
    /// that the post exists; this is an invariant-checked internal lookup,
    /// not a fallible query.
    pub fn get_poster_address(&self, post_id: u64) -> (r: &String)
        requires
            self.wf(),
            post_listed(self.posts(), post_id),
        ensures
            r@ == post_at(self.posts(), post_id).author,
    {
        let n = self.all_posts.len();
        proof {
            lemma_post_listed_range(self.posts(), self.post_counter, post_id);
            assert(post_id <= n);
        }
        let i: usize = (post_id - 1) as usize;
        &self.all_posts[i].user_address
    }

    /// All posts, newest first (reverse creation order), as bare records.
    pub fn list_all(&self) -> (r: Vec<PostDetail>)
        requires
            self.wf(),
        ensures
            r@.len() == self.posts().len(),
            forall|j: int| 0 <= j < r@.len() ==> #[trigger] r@[j]@ == self.posts()[self.posts().len()
                - 1 - j],
    {
        let n = self.all_posts.len();
        let mut out: Vec<PostDetail> = Vec::new();
        let mut i: usize = n;
        while i > 0
            invariant
                n == self.all_posts@.len(),
                i <= n,
                out@.len() == n - i,
                forall|j: int| 0 <= j < out@.len() ==> #[trigger] out@[j]@ == self.posts()[n - 1 - j],
            decreases i,
    {
            i = i - 1;
            let p = &self.all_posts[i];
            out.push(
                PostDetail {
                    post_id: p.post_id,
                    user_address: p.user_address.clone(),
                    content: p.content.clone(),
                    created_at: p.created_at,
                },
            );
        }
        out
    }

    /// The posts authored by `account`, in creation order, as bare records.
    pub fn list_by_author(&self, account: &String) -> (r: Vec<PostDetail>)
        requires
            self.wf(),
        ensures
            r@.map_values(|p: PostDetail| p@) == posts_by(self.posts(), account@),
    {
        let n = self.all_posts.len();
        let mut out: Vec<PostDetail> = Vec::new();
        let mut i: usize = 0;
        proof {
            lemma_filter_empty(by_author(account@));
            assert(self.posts().subrange(0, 0) =~= Seq::<PostDetailView>::empty());
            assert(out@.map_values(|p: PostDetail| p@) =~= Seq::<PostDetailView>::empty());
        }
        while i < n
            invariant
                self.wf(),
                n == self.all_posts@.len(),
                i <= n,
                out@.map_values(|p: PostDetail| p@) == posts_by(
                    self.posts().subrange(0, i as int),
                    account@,
                ),
            decreases n - i,
        {
            let ghost prefix = self.posts().subrange(0, i as int);
            let ghost prev = out@.map_values(|p: PostDetail| p@);
            proof {
                assert(self.posts().subrange(0, i + 1) =~= prefix.push(self.posts()[i as int]));
                lemma_filter_push(prefix, by_author(account@), self.posts()[i as int]);
            }
            let p = &self.all_posts[i];
            if p.user_address == *account {
                let copy = PostDetail {
                    post_id: p.post_id,
                    user_address: p.user_address.clone(),
                    content: p.content.clone(),
                    created_at: p.created_at,
                };
                proof {
                    assert(copy@ == self.posts()[i as int]);
                }
                out.push(copy);
                proof {
                    assert(out@.map_values(|q: PostDetail| q@) =~= prev.push(copy@));
                }
            }
            i = i + 1;
        }
        proof {
            assert(self.posts().subrange(0, n as int) =~= self.posts());
        }
        out
    }
}

} // verus!

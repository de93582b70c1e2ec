//! User profiles: one record per identity, created once; the identity and
//! creation time never change afterwards, the remaining fields are editable.
//!
//! Follower and following counts are not stored on the record: they are
//! computed on demand from the follow graph, so they can never go stale.

use vstd::prelude::*;

use crate::Contract;
use crate::SocialError;

verus! {

/// A user profile record, keyed by `address` (the identity).
#[derive(Debug)]
pub struct UserAccountDetail {
    pub address: String,
    pub name: String,
    pub profile_image_url: String,
    pub location: String,
    pub url: String,
    pub description: String,
    pub created_at: u64,
}

/// The mathematical value of a profile record.
pub struct AccountView {
    pub address: Seq<char>,
    pub name: Seq<char>,
    pub profile_image_url: Seq<char>,
    pub location: Seq<char>,
    pub url: Seq<char>,
    pub description: Seq<char>,
    pub created_at: u64,
}

impl View for UserAccountDetail {
    type V = AccountView;

    open spec fn view(&self) -> AccountView {
        AccountView {
            address: self.address@,
            name: self.name@,
            profile_image_url: self.profile_image_url@,
            location: self.location@,
            url: self.url@,
            description: self.description@,
            created_at: self.created_at,
        }
    }
}

/// Whether some profile in `accounts` belongs to identity `id`.
pub open spec fn account_listed(accounts: Seq<AccountView>, id: Seq<char>) -> bool {
    exists|i: int| 0 <= i < accounts.len() && #[trigger] accounts[i].address == id
}

/// The index of identity `id`'s profile; meaningful only when it is listed.
pub open spec fn account_index(accounts: Seq<AccountView>, id: Seq<char>) -> int {
    choose|i: int| 0 <= i < accounts.len() && #[trigger] accounts[i].address == id
}

/// The profile of identity `id`; meaningful only when it is listed.
pub open spec fn account_record(accounts: Seq<AccountView>, id: Seq<char>) -> AccountView {
    accounts[account_index(accounts, id)]
}

/// Each identity holds at most one profile.
pub open spec fn accounts_wf(accounts: Seq<AccountView>) -> bool {
    forall|i: int, j: int|
        0 <= i < j < accounts.len() ==> #[trigger] accounts[i].address != #[trigger] accounts[j].address
}

/// The profile image of `id`, or the empty string for an identity without a
/// profile (engagement records may name such identities).
pub open spec fn image_of(accounts: Seq<AccountView>, id: Seq<char>) -> Seq<char> {
    if account_listed(accounts, id) {
        account_record(accounts, id).profile_image_url
    } else {
        Seq::empty()
    }
}

/// The text of an optional argument; a missing argument reads as empty.
pub open spec fn opt_text(o: Option<String>) -> Seq<char> {
    match o {
        Option::Some(s) => s@,
        Option::None => Seq::empty(),
    }
}

/// The profile stored by a successful account creation.
pub open spec fn created_account(
    address: Seq<char>,
    name: Seq<char>,
    profile_image_url: Seq<char>,
    location: Seq<char>,
    url: Seq<char>,
    description: Seq<char>,
    now: u64,
) -> AccountView {
    AccountView { address, name, profile_image_url, location, url, description, created_at: now }
}

/// The record `a` after an edit of the four editable text fields; identity,
/// image and creation time are preserved.
pub open spec fn edited_account(
    a: AccountView,
    name: Seq<char>,
    location: Seq<char>,
    url: Seq<char>,
    description: Seq<char>,
) -> AccountView {
    AccountView {
        address: a.address,
        name,
        profile_image_url: a.profile_image_url,
        location,
        url,
        description,
        created_at: a.created_at,
    }
}

/// In a well-formed table the index of a listed identity is the only index
/// that holds its address.
pub proof fn lemma_account_index_unique(accounts: Seq<AccountView>, id: Seq<char>, i: int)
    requires
        accounts_wf(accounts),
        0 <= i < accounts.len(),
        accounts[i].address == id,
    ensures
        account_listed(accounts, id),
        account_index(accounts, id) == i,
{
    assert(account_listed(accounts, id));
    let j = account_index(accounts, id);
    if i < j {
        assert(accounts[i].address != accounts[j].address);
    } else if j < i {
        assert(accounts[j].address != accounts[i].address);
    }
}

fn unwrap_or_empty(o: Option<String>) -> (r: String)
    ensures
        r@ == opt_text(o),
{
    match o {
        Option::Some(s) => s,
        Option::None => String::new(),
    }
}

impl Contract {
    /// The index of `address`'s profile in the table, if it has one.
    fn find_account(&self, address: &String) -> (r: Option<usize>)
        ensures
            match r {
                Option::Some(i) => i < self.user_list@.len() && self.users()[i as int].address
                    == address@ && account_listed(self.users(), address@),
                Option::None => !account_listed(self.users(), address@),
            },
    {
        let n = self.user_list.len();
        let mut i: usize = 0;
        while i < n
            invariant
                n == self.user_list@.len(),
                i <= n,
                forall|k: int| 0 <= k < i ==> #[trigger] self.users()[k].address != address@,
            decreases n - i,
        {
            if self.user_list[i].address == *address {
                assert(self.users()[i as int].address == address@);
                return Option::Some(i);
            }
            i = i + 1;
        }
        Option::None
    }

    /// Whether identity `address` has a profile.
    pub fn is_user_exists(&self, address: &String) -> (r: bool)
        ensures
            r == account_listed(self.users(), address@),
    {
        self.find_account(address).is_some()
    }

    /// Create the profile of identity `address`, once. Missing optional
    /// fields default to the empty string; `now` is the caller-supplied
    /// clock. Fails with `AlreadyExists`, changing nothing, when the
    /// identity already has a profile.
    pub fn create_account(
        &mut self,
        address: String,
        name: Option<String>,
        profile_image_url: Option<String>,
        location: Option<String>,
        url: Option<String>,
        description: Option<String>,
        now: u64,
    ) -> (r: Result<(), SocialError>)
        requires
            old(self).wf(),
        ensures
            final(self).wf(),
            final(self).same_but_user_list(old(self)),
            match r {
                Result::Ok(()) => !account_listed(old(self).users(), address@) && final(self).users()
                    == old(self).users().push(
                    created_account(
                        address@,
                        opt_text(name),
                        opt_text(profile_image_url),
                        opt_text(location),
                        opt_text(url),
                        opt_text(description),
                        now,
                    ),
                ),
                Result::Err(e) => e == SocialError::AlreadyExists && account_listed(
                    old(self).users(),
                    address@,
                ) && *final(self) == *old(self),
            },
    {
        if self.find_account(&address).is_some() {
            return Result::Err(SocialError::AlreadyExists);
        }
        let detail = UserAccountDetail {
            address,
            name: unwrap_or_empty(name),
            profile_image_url: unwrap_or_empty(profile_image_url),
            location: unwrap_or_empty(location),
            url: unwrap_or_empty(url),
            description: unwrap_or_empty(description),
            created_at: now,
        };
        self.user_list.push(detail);
        proof {
            let pre = old(self).users();
            let post = self.users();
            assert(post =~= pre.push(detail@));
            assert forall|i: int, j: int| 0 <= i < j < post.len() implies #[trigger] post[i].address
                != #[trigger] post[j].address by {
                if j < pre.len() {
                    assert(pre[i].address != pre[j].address);
                } else {
                    assert(post[j].address == detail@.address);
                    assert(!account_listed(pre, detail@.address));
                    assert(post[i] == pre[i]);
                }
            }
        }
        Result::Ok(())
    }

    /// The profile of identity `address`; fails with `NotFound` when it has
    /// none.
    pub fn get_account_details(&self, address: &String) -> (r: Result<UserAccountDetail, SocialError>)
        requires
            self.wf(),
        ensures
            match r {
                Result::Ok(u) => account_listed(self.users(), address@) && u@ == account_record(
                    self.users(),
                    address@,
                ),
                Result::Err(e) => e == SocialError::NotFound && !account_listed(
                    self.users(),
                    address@,
                ),
            },
    {
        match self.find_account(address) {
            Option::Some(i) => {
                let u = &self.user_list[i];
                let copy = UserAccountDetail {
                    address: u.address.clone(),
                    name: u.name.clone(),
                    profile_image_url: u.profile_image_url.clone(),
                    location: u.location.clone(),
                    url: u.url.clone(),
                    description: u.description.clone(),
                    created_at: u.created_at,
                };
                proof {
                    lemma_account_index_unique(self.users(), address@, i as int);
                    assert(copy@ == self.users()[i as int]);
                }
                Result::Ok(copy)
            },
            Option::None => Result::Err(SocialError::NotFound),
        }
    }

    /// A borrowed view of a listed identity's profile.
    pub(crate) fn account_ref(&self, address: &String) -> (r: &UserAccountDetail)
        requires
            self.wf(),
            account_listed(self.users(), address@),
        ensures
            r@ == account_record(self.users(), address@),
    {
        let found = self.find_account(address);
        match found {
            Option::Some(i) => {
                proof {
                    lemma_account_index_unique(self.users(), address@, i as int);
                }
                &self.user_list[i]
            },
            Option::None => vstd::pervasive::unreached(),
        }
    }

    /// The profile image of `address`, or the empty string when the
    /// identity has no profile.
    pub(crate) fn image_lookup(&self, address: &String) -> (r: String)
        requires
            self.wf(),
        ensures
            r@ == image_of(self.users(), address@),
    {
        match self.find_account(address) {
            Option::Some(i) => {
                proof {
                    lemma_account_index_unique(self.users(), address@, i as int);
                }
                self.user_list[i].profile_image_url.clone()
            },
            Option::None => String::new(),
        }
    }

    /// Replace the four editable text fields of `address`'s profile; the
    /// identity, image and creation time are preserved. Fails with
    /// `NotFound`, changing nothing, when the identity has no profile.
    pub fn edit_account(
        &mut self,
        address: &String,
        name: String,
        location: String,
        url: String,
        description: String,
    ) -> (r: Result<(), SocialError>)
        requires
            old(self).wf(),
        ensures
            final(self).wf(),
            final(self).same_but_user_list(old(self)),
            match r {
                Result::Ok(()) => account_listed(old(self).users(), address@) && final(self).users()
                    == old(self).users().update(
                    account_index(old(self).users(), address@),
                    edited_account(
                        account_record(old(self).users(), address@),
                        name@,
                        location@,
                        url@,
                        description@,
                    ),
                ),
                Result::Err(e) => e == SocialError::NotFound && !account_listed(
                    old(self).users(),
                    address@,
                ) && *final(self) == *old(self),
            },
    {
        let found = self.find_account(address);
        match found {
            Option::Some(i) => {
                let old_rec = self.user_list.remove(i);
                let new_rec = UserAccountDetail {
                    address: old_rec.address,
                    name,
                    profile_image_url: old_rec.profile_image_url,
                    location,
                    url,
                    description,
                    created_at: old_rec.created_at,
                };
                self.user_list.insert(i, new_rec);
                proof {
                    lemma_account_index_unique(old(self).users(), address@, i as int);
                    let pre = old(self).users();
                    let post = self.users();
                    assert(self.user_list@ =~= old(self).user_list@.update(i as int, new_rec));
                    assert(post =~= pre.update(i as int, new_rec@));
                    assert(new_rec@ == edited_account(pre[i as int], name@, location@, url@, description@));
                    assert forall|a: int, b: int| 0 <= a < b < post.len() implies
                        #[trigger] post[a].address != #[trigger] post[b].address by {
                        assert(post[a].address == pre[a].address);
                        assert(post[b].address == pre[b].address);
                        assert(pre[a].address != pre[b].address);
                    }
                }
                Result::Ok(())
            },
            Option::None => Result::Err(SocialError::NotFound),
        }
    }

    /// Replace only the profile image of `address`'s profile. Fails with
    /// `NotFound`, changing nothing, when the identity has no profile.
    pub fn edit_profile_image(&mut self, address: &String, profile_image_url: String) -> (r:
        Result<(), SocialError>)
        requires
            old(self).wf(),
        ensures
            final(self).wf(),
            final(self).same_but_user_list(old(self)),
            match r {
                Result::Ok(()) => account_listed(old(self).users(), address@) && final(self).users()
                    == old(self).users().update(
                    account_index(old(self).users(), address@),
                    (AccountView {
                        profile_image_url: profile_image_url@,
                        ..account_record(old(self).users(), address@)
                    }),
                ),
                Result::Err(e) => e == SocialError::NotFound && !account_listed(
                    old(self).users(),
                    address@,
                ) && *final(self) == *old(self),
            },
    {
        let found = self.find_account(address);
        match found {
            Option::Some(i) => {
                let old_rec = self.user_list.remove(i);
                let new_rec = UserAccountDetail {
                    address: old_rec.address,
                    name: old_rec.name,
                    profile_image_url,
                    location: old_rec.location,
                    url: old_rec.url,
                    description: old_rec.description,
                    created_at: old_rec.created_at,
                };
                self.user_list.insert(i, new_rec);
                proof {
                    lemma_account_index_unique(old(self).users(), address@, i as int);
                    let pre = old(self).users();
                    let post = self.users();
                    assert(self.user_list@ =~= old(self).user_list@.update(i as int, new_rec));
                    assert(post =~= pre.update(i as int, new_rec@));
                    assert forall|a: int, b: int| 0 <= a < b < post.len() implies
                        #[trigger] post[a].address != #[trigger] post[b].address by {
                        assert(post[a].address == pre[a].address);
                        assert(post[b].address == pre[b].address);
                        assert(pre[a].address != pre[b].address);
                    }
                }
                Result::Ok(())
            },
            Option::None => Result::Err(SocialError::NotFound),
        }
    }
}

} // verus!

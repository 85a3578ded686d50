//! The store as mathematics: one map from each registered name to everything held
//! under it, the persisted tables read off that map, and the effect of each
//! operation on it.
use vstd::prelude::*;

use crate::digest::blake2_256_of;
use crate::types::{valid_birthday, Birthday, Error, TweetView, MAX_CONTENT_LEN, MAX_NAME_LEN};

verus! {

/// A stored post.
pub struct PostView {
    pub content: Seq<u8>,
    pub timestamp: u64,
}

/// Everything held under one registered name. `posts[id]` is the post with that id,
/// `None` where it was deleted; the length of `posts` is the next unused post id.
pub struct IdentityView {
    pub account: u64,
    pub digest: Seq<u8>,
    pub birthday: Birthday,
    pub posts: Seq<Option<PostView>>,
}

/// The whole store, keyed by name.
pub type Registry = Map<Seq<u8>, IdentityView>;

/// The name-to-account table.
pub open spec fn account_of(m: Registry, name: Seq<u8>) -> Option<u64> {
    if m.contains_key(name) {
        Some(m[name].account)
    } else {
        None
    }
}

/// Whether some name is registered to `who`.
pub open spec fn has_account(m: Registry, who: u64) -> bool {
    exists|n: Seq<u8>| #[trigger] m.contains_key(n) && m[n].account == who
}

/// The account-to-name table.
pub open spec fn name_of(m: Registry, who: u64) -> Option<Seq<u8>> {
    if has_account(m, who) {
        Some(choose|n: Seq<u8>| #[trigger] m.contains_key(n) && m[n].account == who)
    } else {
        None
    }
}

/// The name-to-digest table.
pub open spec fn credential_of(m: Registry, name: Seq<u8>) -> Option<Seq<u8>> {
    if m.contains_key(name) {
        Some(m[name].digest)
    } else {
        None
    }
}

/// The name-to-birthday table.
pub open spec fn profile_of(m: Registry, name: Seq<u8>) -> Option<Birthday> {
    if m.contains_key(name) {
        Some(m[name].birthday)
    } else {
        None
    }
}

/// The (name, post id)-to-post table.
pub open spec fn post_of(m: Registry, name: Seq<u8>, id: u32) -> Option<PostView> {
    if m.contains_key(name) && id < m[name].posts.len() {
        m[name].posts[id as int]
    } else {
        None
    }
}

/// The name-to-next-post-id table; an unregistered name reads as zero.
pub open spec fn allocator_of(m: Registry, name: Seq<u8>) -> nat {
    if m.contains_key(name) {
        m[name].posts.len()
    } else {
        0
    }
}

/// The live posts among the first `n` ids of a ledger, in id order, each with its
/// id and its author's name; deleted ids are skipped.
pub open spec fn live_tweets(name: Seq<u8>, posts: Seq<Option<PostView>>, n: nat) -> Seq<
    (u32, TweetView),
>
    decreases n,
{
    if n == 0 {
        Seq::empty()
    } else {
        let prev = live_tweets(name, posts, (n - 1) as nat);
        match posts[n - 1] {
            Some(p) => prev.push(
                ((n - 1) as u32, TweetView { name, content: p.content, timestamp: p.timestamp }),
            ),
            None => prev,
        }
    }
}

pub open spec fn valid_identity(v: IdentityView) -> bool {
    &&& valid_birthday(v.birthday)
    &&& v.posts.len() <= u32::MAX
    &&& forall|id: int|
        0 <= id < v.posts.len() && #[trigger] v.posts[id] is Some ==> v.posts[id]->0.content.len()
            <= MAX_CONTENT_LEN
}

/// No account holds two names.
pub open spec fn accounts_unique(m: Registry) -> bool {
    forall|n1: Seq<u8>, n2: Seq<u8>|
        #[trigger] m.contains_key(n1) && #[trigger] m.contains_key(n2) && m[n1].account
            == m[n2].account ==> n1 == n2
}

/// Every entry is well formed, and no account holds two names.
pub open spec fn valid_registry(m: Registry) -> bool {
    &&& forall|n: Seq<u8>| #[trigger]
        m.contains_key(n) ==> n.len() <= MAX_NAME_LEN && valid_identity(m[n])
    &&& accounts_unique(m)
}

/// Authentication without an ownership check: the name is registered and the
/// password's digest is the stored one.
pub open spec fn login_check(m: Registry, name: Seq<u8>, password: Seq<u8>) -> Result<(), Error> {
    if !m.contains_key(name) {
        Err(Error::UserNotFound)
    } else if m[name].digest != blake2_256_of(password) {
        Err(Error::InvalidCredentials)
    } else {
        Ok(())
    }
}

/// Authentication of an owner: the name is registered, to `who`, and the
/// password's digest is the stored one. Checked in that order.
pub open spec fn owner_check(m: Registry, who: u64, name: Seq<u8>, password: Seq<u8>) -> Result<
    (),
    Error,
> {
    if !m.contains_key(name) {
        Err(Error::UserNotFound)
    } else if m[name].account != who {
        Err(Error::NotAuthorized)
    } else if m[name].digest != blake2_256_of(password) {
        Err(Error::InvalidCredentials)
    } else {
        Ok(())
    }
}

pub open spec fn create_user_step(
    m: Registry,
    who: u64,
    name: Seq<u8>,
    password: Seq<u8>,
    birthday: Birthday,
) -> Result<Registry, Error> {
    if !valid_birthday(birthday) {
        Err(Error::InvalidBirthday)
    } else if m.contains_key(name) {
        Err(Error::NameAlreadyTaken)
    } else if has_account(m, who) {
        Err(Error::InvalidCaller)
    } else {
        Ok(
            m.insert(
                name,
                IdentityView {
                    account: who,
                    digest: blake2_256_of(password),
                    birthday,
                    posts: Seq::empty(),
                },
            ),
        )
    }
}

pub open spec fn create_tweet_step(
    m: Registry,
    who: u64,
    name: Seq<u8>,
    password: Seq<u8>,
    content: Seq<u8>,
    now: u64,
) -> Result<Registry, Error> {
    if content.len() > MAX_CONTENT_LEN {
        Err(Error::TweetTooLong)
    } else if owner_check(m, who, name, password) is Err {
        Err(owner_check(m, who, name, password)->Err_0)
    } else if m[name].posts.len() >= u32::MAX {
        Err(Error::StorageOverflow)
    } else {
        Ok(
            m.insert(
                name,
                IdentityView {
                    posts: m[name].posts.push(Some(PostView { content, timestamp: now })),
                    ..m[name]
                },
            ),
        )
    }
}

pub open spec fn update_user_name_step(
    m: Registry,
    who: u64,
    name: Seq<u8>,
    password: Seq<u8>,
    new_name: Seq<u8>,
) -> Result<Registry, Error> {
    if owner_check(m, who, name, password) is Err {
        Err(owner_check(m, who, name, password)->Err_0)
    } else if m.contains_key(new_name) {
        Err(Error::NameAlreadyTaken)
    } else {
        Ok(m.remove(name).insert(new_name, m[name]))
    }
}

pub open spec fn update_password_step(
    m: Registry,
    who: u64,
    name: Seq<u8>,
    old_password: Seq<u8>,
    new_password: Seq<u8>,
) -> Result<Registry, Error> {
    if owner_check(m, who, name, old_password) is Err {
        Err(owner_check(m, who, name, old_password)->Err_0)
    } else {
        Ok(m.insert(name, IdentityView { digest: blake2_256_of(new_password), ..m[name] }))
    }
}

pub open spec fn delete_tweet_step(
    m: Registry,
    who: u64,
    name: Seq<u8>,
    password: Seq<u8>,
    id: u32,
) -> Result<Registry, Error> {
    if owner_check(m, who, name, password) is Err {
        Err(owner_check(m, who, name, password)->Err_0)
    } else if post_of(m, name, id) is None {
        Err(Error::TweetNotFound)
    } else {
        Ok(m.insert(name, IdentityView { posts: m[name].posts.update(id as int, None), ..m[name] }))
    }
}

pub open spec fn delete_user_step(
    m: Registry,
    who: u64,
    name: Seq<u8>,
    password: Seq<u8>,
) -> Result<Registry, Error> {
    if owner_check(m, who, name, password) is Err {
        Err(owner_check(m, who, name, password)->Err_0)
    } else {
        Ok(m.remove(name))
    }
}

/// A state-changing call, with its arguments.
pub enum Call {
    CreateUser { who: u64, name: Seq<u8>, password: Seq<u8>, birthday: Birthday },
    CreateTweet { who: u64, name: Seq<u8>, password: Seq<u8>, content: Seq<u8>, now: u64 },
    UpdateUserName { who: u64, name: Seq<u8>, password: Seq<u8>, new_name: Seq<u8> },
    UpdatePassword { who: u64, name: Seq<u8>, old_password: Seq<u8>, new_password: Seq<u8> },
    DeleteTweet { who: u64, name: Seq<u8>, password: Seq<u8>, id: u32 },
    DeleteUser { who: u64, name: Seq<u8>, password: Seq<u8> },
}

/// The store after a call, or the error the call is refused with.
pub open spec fn apply(m: Registry, c: Call) -> Result<Registry, Error> {
    match c {
        Call::CreateUser { who, name, password, birthday } => create_user_step(
            m,
            who,
            name,
            password,
            birthday,
        ),
        Call::CreateTweet { who, name, password, content, now } => create_tweet_step(
            m,
            who,
            name,
            password,
            content,
            now,
        ),
        Call::UpdateUserName { who, name, password, new_name } => update_user_name_step(
            m,
            who,
            name,
            password,
            new_name,
        ),
        Call::UpdatePassword { who, name, old_password, new_password } => update_password_step(
            m,
            who,
            name,
            old_password,
            new_password,
        ),
        Call::DeleteTweet { who, name, password, id } => delete_tweet_step(
            m,
            who,
            name,
            password,
            id,
        ),
        Call::DeleteUser { who, name, password } => delete_user_step(m, who, name, password),
    }
}

/// The names a call would store lie within the length bound.
pub open spec fn call_names_bounded(c: Call) -> bool {
    match c {
        Call::CreateUser { name, .. } => name.len() <= MAX_NAME_LEN,
        Call::UpdateUserName { new_name, .. } => new_name.len() <= MAX_NAME_LEN,
        _ => true,
    }
}

} // verus!

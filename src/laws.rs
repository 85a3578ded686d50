//! Properties that hold across calls, stated over the model of the store.
use vstd::prelude::*;

use crate::model::{
    account_of, accounts_unique, allocator_of, apply, call_names_bounded, credential_of,
    delete_user_step, has_account, name_of, post_of, profile_of, update_user_name_step,
    valid_identity, valid_registry, Call, Registry,
};
use crate::types::{MAX_CONTENT_LEN, MAX_NAME_LEN};

verus! {

/// Where names are unique per account, the name of the account that `name` is
/// registered to is `name`.
proof fn lemma_name_of_owner(m: Registry, name: Seq<u8>)
    requires
        accounts_unique(m),
        m.contains_key(name),
    ensures
        name_of(m, m[name].account) == Some(name),
{
    let who = m[name].account;
    assert(has_account(m, who));
    let c = choose|c: Seq<u8>| #[trigger] m.contains_key(c) && m[c].account == who;
    assert(c == name);
}

/// In a well-formed store the name-to-account and account-to-name tables are
/// inverse to each other, and no two names share an account.
pub proof fn registry_is_bijection(m: Registry)
    requires
        valid_registry(m),
    ensures
        forall|name: Seq<u8>, who: u64|
            #[trigger] account_of(m, name) == Some(who) <==> #[trigger] name_of(m, who) == Some(
                name,
            ),
        forall|n1: Seq<u8>, n2: Seq<u8>|
            #[trigger] account_of(m, n1) is Some && account_of(m, n1) == #[trigger] account_of(
                m,
                n2,
            ) ==> n1 == n2,
{
    assert forall|name: Seq<u8>, who: u64|
        #[trigger] account_of(m, name) == Some(who) <==> #[trigger] name_of(m, who) == Some(
            name,
        ) by {
        if account_of(m, name) == Some(who) {
            lemma_name_of_owner(m, name);
        }
    }
}

/// Every successful call keeps the store well formed, so the bijection between
/// names and accounts holds after any sequence of calls.
pub proof fn successful_calls_keep_registry_valid(m: Registry, c: Call)
    requires
        valid_registry(m),
        call_names_bounded(c),
        apply(m, c) is Ok,
    ensures
        valid_registry(apply(m, c)->Ok_0),
{
    let m2 = apply(m, c)->Ok_0;
    match c {
        Call::CreateUser { who, name, password, birthday } => {
            assert forall|n1: Seq<u8>, n2: Seq<u8>|
                #[trigger] m2.contains_key(n1) && #[trigger] m2.contains_key(n2) && m2[n1].account
                    == m2[n2].account implies n1 == n2 by {
                if n1 != name && n2 == name {
                    assert(m.contains_key(n1) && m[n1].account == who);
                } else if n1 == name && n2 != name {
                    assert(m.contains_key(n2) && m[n2].account == who);
                }
            }
        },
        Call::CreateTweet { who, name, password, content, now } => {
            assert forall|n: Seq<u8>| #[trigger] m2.contains_key(n) implies n.len() <= MAX_NAME_LEN
                && valid_identity(m2[n]) by {
                if n == name {
                    let v = m2[n];
                    assert forall|k: int|
                        0 <= k < v.posts.len() && #[trigger] v.posts[k] is Some implies v.posts[k]->0.content.len()
                            <= MAX_CONTENT_LEN by {
                        if k < v.posts.len() - 1 {
                            assert(v.posts[k] == m[name].posts[k]);
                        }
                    }
                }
            }
            assert forall|n1: Seq<u8>, n2: Seq<u8>|
                #[trigger] m2.contains_key(n1) && #[trigger] m2.contains_key(n2) && m2[n1].account
                    == m2[n2].account implies n1 == n2 by {
                assert(m.contains_key(n1) && m.contains_key(n2));
            }
        },
        Call::UpdateUserName { who, name, password, new_name } => {
            assert forall|n1: Seq<u8>, n2: Seq<u8>|
                #[trigger] m2.contains_key(n1) && #[trigger] m2.contains_key(n2) && m2[n1].account
                    == m2[n2].account implies n1 == n2 by {
                let p1 = if n1 == new_name { name } else { n1 };
                let p2 = if n2 == new_name { name } else { n2 };
                assert(m.contains_key(p1) && m.contains_key(p2));
            }
        },
        Call::UpdatePassword { who, name, old_password, new_password } => {
            assert forall|n1: Seq<u8>, n2: Seq<u8>|
                #[trigger] m2.contains_key(n1) && #[trigger] m2.contains_key(n2) && m2[n1].account
                    == m2[n2].account implies n1 == n2 by {
                assert(m.contains_key(n1) && m.contains_key(n2));
            }
        },
        Call::DeleteTweet { who, name, password, id } => {
            assert forall|n: Seq<u8>| #[trigger] m2.contains_key(n) implies n.len() <= MAX_NAME_LEN
                && valid_identity(m2[n]) by {
                if n == name {
                    let v = m2[n];
                    assert forall|k: int|
                        0 <= k < v.posts.len() && #[trigger] v.posts[k] is Some implies v.posts[k]->0.content.len()
                            <= MAX_CONTENT_LEN by {
                        assert(v.posts[k] == m[name].posts[k]);
                    }
                }
            }
            assert forall|n1: Seq<u8>, n2: Seq<u8>|
                #[trigger] m2.contains_key(n1) && #[trigger] m2.contains_key(n2) && m2[n1].account
                    == m2[n2].account implies n1 == n2 by {
                assert(m.contains_key(n1) && m.contains_key(n2));
            }
        },
        Call::DeleteUser { who, name, password } => {
            assert forall|n1: Seq<u8>, n2: Seq<u8>|
                #[trigger] m2.contains_key(n1) && #[trigger] m2.contains_key(n2) && m2[n1].account
                    == m2[n2].account implies n1 == n2 by {
                assert(m.contains_key(n1) && m.contains_key(n2));
            }
        },
    }
}

/// A successful rename leaves nothing under the old name, and the new name holds
/// the account, credential, profile, every post and the post-id allocator that the
/// old name held. Every other name is untouched.
pub proof fn rename_moves_whole_identity(
    m: Registry,
    who: u64,
    name: Seq<u8>,
    password: Seq<u8>,
    new_name: Seq<u8>,
)
    requires
        valid_registry(m),
        update_user_name_step(m, who, name, password, new_name) is Ok,
    ensures
        ({
            let m2 = update_user_name_step(m, who, name, password, new_name)->Ok_0;
            &&& account_of(m2, name) is None
            &&& credential_of(m2, name) is None
            &&& profile_of(m2, name) is None
            &&& allocator_of(m2, name) == 0
            &&& forall|id: u32| #[trigger] post_of(m2, name, id) is None
            &&& account_of(m2, new_name) == Some(who)
            &&& account_of(m, name) == Some(who)
            &&& name_of(m2, who) == Some(new_name)
            &&& credential_of(m2, new_name) == credential_of(m, name)
            &&& profile_of(m2, new_name) == profile_of(m, name)
            &&& allocator_of(m2, new_name) == allocator_of(m, name)
            &&& forall|id: u32| #[trigger] post_of(m2, new_name, id) == post_of(m, name, id)
            &&& forall|n: Seq<u8>|
                n != name && n != new_name ==> #[trigger] m2.contains_key(n) == m.contains_key(n)
                    && (m.contains_key(n) ==> m2[n] == m[n])
        }),
{
    let m2 = update_user_name_step(m, who, name, password, new_name)->Ok_0;
    assert(name != new_name);
    assert forall|n1: Seq<u8>, n2: Seq<u8>|
        #[trigger] m2.contains_key(n1) && #[trigger] m2.contains_key(n2) && m2[n1].account
            == m2[n2].account implies n1 == n2 by {
        let p1 = if n1 == new_name { name } else { n1 };
        let p2 = if n2 == new_name { name } else { n2 };
        assert(m.contains_key(p1) && m.contains_key(p2));
    }
    lemma_name_of_owner(m2, new_name);
}

/// Post ids are never reused: over any successful call, the post-id allocator of a
/// name registered before and after does not go down, and a post that appears or
/// changes under such a name has an id at or above the allocator's old value.
pub proof fn allocator_never_decreases(m: Registry, c: Call)
    requires
        apply(m, c) is Ok,
    ensures
        ({
            let m2 = apply(m, c)->Ok_0;
            &&& forall|n: Seq<u8>|
                m.contains_key(n) && #[trigger] m2.contains_key(n) ==> allocator_of(m2, n)
                    >= allocator_of(m, n)
            &&& forall|n: Seq<u8>, id: u32|
                m.contains_key(n) && m2.contains_key(n) && #[trigger] post_of(m2, n, id) is Some
                    && post_of(m2, n, id) != post_of(m, n, id) ==> id >= allocator_of(m, n)
        }),
{
    let m2 = apply(m, c)->Ok_0;
    match c {
        Call::CreateTweet { who, name, password, content, now } => {
            assert forall|n: Seq<u8>, id: u32|
                m.contains_key(n) && m2.contains_key(n) && #[trigger] post_of(m2, n, id) is Some
                    && post_of(m2, n, id) != post_of(m, n, id) implies id >= allocator_of(m, n) by {
                if n == name && id < m[n].posts.len() {
                    assert(m2[n].posts[id as int] == m[n].posts[id as int]);
                }
            }
        },
        Call::DeleteTweet { who, name, password, id } => {
            assert forall|n: Seq<u8>, k: u32|
                m.contains_key(n) && m2.contains_key(n) && #[trigger] post_of(m2, n, k) is Some
                    && post_of(m2, n, k) != post_of(m, n, k) implies k >= allocator_of(m, n) by {
                if n == name && k < m[n].posts.len() && k != id {
                    assert(m2[n].posts[k as int] == m[n].posts[k as int]);
                }
            }
        },
        _ => {},
    }
}

/// A successful `delete_user` leaves no registry, credential, profile, post or
/// allocator entry under the name, and the account no longer holds any name.
pub proof fn delete_user_leaves_nothing(m: Registry, who: u64, name: Seq<u8>, password: Seq<u8>)
    requires
        valid_registry(m),
        delete_user_step(m, who, name, password) is Ok,
    ensures
        ({
            let m2 = delete_user_step(m, who, name, password)->Ok_0;
            &&& account_of(m2, name) is None
            &&& credential_of(m2, name) is None
            &&& profile_of(m2, name) is None
            &&& allocator_of(m2, name) == 0
            &&& forall|id: u32| #[trigger] post_of(m2, name, id) is None
            &&& name_of(m2, who) is None
        }),
{
    let m2 = delete_user_step(m, who, name, password)->Ok_0;
    assert(!has_account(m2, who)) by {
        if has_account(m2, who) {
            let c = choose|c: Seq<u8>| #[trigger] m2.contains_key(c) && m2[c].account == who;
            assert(m.contains_key(c) && m.contains_key(name));
        }
    }
}

} // verus!

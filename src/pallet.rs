//! The store and its operations.
use vstd::prelude::*;

use crate::bytes::{bytes_eq, copy_bytes};
use crate::digest::{blake2_256, digests_match};
use crate::model::{
    account_of, allocator_of, create_tweet_step, create_user_step, delete_tweet_step,
    delete_user_step, has_account, live_tweets, login_check, name_of, owner_check, profile_of,
    update_password_step, update_user_name_step, valid_identity, valid_registry, IdentityView,
    PostView, Registry,
};
use crate::types::{
    events_view, tweets_view, Birthday, Error, Event, EventView, Tweet, MAX_CONTENT_LEN,
    MAX_NAME_LEN,
};

verus! {

/// A stored post.
struct Entry {
    content: Vec<u8>,
    timestamp: u64,
}

/// Everything held under one name.
struct Identity {
    account: u64,
    name: Vec<u8>,
    digest: [u8; 32],
    birthday: Birthday,
    posts: Vec<Option<Entry>>,
}

spec fn entry_view(o: Option<Entry>) -> Option<PostView> {
    match o {
        Some(e) => Some(PostView { content: e.content@, timestamp: e.timestamp }),
        None => None,
    }
}

impl Identity {
    spec fn view(&self) -> IdentityView {
        IdentityView {
            account: self.account,
            digest: self.digest@,
            birthday: self.birthday,
            posts: self.posts@.map_values(|o: Option<Entry>| entry_view(o)),
        }
    }
}

/// The store: every identity with its credential, profile and posts.
pub struct Pallet {
    identities: Vec<Identity>,
    registry: Ghost<Registry>,
}

impl View for Pallet {
    type V = Registry;

    closed spec fn view(&self) -> Registry {
        self.registry@
    }
}

impl Pallet {
    /// The vector of identities and the map agree, and names are unique.
    pub closed spec fn inv(&self) -> bool {
        &&& forall|i: int|
            0 <= i < self.identities@.len() ==> self.registry@.contains_key(
                #[trigger] self.identities@[i].name@,
            ) && self.registry@[self.identities@[i].name@] == self.identities@[i].view()
        &&& forall|n: Seq<u8>| #[trigger]
            self.registry@.contains_key(n) ==> exists|i: int|
                0 <= i < self.identities@.len() && #[trigger] self.identities@[i].name@ == n
        &&& forall|i: int, j: int|
            0 <= i < self.identities@.len() && 0 <= j < self.identities@.len() && i != j
                ==> #[trigger] self.identities@[i].name@ != #[trigger] self.identities@[j].name@
    }

    /// The store is well formed.
    pub open spec fn wf(&self) -> bool {
        self.inv() && valid_registry(self@)
    }

    /// An empty store.
    pub fn new() -> (r: Pallet)
        ensures
            r.wf(),
            r@ == Registry::empty(),
    {
        Pallet { identities: Vec::new(), registry: Ghost(Map::empty()) }
    }

    /// The index of the identity registered under `name`.
    fn find_name(&self, name: &Vec<u8>) -> (r: Option<usize>)
        requires
            self.wf(),
        ensures
            match r {
                Some(i) => {
                    &&& i < self.identities@.len()
                    &&& self.identities@[i as int].name@ == name@
                    &&& self@.contains_key(name@)
                    &&& self@[name@] == self.identities@[i as int].view()
                },
                None => !self@.contains_key(name@),
            },
    {
        let mut i: usize = 0;
        while i < self.identities.len()
            invariant
                self.wf(),
                0 <= i <= self.identities@.len(),
                forall|j: int| 0 <= j < i ==> self.identities@[j].name@ != name@,
            decreases self.identities@.len() - i,
        {
            if bytes_eq(&self.identities[i].name, name) {
                return Some(i);
            }
            i += 1;
        }
        None
    }

    /// Whether some name is registered to `who`.
    fn holds_account(&self, who: u64) -> (r: bool)
        requires
            self.wf(),
        ensures
            r == has_account(self@, who),
    {
        let mut i: usize = 0;
        while i < self.identities.len()
            invariant
                self.wf(),
                0 <= i <= self.identities@.len(),
                forall|j: int| 0 <= j < i ==> self.identities@[j].account != who,
            decreases self.identities@.len() - i,
        {
            if self.identities[i].account == who {
                assert(self@.contains_key(self.identities@[i as int].name@));
                return true;
            }
            i += 1;
        }
        assert forall|n: Seq<u8>| #[trigger] self@.contains_key(n) implies self@[n].account
            != who by {
            let j = choose|j: int| 0 <= j < self.identities@.len() && #[trigger] self.identities@[j].name@ == n;
            assert(self.identities@[j].name@ == n);
        }
        false
    }

    /// Authenticates `who` as the owner of `name`, returning the index of its identity.
    fn authorize(&self, who: u64, name: &Vec<u8>, password: &Vec<u8>) -> (r: Result<usize, Error>)
        requires
            self.wf(),
        ensures
            match owner_check(self@, who, name@, password@) {
                Ok(_) => r matches Ok(i) && i < self.identities@.len()
                    && self.identities@[i as int].name@ == name@ && self@[name@]
                    == self.identities@[i as int].view(),
                Err(e) => r == Err::<usize, Error>(e),
            },
    {
        let i = match self.find_name(name) {
            Some(i) => i,
            None => return Err(Error::UserNotFound),
        };
        if self.identities[i].account != who {
            return Err(Error::NotAuthorized);
        }
        let digest = blake2_256(password);
        if !digests_match(&digest, &self.identities[i].digest) {
            return Err(Error::InvalidCredentials);
        }
        Ok(i)
    }

    /// Registers `name` to the caller `who`, with the digest of `password` and the
    /// given birth date, and an empty post ledger. Refused, in this order, with
    /// `InvalidBirthday` for a date out of range, `NameAlreadyTaken` for a
    /// registered name, and `InvalidCaller` where `who` already holds a name, so
    /// that every account holds at most one.
    pub fn create_user(
        &mut self,
        who: u64,
        name: Vec<u8>,
        password: Vec<u8>,
        year: u16,
        month: u8,
        day: u8,
    ) -> (r: Result<Vec<Event>, Error>)
        requires
            old(self).wf(),
            name@.len() <= MAX_NAME_LEN,
        ensures
            final(self).wf(),
            match create_user_step(
                old(self)@,
                who,
                name@,
                password@,
                Birthday { year, month, day },
            ) {
                Ok(m) => r matches Ok(evs) && final(self)@ == m && events_view(evs@) == seq![
                    EventView::NameStored { name: name@, who },
                    EventView::BirthdayStored { name: name@, year, month, day },
                    EventView::PasswordHashed { name: name@ },
                ],
                Err(e) => r == Err::<Vec<Event>, Error>(e) && *final(self) == *old(self),
            },
    {
        let birthday = Birthday { year, month, day };
        if !birthday.is_valid() {
            return Err(Error::InvalidBirthday);
        }
        if self.find_name(&name).is_some() {
            return Err(Error::NameAlreadyTaken);
        }
        if self.holds_account(who) {
            return Err(Error::InvalidCaller);
        }
        let digest = blake2_256(&password);
        let mut evs: Vec<Event> = Vec::new();
        evs.push(Event::NameStored { name: copy_bytes(&name), who });
        evs.push(Event::BirthdayStored { name: copy_bytes(&name), year, month, day });
        evs.push(Event::PasswordHashed { name: copy_bytes(&name) });
        let ident = Identity { account: who, name, digest, birthday, posts: Vec::new() };
        let ghost old_ids = self.identities@;
        let ghost v = ident.view();
        assert(v.posts =~= Seq::<Option<PostView>>::empty());
        self.identities.push(ident);
        self.registry = Ghost(self.registry@.insert(ident.name@, v));
        proof {
            let m = self.registry@;
            let k = old_ids.len() as int;
            assert forall|i: int| 0 <= i < self.identities@.len() implies m.contains_key(
                #[trigger] self.identities@[i].name@,
            ) && m[self.identities@[i].name@] == self.identities@[i].view() by {
                if i < k {
                    assert(self.identities@[i] == old_ids[i]);
                }
            }
            assert forall|n: Seq<u8>| #[trigger] m.contains_key(n) implies exists|i: int|
                0 <= i < self.identities@.len() && #[trigger] self.identities@[i].name@ == n by {
                if n == name@ {
                    assert(self.identities@[k].name@ == n);
                } else {
                    let j = choose|j: int| 0 <= j < old_ids.len() && #[trigger] old_ids[j].name@ == n;
                    assert(self.identities@[j].name@ == n);
                }
            }
            assert(valid_registry(m));
            assert(events_view(evs@) =~= seq![
                EventView::NameStored { name: name@, who },
                EventView::BirthdayStored { name: name@, year, month, day },
                EventView::PasswordHashed { name: name@ },
            ]);
        }
        Ok(evs)
    }

    /// The invariant survives replacing the identity at `i` by one under the same
    /// name or under a name not yet registered.
    proof fn lemma_replace_inv(pre: &Pallet, post: &Pallet, i: int, x: Identity)
        requires
            pre.inv(),
            0 <= i < pre.identities@.len(),
            post.identities@ == pre.identities@.update(i, x),
            post.registry@ == pre.registry@.remove(pre.identities@[i].name@).insert(
                x.name@,
                x.view(),
            ),
            x.name@ == pre.identities@[i].name@ || !pre.registry@.contains_key(x.name@),
        ensures
            post.inv(),
    {
        let old_name = pre.identities@[i].name@;
        let m = post.registry@;
        assert forall|j: int| 0 <= j < post.identities@.len() implies m.contains_key(
            #[trigger] post.identities@[j].name@,
        ) && m[post.identities@[j].name@] == post.identities@[j].view() by {
            if j != i {
                assert(pre.identities@[j].name@ != old_name);
                assert(pre.registry@.contains_key(pre.identities@[j].name@));
            }
        }
        assert forall|n: Seq<u8>| #[trigger] m.contains_key(n) implies exists|j: int|
            0 <= j < post.identities@.len() && #[trigger] post.identities@[j].name@ == n by {
            if n == x.name@ {
                assert(post.identities@[i].name@ == n);
            } else {
                assert(pre.registry@.contains_key(n));
                let j = choose|j: int|
                    0 <= j < pre.identities@.len() && #[trigger] pre.identities@[j].name@ == n;
                assert(post.identities@[j].name@ == n);
            }
        }
        assert forall|j: int, k: int|
            0 <= j < post.identities@.len() && 0 <= k < post.identities@.len() && j != k
                implies #[trigger] post.identities@[j].name@ != #[trigger] post.identities@[k].name@ by {
            if j == i {
                assert(pre.registry@.contains_key(pre.identities@[k].name@));
            } else if k == i {
                assert(pre.registry@.contains_key(pre.identities@[j].name@));
            }
        }
    }

    /// The invariant survives removing the identity at `i` together with its name.
    proof fn lemma_remove_inv(pre: &Pallet, post: &Pallet, i: int)
        requires
            pre.inv(),
            0 <= i < pre.identities@.len(),
            post.identities@ == pre.identities@.remove(i),
            post.registry@ == pre.registry@.remove(pre.identities@[i].name@),
        ensures
            post.inv(),
    {
        let old_name = pre.identities@[i].name@;
        let m = post.registry@;
        assert forall|j: int| 0 <= j < post.identities@.len() implies m.contains_key(
            #[trigger] post.identities@[j].name@,
        ) && m[post.identities@[j].name@] == post.identities@[j].view() by {
            if j < i {
                assert(post.identities@[j] == pre.identities@[j]);
            } else {
                assert(post.identities@[j] == pre.identities@[j + 1]);
            }
        }
        assert forall|n: Seq<u8>| #[trigger] m.contains_key(n) implies exists|j: int|
            0 <= j < post.identities@.len() && #[trigger] post.identities@[j].name@ == n by {
            assert(pre.registry@.contains_key(n));
            let j = choose|j: int|
                0 <= j < pre.identities@.len() && #[trigger] pre.identities@[j].name@ == n;
            if j < i {
                assert(post.identities@[j].name@ == n);
            } else {
                assert(post.identities@[j - 1].name@ == n);
            }
        }
        assert forall|j: int, k: int|
            0 <= j < post.identities@.len() && 0 <= k < post.identities@.len() && j != k
                implies #[trigger] post.identities@[j].name@ != #[trigger] post.identities@[k].name@ by {
            let jj = if j < i { j } else { j + 1 };
            let kk = if k < i { k } else { k + 1 };
            assert(post.identities@[j] == pre.identities@[jj]);
            assert(post.identities@[k] == pre.identities@[kk]);
        }
    }

    /// Checks `password` against the credential stored under `name`. Reading needs
    /// no ownership: any caller may test a login. Like every refused call, a
    /// refused login reports no event; `audit_login` reports both outcomes.
    pub fn verify_user(&self, name: &Vec<u8>, password: &Vec<u8>) -> (r: Result<Vec<Event>, Error>)
        requires
            self.wf(),
        ensures
            match login_check(self@, name@, password@) {
                Ok(_) => r matches Ok(evs) && events_view(evs@) == seq![
                    EventView::LoginSuccessful { name: name@, who: self@[name@].account },
                ],
                Err(e) => r == Err::<Vec<Event>, Error>(e),
            },
    {
        let i = match self.find_name(name) {
            Some(i) => i,
            None => return Err(Error::UserNotFound),
        };
        let digest = blake2_256(password);
        if !digests_match(&digest, &self.identities[i].digest) {
            return Err(Error::InvalidCredentials);
        }
        let mut evs: Vec<Event> = Vec::new();
        evs.push(Event::LoginSuccessful { name: copy_bytes(name), who: self.identities[i].account });
        assert(events_view(evs@) =~= seq![
            EventView::LoginSuccessful { name: name@, who: self@[name@].account },
        ]);
        Ok(evs)
    }

    /// Appends a post under `name`, with the next unused post id and the time `now`
    /// read from the caller's clock. Content over the length limit is refused first
    /// (`TweetTooLong`), then the owner is authenticated, and an identity that has
    /// used every post id gets `StorageOverflow`.
    pub fn create_tweet(
        &mut self,
        who: u64,
        name: Vec<u8>,
        password: Vec<u8>,
        content: Vec<u8>,
        now: u64,
    ) -> (r: Result<Vec<Event>, Error>)
        requires
            old(self).wf(),
        ensures
            final(self).wf(),
            match create_tweet_step(old(self)@, who, name@, password@, content@, now) {
                Ok(m) => r matches Ok(evs) && final(self)@ == m && events_view(evs@) == seq![
                    EventView::TweetCreated {
                        name: name@,
                        tweet_id: old(self)@[name@].posts.len() as u32,
                        timestamp: now,
                    },
                ],
                Err(e) => r == Err::<Vec<Event>, Error>(e) && *final(self) == *old(self),
            },
    {
        if content.len() > MAX_CONTENT_LEN {
            return Err(Error::TweetTooLong);
        }
        let i = match self.authorize(who, &name, &password) {
            Ok(i) => i,
            Err(e) => return Err(e),
        };
        let tweet_id = self.identities[i].posts.len();
        if tweet_id >= u32::MAX as usize {
            return Err(Error::StorageOverflow);
        }
        let ghost pre = *self;
        let ghost cview = content@;
        let entry = Entry { content, timestamp: now };
        self.identities[i].posts.push(Some(entry));
        let ghost x = self.identities@[i as int];
        proof {
            assert(x.posts@ == pre.identities@[i as int].posts@.push(Some(entry)));
            assert(x.name@ == name@);
        }
        self.registry = Ghost(pre.registry@.insert(name@, x.view()));
        proof {
            assert(self.identities@ == pre.identities@.update(i as int, x));
            assert(x.view().posts =~= pre@[name@].posts.push(
                Some(PostView { content: cview, timestamp: now }),
            ));
            assert(self.registry@ =~= pre.registry@.remove(name@).insert(name@, x.view()));
            Pallet::lemma_replace_inv(&pre, self, i as int, x);
            let m = self@;
            assert forall|n: Seq<u8>| #[trigger] m.contains_key(n) implies n.len() <= MAX_NAME_LEN
                && valid_identity(m[n]) by {
                if n == name@ {
                    let v = m[n];
                    assert forall|id: int|
                        0 <= id < v.posts.len() && #[trigger] v.posts[id] is Some implies v.posts[id]->0.content.len()
                            <= MAX_CONTENT_LEN by {
                        if id < v.posts.len() - 1 {
                            assert(v.posts[id] == pre@[name@].posts[id]);
                        }
                    }
                }
            }
        }
        let mut evs: Vec<Event> = Vec::new();
        evs.push(Event::TweetCreated { name, tweet_id: tweet_id as u32, timestamp: now });
        assert(events_view(evs@) =~= seq![
            EventView::TweetCreated {
                name: name@,
                tweet_id: pre@[name@].posts.len() as u32,
                timestamp: now,
            },
        ]);
        Ok(evs)
    }

    /// Moves the identity registered under `name`, with its credential, profile,
    /// posts and post-id allocator, to `new_name`. The profile moves too, so that no
    /// entry is left behind under the old name.
    pub fn update_user_name(
        &mut self,
        who: u64,
        name: Vec<u8>,
        password: Vec<u8>,
        new_name: Vec<u8>,
    ) -> (r: Result<Vec<Event>, Error>)
        requires
            old(self).wf(),
            new_name@.len() <= MAX_NAME_LEN,
        ensures
            final(self).wf(),
            match update_user_name_step(old(self)@, who, name@, password@, new_name@) {
                Ok(m) => r matches Ok(evs) && final(self)@ == m && events_view(evs@) == seq![
                    EventView::NameStored { name: new_name@, who },
                    EventView::PasswordHashed { name: new_name@ },
                ],
                Err(e) => r == Err::<Vec<Event>, Error>(e) && *final(self) == *old(self),
            },
    {
        let i = match self.authorize(who, &name, &password) {
            Ok(i) => i,
            Err(e) => return Err(e),
        };
        if self.find_name(&new_name).is_some() {
            return Err(Error::NameAlreadyTaken);
        }
        let mut evs: Vec<Event> = Vec::new();
        evs.push(Event::NameStored { name: copy_bytes(&new_name), who });
        evs.push(Event::PasswordHashed { name: copy_bytes(&new_name) });
        let ghost pre = *self;
        let ghost nview = new_name@;
        self.identities[i].name = new_name;
        let ghost x = self.identities@[i as int];
        self.registry = Ghost(pre.registry@.remove(name@).insert(nview, x.view()));
        proof {
            assert(x.view() == pre@[name@]);
            assert(self.identities@ == pre.identities@.update(i as int, x));
            Pallet::lemma_replace_inv(&pre, self, i as int, x);
            let m = self@;
            assert forall|n1: Seq<u8>, n2: Seq<u8>|
                #[trigger] m.contains_key(n1) && #[trigger] m.contains_key(n2) && m[n1].account
                    == m[n2].account implies n1 == n2 by {
                let p1 = if n1 == nview { name@ } else { n1 };
                let p2 = if n2 == nview { name@ } else { n2 };
                assert(pre@.contains_key(p1) && pre@.contains_key(p2));
            }
            assert(valid_registry(m));
            assert(events_view(evs@) =~= seq![
                EventView::NameStored { name: nview, who },
                EventView::PasswordHashed { name: nview },
            ]);
        }
        Ok(evs)
    }

    /// Replaces the credential stored under `name` by the digest of `new_password`.
    pub fn update_password(
        &mut self,
        who: u64,
        name: Vec<u8>,
        old_password: Vec<u8>,
        new_password: Vec<u8>,
    ) -> (r: Result<Vec<Event>, Error>)
        requires
            old(self).wf(),
        ensures
            final(self).wf(),
            match update_password_step(old(self)@, who, name@, old_password@, new_password@) {
                Ok(m) => r matches Ok(evs) && final(self)@ == m && events_view(evs@) == seq![
                    EventView::PasswordHashed { name: name@ },
                ],
                Err(e) => r == Err::<Vec<Event>, Error>(e) && *final(self) == *old(self),
            },
    {
        let i = match self.authorize(who, &name, &old_password) {
            Ok(i) => i,
            Err(e) => return Err(e),
        };
        let digest = blake2_256(&new_password);
        let ghost pre = *self;
        self.identities[i].digest = digest;
        let ghost x = self.identities@[i as int];
        self.registry = Ghost(pre.registry@.insert(name@, x.view()));
        proof {
            assert(self.identities@ == pre.identities@.update(i as int, x));
            assert(self.registry@ =~= pre.registry@.remove(name@).insert(name@, x.view()));
            Pallet::lemma_replace_inv(&pre, self, i as int, x);
            assert(valid_registry(self@));
        }
        let mut evs: Vec<Event> = Vec::new();
        evs.push(Event::PasswordHashed { name });
        assert(events_view(evs@) =~= seq![EventView::PasswordHashed { name: name@ }]);
        Ok(evs)
    }

    /// Deletes the post `tweet_id` of `name`. The post-id allocator is left as it
    /// is, so the id is never handed out again.
    pub fn delete_tweet(
        &mut self,
        who: u64,
        name: Vec<u8>,
        password: Vec<u8>,
        tweet_id: u32,
    ) -> (r: Result<Vec<Event>, Error>)
        requires
            old(self).wf(),
        ensures
            final(self).wf(),
            match delete_tweet_step(old(self)@, who, name@, password@, tweet_id) {
                Ok(m) => r matches Ok(evs) && final(self)@ == m && evs@.len() == 0,
                Err(e) => r == Err::<Vec<Event>, Error>(e) && *final(self) == *old(self),
            },
    {
        let i = match self.authorize(who, &name, &password) {
            Ok(i) => i,
            Err(e) => return Err(e),
        };
        let id = tweet_id as usize;
        if id >= self.identities[i].posts.len() || self.identities[i].posts[id].is_none() {
            return Err(Error::TweetNotFound);
        }
        let ghost pre = *self;
        self.identities[i].posts.set(id, None);
        let ghost x = self.identities@[i as int];
        self.registry = Ghost(pre.registry@.insert(name@, x.view()));
        proof {
            assert(self.identities@ == pre.identities@.update(i as int, x));
            assert(self.registry@ =~= pre.registry@.remove(name@).insert(name@, x.view()));
            Pallet::lemma_replace_inv(&pre, self, i as int, x);
            assert(x.view().posts =~= pre@[name@].posts.update(id as int, None));
            let m = self@;
            assert forall|n: Seq<u8>| #[trigger] m.contains_key(n) implies n.len() <= MAX_NAME_LEN
                && valid_identity(m[n]) by {
                if n == name@ {
                    let v = m[n];
                    assert forall|k: int|
                        0 <= k < v.posts.len() && #[trigger] v.posts[k] is Some implies v.posts[k]->0.content.len()
                            <= MAX_CONTENT_LEN by {
                        assert(v.posts[k] == pre@[name@].posts[k]);
                    }
                }
            }
            assert(valid_registry(m));
        }
        Ok(Vec::new())
    }

    /// Removes the identity registered under `name` and everything held under it:
    /// the name mappings, the credential, the profile, every post and the post-id
    /// allocator.
    pub fn delete_user(&mut self, who: u64, name: Vec<u8>, password: Vec<u8>) -> (r: Result<
        Vec<Event>,
        Error,
    >)
        requires
            old(self).wf(),
        ensures
            final(self).wf(),
            match delete_user_step(old(self)@, who, name@, password@) {
                Ok(m) => r matches Ok(evs) && final(self)@ == m && evs@.len() == 0,
                Err(e) => r == Err::<Vec<Event>, Error>(e) && *final(self) == *old(self),
            },
    {
        let i = match self.authorize(who, &name, &password) {
            Ok(i) => i,
            Err(e) => return Err(e),
        };
        let ghost pre = *self;
        self.identities.remove(i);
        self.registry = Ghost(pre.registry@.remove(name@));
        proof {
            Pallet::lemma_remove_inv(&pre, self, i as int);
            assert(valid_registry(self@));
        }
        Ok(Vec::new())
    }

    /// The birth date stored under `name`. Any caller may read it.
    pub fn get_user_birthday(&self, name: &Vec<u8>) -> (r: Result<Birthday, Error>)
        requires
            self.wf(),
        ensures
            match profile_of(self@, name@) {
                Some(b) => r == Ok::<Birthday, Error>(b),
                None => r == Err::<Birthday, Error>(Error::UserNotFound),
            },
    {
        match self.find_name(name) {
            Some(i) => Ok(self.identities[i].birthday),
            None => Err(Error::UserNotFound),
        }
    }

    /// The live posts of `name`, in id order, each with its id; ids of deleted
    /// posts are skipped. Any caller may read them.
    pub fn get_user_tweets(&self, name: &Vec<u8>) -> (r: Result<Vec<(u32, Tweet)>, Error>)
        requires
            self.wf(),
        ensures
            match r {
                Ok(v) => self@.contains_key(name@) && tweets_view(v@) == live_tweets(
                    name@,
                    self@[name@].posts,
                    self@[name@].posts.len(),
                ),
                Err(e) => !self@.contains_key(name@) && e == Error::UserNotFound,
            },
    {
        let i = match self.find_name(name) {
            Some(i) => i,
            None => return Err(Error::UserNotFound),
        };
        let posts = &self.identities[i].posts;
        let ghost pv = self@[name@].posts;
        let mut out: Vec<(u32, Tweet)> = Vec::new();
        let mut j: usize = 0;
        while j < posts.len()
            invariant
                self.wf(),
                i < self.identities@.len(),
                posts == self.identities@[i as int].posts,
                pv == posts@.map_values(|o: Option<Entry>| entry_view(o)),
                pv.len() <= u32::MAX,
                0 <= j <= posts@.len(),
                tweets_view(out@) == live_tweets(name@, pv, j as nat),
            decreases posts@.len() - j,
        {
            match &posts[j] {
                Some(e) => {
                    let t = Tweet {
                        name: copy_bytes(name),
                        content: copy_bytes(&e.content),
                        timestamp: e.timestamp,
                    };
                    let ghost prev = out@;
                    out.push((j as u32, t));
                    assert(tweets_view(out@) =~= tweets_view(prev).push((j as u32, t@)));
                },
                None => {},
            }
            j += 1;
        }
        Ok(out)
    }

    /// Reports a login attempt without failing: `LoginSuccessful` with the owning
    /// account where `password` matches the credential under `name`, `LoginFailed`
    /// otherwise. The store is not touched either way.
    pub fn audit_login(&self, name: &Vec<u8>, password: &Vec<u8>) -> (r: Event)
        requires
            self.wf(),
        ensures
            r@ == (match login_check(self@, name@, password@) {
                Ok(_) => EventView::LoginSuccessful { name: name@, who: self@[name@].account },
                Err(_) => EventView::LoginFailed { name: name@ },
            }),
    {
        match self.find_name(name) {
            Some(i) => {
                let digest = blake2_256(password);
                if digests_match(&digest, &self.identities[i].digest) {
                    Event::LoginSuccessful { name: copy_bytes(name), who: self.identities[i].account }
                } else {
                    Event::LoginFailed { name: copy_bytes(name) }
                }
            },
            None => Event::LoginFailed { name: copy_bytes(name) },
        }
    }

    /// The account that `name` is registered to.
    pub fn account_by_name(&self, name: &Vec<u8>) -> (r: Option<u64>)
        requires
            self.wf(),
        ensures
            r == account_of(self@, name@),
    {
        match self.find_name(name) {
            Some(i) => Some(self.identities[i].account),
            None => None,
        }
    }

    /// The name registered to `who`.
    pub fn name_by_account(&self, who: u64) -> (r: Option<Vec<u8>>)
        requires
            self.wf(),
        ensures
            match name_of(self@, who) {
                Some(n) => r matches Some(v) && v@ == n,
                None => r is None,
            },
    {
        let mut i: usize = 0;
        while i < self.identities.len()
            invariant
                self.wf(),
                0 <= i <= self.identities@.len(),
                forall|j: int| 0 <= j < i ==> self.identities@[j].account != who,
            decreases self.identities@.len() - i,
        {
            if self.identities[i].account == who {
                let ghost n = self.identities@[i as int].name@;
                proof {
                    assert(self@.contains_key(n));
                    assert(has_account(self@, who));
                    let c = choose|c: Seq<u8>| #[trigger] self@.contains_key(c) && self@[c].account == who;
                    assert(c == n);
                }
                return Some(copy_bytes(&self.identities[i].name));
            }
            i += 1;
        }
        assert forall|n: Seq<u8>| #[trigger] self@.contains_key(n) implies self@[n].account
            != who by {
            let j = choose|j: int| 0 <= j < self.identities@.len() && #[trigger] self.identities@[j].name@ == n;
            assert(self.identities@[j].name@ == n);
        }
        None
    }

    /// The next unused post id of `name`: zero where `name` is not registered.
    pub fn tweet_count(&self, name: &Vec<u8>) -> (r: u32)
        requires
            self.wf(),
        ensures
            r == allocator_of(self@, name@),
    {
        match self.find_name(name) {
            Some(i) => self.identities[i].posts.len() as u32,
            None => 0,
        }
    }
}

} // verus!

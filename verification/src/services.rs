//! The reference in-memory backend: a process-local mapping from email to
//! user record, proved to satisfy the [`UserStore`] contract.

use vstd::prelude::*;
use crate::domain::{AuthError, User, UserStore, UserView};

verus! {

/// The views of a run of records, in storage order.
pub open spec fn user_views(records: Seq<User>) -> Seq<UserView> {
    records.map_values(|u: User| u@)
}

/// No two records share an email: the store invariant.
pub open spec fn emails_unique(records: Seq<UserView>) -> bool {
    forall|i: int, j: int|
        0 <= i < j < records.len() ==> records[i].email != records[j].email
}

/// The mapping a run of records denotes, keyed by email. A later record
/// shadows an earlier one with the same email; under [`emails_unique`] no
/// shadowing ever happens.
pub open spec fn users_map(records: Seq<UserView>) -> Map<Seq<char>, UserView>
    decreases records.len(),
{
    if records.len() == 0 {
        Map::empty()
    } else {
        users_map(records.drop_last()).insert(records.last().email, records.last())
    }
}

/// An email is in the mapping exactly when some record carries it.
pub proof fn lemma_users_map_contains(records: Seq<UserView>, email: Seq<char>)
    ensures
        users_map(records).dom().contains(email) <==> (exists|i: int|
            0 <= i < records.len() && records[i].email == email),
    decreases records.len(),
{
    if records.len() > 0 {
        let prefix = records.drop_last();
        lemma_users_map_contains(prefix, email);
        assert(forall|i: int| 0 <= i < prefix.len() ==> prefix[i] == records[i]);
        if users_map(records).dom().contains(email) {
            if records.last().email != email {
                let i = choose|i: int| 0 <= i < prefix.len() && prefix[i].email == email;
                assert(records[i].email == email);
            } else {
                assert(records[records.len() - 1].email == email);
            }
        }
        if exists|i: int| 0 <= i < records.len() && records[i].email == email {
            let i = choose|i: int| 0 <= i < records.len() && records[i].email == email;
            if i < records.len() - 1 {
                assert(prefix[i].email == email);
            }
        }
    }
}

/// Under the store invariant, each record is the one the mapping yields for
/// its email.
pub proof fn lemma_users_map_index(records: Seq<UserView>, i: int)
    requires
        emails_unique(records),
        0 <= i < records.len(),
    ensures
        users_map(records).dom().contains(records[i].email),
        users_map(records)[records[i].email] == records[i],
    decreases records.len(),
{
    let prefix = records.drop_last();
    assert(forall|k: int| 0 <= k < prefix.len() ==> prefix[k] == records[k]);
    if i < records.len() - 1 {
        lemma_users_map_index(prefix, i);
        assert(records.last().email != records[i].email);
    }
}

/// A concurrency-safe, process-local credential backend: the reference
/// implementation of [`UserStore`]. It owns its records exclusively — a
/// caller that shares one instance across tasks wraps it in a reader/writer
/// lock, so additions are serialized and a reader never observes a partially
/// inserted record.
pub struct HashmapUserStore {
    users: Vec<User>,
}

impl HashmapUserStore {
    /// The store invariant: at most one record per email.
    pub closed spec fn inv(&self) -> bool {
        emails_unique(user_views(self.users@))
    }

    /// The records held, keyed by email.
    pub closed spec fn contents(&self) -> Map<Seq<char>, UserView> {
        users_map(user_views(self.users@))
    }

    /// The position of the record carrying `email`, if any record does.
    fn find_index(&self, email: &String) -> (found: Option<usize>)
        ensures
            match found {
                Some(i) => i < self.users@.len() && user_views(self.users@)[i as int].email
                    == email@,
                None => forall|i: int|
                    0 <= i < self.users@.len() ==> user_views(self.users@)[i].email != email@,
            },
    {
        let mut idx: usize = 0;
        while idx < self.users.len()
            invariant
                idx <= self.users@.len(),
                forall|i: int| 0 <= i < idx ==> user_views(self.users@)[i].email != email@,
            decreases self.users@.len() - idx,
        {
            if self.users[idx].email == *email {
                return Some(idx);
            }
            idx += 1;
        }
        None
    }
}

impl Default for HashmapUserStore {
    /// An empty store.
    fn default() -> (store: HashmapUserStore)
        ensures
            store.wf(),
            store.users() == Map::<Seq<char>, UserView>::empty(),
    {
        let store = HashmapUserStore { users: Vec::new() };
        proof {
            assert(user_views(store.users@) =~= Seq::<UserView>::empty());
        }
        store
    }
}

impl UserStore for HashmapUserStore {
    open spec fn wf(&self) -> bool {
        self.inv()
    }

    open spec fn users(&self) -> Map<Seq<char>, UserView> {
        self.contents()
    }

    fn add_user(&mut self, user: User) -> (result: Result<(), AuthError>) {
        match self.find_index(&user.email) {
            Some(_) => {
                proof {
                    lemma_users_map_contains(user_views(self.users@), user@.email);
                }
                Err(AuthError::UserAlreadyExists)
            },
            None => {
                proof {
                    lemma_users_map_contains(user_views(self.users@), user@.email);
                }
                let ghost old_views = user_views(self.users@);
                self.users.push(user);
                proof {
                    let views = user_views(self.users@);
                    assert(views =~= old_views.push(user@));
                    assert(views.drop_last() =~= old_views);
                    assert(emails_unique(views)) by {
                        assert(forall|i: int|
                            0 <= i < old_views.len() ==> views[i] == old_views[i]);
                        assert(views[views.len() - 1].email == user@.email);
                    }
                }
                Ok(())
            },
        }
    }

    fn get_user(&self, email: &str) -> (result: Result<&User, AuthError>) {
        let key: String = email.to_owned();
        match self.find_index(&key) {
            Some(i) => {
                proof {
                    lemma_users_map_index(user_views(self.users@), i as int);
                }
                Ok(&self.users[i])
            },
            None => {
                proof {
                    lemma_users_map_contains(user_views(self.users@), email@);
                }
                Err(AuthError::UserNotFound)
            },
        }
    }

    fn validate_user(&self, email: &str, password: &str) -> (result: Result<(), AuthError>) {
        match self.get_user(email) {
            Ok(user) => {
                let attempt: String = password.to_owned();
                if user.password == attempt {
                    Ok(())
                } else {
                    Err(AuthError::InvalidCredentials)
                }
            },
            Err(error) => Err(error),
        }
    }
}

} // verus!

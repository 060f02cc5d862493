//! The registry of users who have logged in.
//!
//! A login appends a user and nothing else ever changes the registry: users
//! are never altered or removed. The registry does not compare identifiers;
//! it relies on the generator for their being different.

use vstd::prelude::*;
use crate::ident::{is_identifier, new_id};
use crate::models::{User, UserView};

verus! {

/// The contents of user records, one for one.
pub open spec fn user_views(users: Seq<User>) -> Seq<UserView> {
    users.map_values(|u: User| u@)
}

/// The users who have logged in, in the order of their logins.
pub struct UserRegistry {
    users: Vec<User>,
}

impl View for UserRegistry {
    type V = Seq<UserView>;

    closed spec fn view(&self) -> Seq<UserView> {
        user_views(self.users@)
    }
}

impl UserRegistry {
    /// A registry without users.
    pub fn new() -> (registry: Self)
        ensures
            registry@ == Seq::<UserView>::empty(),
    {
        let registry = UserRegistry { users: Vec::new() };
        assert(registry@ =~= Seq::empty());
        registry
    }

    /// Registers a user called `name` under the identifier `id`, which the
    /// caller has drawn, and returns a copy of the record.
    pub fn login_with_id(&mut self, id: String, name: String) -> (user: User)
        ensures
            user@ == (UserView { id: id@, name: name@ }),
            final(self)@ == old(self)@.push(user@),
    {
        let ghost before = self.users@;
        let user = User { id, name };
        let copy = user.clone();
        self.users.push(user);
        assert(user_views(before.push(user)) =~= user_views(before).push(user@));
        copy
    }

    /// Registers a user called `name` under a new identifier and returns a
    /// copy of the record. Names need not be unique.
    pub fn login(&mut self, name: String) -> (user: User)
        ensures
            is_identifier(user@.id),
            user@.name == name@,
            final(self)@ == old(self)@.push(user@),
    {
        let id = new_id();
        self.login_with_id(id, name)
    }

    /// Copies of the registered users, in the order of their logins.
    pub fn active_users(&self) -> (users: Vec<User>)
        ensures
            user_views(users@) == self@,
    {
        let mut users: Vec<User> = Vec::new();
        let mut i: usize = 0;
        while i < self.users.len()
            invariant
                i <= self.users.len(),
                user_views(users@) == user_views(self.users@).take(i as int),
            decreases self.users.len() - i,
        {
            let ghost before = users@;
            let copy = self.users[i].clone();
            users.push(copy);
            assert(user_views(before.push(copy)) =~= user_views(before).push(copy@));
            assert(user_views(self.users@).take(i + 1) =~= user_views(self.users@).take(
                i as int,
            ).push(copy@));
            i += 1;
        }
        assert(user_views(self.users@).take(i as int) =~= user_views(self.users@));
        users
    }
}

} // verus!

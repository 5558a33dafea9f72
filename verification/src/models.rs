//! The rows of the demo data source: users, each with the friends it had
//! when the row was built.

use vstd::prelude::*;

verus! {

/// A user: an id, a display name, and a list of friends.
#[derive(Debug)]
pub struct User {
    pub id: i32,
    pub name: String,
    pub friends: Vec<User>,
}

/// The mathematical value of a user, friends included.
#[verifier::ext_equal]
pub struct UserV {
    pub id: int,
    pub name: Seq<char>,
    pub friends: Seq<UserV>,
}

/// The value of a user.
pub open spec fn user_view(u: User) -> UserV
    decreases u, 0int,
{
    UserV { id: u.id as int, name: u.name@, friends: users_view(u.friends@) }
}

/// The values of a list of users.
pub open spec fn users_view(s: Seq<User>) -> Seq<UserV>
    decreases s, s.len(),
{
    if s.len() == 0 {
        Seq::empty()
    } else {
        seq![user_view(s[0])] + users_view(s.skip(1))
    }
}

/// The values of a list are its users' values, one for one.
pub proof fn lemma_users_view(s: Seq<User>)
    ensures
        users_view(s).len() == s.len(),
        forall|i: int| 0 <= i < s.len() ==> users_view(s)[i] == user_view(#[trigger] s[i]),
    decreases s.len(),
{
    if s.len() > 0 {
        lemma_users_view(s.skip(1));
        assert forall|i: int| 0 <= i < s.len() implies users_view(s)[i] == user_view(
            #[trigger] s[i],
        ) by {
            if i > 0 {
                assert(s.skip(1)[i - 1] == s[i]);
            }
        }
    }
}

impl Clone for User {
    /// A copy whose value is the same, friends included.
    #[verifier::loop_isolation(false)]
    fn clone(&self) -> (r: Self)
        ensures
            user_view(r) == user_view(*self),
        decreases *self,
    {
        let mut fr: Vec<User> = Vec::new();
        let mut i: usize = 0;
        while i < self.friends.len()
            invariant
                i <= self.friends@.len(),
                fr@.len() == i,
                forall|j: int| 0 <= j < i ==> user_view(fr@[j]) == user_view(
                    #[trigger] self.friends@[j],
                ),
            decreases self.friends@.len() - i,
        {
            fr.push(self.friends[i].clone());
            i = i + 1;
        }
        let r = User { id: self.id, name: self.name.clone(), friends: fr };
        proof {
            lemma_users_view(r.friends@);
            lemma_users_view(self.friends@);
            assert forall|j: int| 0 <= j < r.friends@.len() implies users_view(r.friends@)[j]
                == users_view(self.friends@)[j] by {
                assert(user_view(r.friends@[j]) == user_view(self.friends@[j]));
            }
            assert(user_view(r).friends =~= user_view(*self).friends);
            assert(user_view(r) =~= user_view(*self));
        }
        r
    }
}

impl User {
    /// The user's id.
    pub fn id(&self) -> (r: i32)
        ensures
            r == self.id,
    {
        self.id
    }

    /// The user's display name.
    pub fn name(&self) -> (r: String)
        ensures
            r@ == self.name@,
    {
        self.name.clone()
    }

    /// The user's friends, as they stood when the row was built.
    pub fn friends(&self) -> (r: Vec<User>)
        ensures
            users_view(r@) == user_view(*self).friends,
    {
        let r = self.friends.clone();
        proof {
            lemma_users_view(r@);
            lemma_users_view(self.friends@);
            assert forall|i: int| 0 <= i < r@.len() implies users_view(r@)[i] == users_view(
                self.friends@,
            )[i] by {
                assert(cloned::<User>(self.friends@[i], r@[i]));
            }
            assert(users_view(r@) =~= user_view(*self).friends);
        }
        r
    }
}

} // verus!

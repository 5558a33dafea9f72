//! The demo data source backing query resolution: a read-only table of
//! five users, each befriended with a random-length prefix of the table.

use vstd::prelude::*;

use crate::models::{lemma_users_view, user_view, users_view, User, UserV};

verus! {

/// How many users the table holds.
pub const USER_COUNT: usize = 5;

/// The read-only store of users.
#[derive(Debug)]
pub struct Database {
    users: Vec<User>,
}

/// The name of the user with this id.
pub open spec fn user_name(i: int) -> Seq<char> {
    if i == 0 {
        "user0"@
    } else if i == 1 {
        "user1"@
    } else if i == 2 {
        "user2"@
    } else if i == 3 {
        "user3"@
    } else {
        "user4"@
    }
}

/// A user of the base table: its id, its name, and no friends yet.
pub open spec fn base_user(i: int) -> UserV {
    UserV { id: i, name: user_name(i), friends: Seq::empty() }
}

/// A row as `new` builds it: position `i`'s id and name, and friends that
/// are a prefix of the base table.
pub open spec fn built_user(uv: UserV, i: int) -> bool {
    &&& uv.id == i
    &&& uv.name == user_name(i)
    &&& uv.friends.len() <= USER_COUNT
    &&& forall|j: int| 0 <= j < uv.friends.len() ==> #[trigger] uv.friends[j] == base_user(j)
}

/// The table is sound: the user at each position carries that position as
/// its id, and every friend's id names a user of the table.
pub open spec fn wf_db(users: Seq<UserV>) -> bool {
    &&& forall|i: int| 0 <= i < users.len() ==> (#[trigger] users[i]).id == i
    &&& forall|i: int, j: int|
        0 <= i < users.len() && 0 <= j < users[i].friends.len() ==> 0 <= (
        #[trigger] users[i].friends[j]).id < users.len()
}

/// The first position holding a user with this id, or -1.
pub open spec fn find_user(users: Seq<UserV>, id: int) -> int
    decreases users.len(),
{
    if users.len() == 0 {
        -1
    } else if users[0].id == id {
        0
    } else {
        let r = find_user(users.skip(1), id);
        if r == -1 {
            -1
        } else {
            r + 1
        }
    }
}

/// The user with this id, if the table holds one.
pub open spec fn spec_get_user(users: Seq<UserV>, id: int) -> Option<UserV> {
    if find_user(users, id) == -1 {
        Option::None
    } else {
        Option::Some(users[find_user(users, id)])
    }
}

/// `find_user` names the first occurrence, and -1 exactly when there is
/// none.
pub proof fn lemma_find_user(users: Seq<UserV>, id: int)
    ensures
        find_user(users, id) == -1 <==> (forall|k: int|
            0 <= k < users.len() ==> (#[trigger] users[k]).id != id),
        find_user(users, id) != -1 ==> 0 <= find_user(users, id) < users.len() && users[find_user(
            users,
            id,
        )].id == id && forall|k: int| 0 <= k < find_user(users, id) ==> (#[trigger] users[k]).id
            != id,
    decreases users.len(),
{
    if users.len() == 0 {
    } else if users[0].id == id {
    } else {
        lemma_find_user(users.skip(1), id);
        let r = find_user(users.skip(1), id);
        assert forall|k: int| 1 <= k < users.len() implies users.skip(1)[k - 1] == users[k] by {}
        if r != -1 {
            assert(users.skip(1)[r] == users[r + 1]);
        }
    }
}

/// Relies on rand::random_range over `0..5`: the value lies in the range;
/// the draw itself promises nothing more.
#[verifier::external_body]
fn random_below_five() -> (r: i32)
    ensures
        0 <= r < 5,
{
    rand::random_range(0..5)
}

fn make_name(i: usize) -> (r: String)
    requires
        i < 5,
    ensures
        r@ == user_name(i as int),
{
    if i == 0 {
        String::from_str("user0")
    } else if i == 1 {
        String::from_str("user1")
    } else if i == 2 {
        String::from_str("user2")
    } else if i == 3 {
        String::from_str("user3")
    } else {
        String::from_str("user4")
    }
}

/// A user of the base table.
fn make_base_user(i: usize) -> (r: User)
    requires
        i < 5,
    ensures
        user_view(r) == base_user(i as int),
{
    let r = User { id: i as i32, name: make_name(i), friends: Vec::new() };
    proof {
        assert(user_view(r).friends =~= base_user(i as int).friends);
        assert(user_view(r) =~= base_user(i as int));
    }
    r
}

impl View for Database {
    type V = Seq<UserV>;

    /// The table as the sequence of its users' values.
    closed spec fn view(&self) -> Seq<UserV> {
        users_view(self.users@)
    }
}

impl Database {
    #[verifier::type_invariant]
    spec fn inv(self) -> bool {
        wf_db(self@)
    }

    /// Builds the table: five users named after their ids, each holding as
    /// friends a prefix of the base table whose length the random draws
    /// decide — whatever the draws, ids are positions and every friend is a
    /// base user of the table.
    pub fn new() -> (r: Self)
        ensures
            r@.len() == USER_COUNT,
            forall|i: int| 0 <= i < USER_COUNT ==> built_user(#[trigger] r@[i], i),
    {
        let mut users: Vec<User> = Vec::new();
        let mut i: usize = 0;
        while i < USER_COUNT
            invariant
                i <= USER_COUNT,
                users@.len() == i,
                forall|k: int| 0 <= k < i ==> built_user(user_view(#[trigger] users@[k]), k),
            decreases USER_COUNT - i,
        {
            let mut friends: Vec<User> = Vec::new();
            let mut j: usize = 0;
            loop
                invariant
                    j <= USER_COUNT,
                    friends@.len() == j,
                    forall|q: int|
                        0 <= q < j ==> user_view(#[trigger] friends@[q]) == base_user(q),
                ensures
                    friends@.len() <= USER_COUNT,
                    forall|q: int|
                        0 <= q < friends@.len() ==> user_view(#[trigger] friends@[q]) == base_user(
                            q,
                        ),
                decreases USER_COUNT - j,
            {
                if j >= USER_COUNT {
                    break ;
                }
                let threshold = random_below_five();
                if (j as i32) < threshold {
                    friends.push(make_base_user(j));
                    j = j + 1;
                } else {
                    break ;
                }
            }
            let name = make_name(i);
            let u = User { id: i as i32, name, friends };
            proof {
                lemma_users_view(u.friends@);
                assert forall|j2: int| 0 <= j2 < user_view(u).friends.len() implies #[trigger]
                user_view(u).friends[j2] == base_user(j2) by {
                    assert(user_view(u).friends[j2] == user_view(u.friends@[j2]));
                }
                assert(built_user(user_view(u), i as int));
            }
            let ghost up = users@;
            users.push(u);
            proof {
                assert forall|k: int| 0 <= k < i + 1 implies built_user(
                    user_view(#[trigger] users@[k]),
                    k,
                ) by {
                    if k < i {
                        assert(users@[k] == up[k]);
                    } else {
                        assert(users@[k] == u);
                    }
                }
            }
            i = i + 1;
        }
        proof {
            lemma_users_view(users@);
            let uv = users_view(users@);
            assert forall|i2: int| 0 <= i2 < uv.len() implies built_user(#[trigger] uv[i2], i2) by {
                assert(uv[i2] == user_view(users@[i2]));
            }
            assert forall|i2: int, j: int|
                0 <= i2 < uv.len() && 0 <= j < uv[i2].friends.len() implies 0 <= (
            #[trigger] uv[i2].friends[j]).id < uv.len() by {
                assert(built_user(uv[i2], i2));
                assert(uv[i2].friends[j] == base_user(j));
            }
            assert(wf_db(uv));
        }
        let r = Database { users };
        r
    }

    /// The user with this id, or nothing when no user carries it.
    pub fn get_user(&self, id: i32) -> (r: Option<User>)
        ensures
            match r {
                Option::Some(u) => spec_get_user(self@, id as int) == Option::Some(user_view(u)),
                Option::None => spec_get_user(self@, id as int) is None,
            },
    {
        let mut k: usize = 0;
        proof {
            lemma_users_view(self.users@);
            lemma_find_user(self@, id as int);
        }
        while k < self.users.len()
            invariant
                k <= self.users@.len(),
                self@.len() == self.users@.len(),
                forall|q: int| 0 <= q < self@.len() ==> #[trigger] self@[q] == user_view(
                    self.users@[q],
                ),
                forall|q: int| 0 <= q < k ==> (#[trigger] self@[q]).id != id,
            decreases self.users@.len() - k,
        {
            if self.users[k].id == id {
                proof {
                    lemma_find_user(self@, id as int);
                    let f = find_user(self@, id as int);
                    assert(self@[k as int] == user_view(self.users@[k as int]));
                    assert(self@[k as int].id == id);
                    if f == -1 {
                        assert(false);
                    } else if f < k {
                        assert(self@[f].id != id);
                        assert(false);
                    } else if f > k {
                        assert(self@[k as int].id != id);
                        assert(false);
                    }
                }
                return Some(self.users[k].clone());
            }
            k = k + 1;
        }
        proof {
            lemma_find_user(self@, id as int);
        }
        None
    }

    /// Every user of the table, in order.
    pub fn get_all_users(&self) -> (r: Vec<User>)
        ensures
            users_view(r@) == self@,
    {
        let mut r: Vec<User> = Vec::new();
        let mut k: usize = 0;
        proof {
            lemma_users_view(self.users@);
        }
        while k < self.users.len()
            invariant
                k <= self.users@.len(),
                r@.len() == k,
                self@.len() == self.users@.len(),
                forall|q: int| 0 <= q < self@.len() ==> #[trigger] self@[q] == user_view(
                    self.users@[q],
                ),
                forall|q: int| 0 <= q < k ==> user_view(#[trigger] r@[q]) == self@[q],
            decreases self.users@.len() - k,
        {
            r.push(self.users[k].clone());
            k = k + 1;
        }
        proof {
            lemma_users_view(r@);
            assert forall|q: int| 0 <= q < r@.len() implies users_view(r@)[q] == self@[q] by {
                assert(users_view(r@)[q] == user_view(r@[q]));
            }
            assert(users_view(r@) =~= self@);
        }
        r
    }

    /// The friends of the user with this id, each resolved to its own row
    /// of the table; an unknown id has no friends.
    pub fn get_friends(&self, id: i32) -> (r: Vec<User>)
        ensures
            match spec_get_user(self@, id as int) {
                Option::None => r@.len() == 0,
                Option::Some(u) => users_view(r@).len() == u.friends.len() && forall|j: int|
                    0 <= j < u.friends.len() ==> users_view(r@)[j] == spec_get_user(
                        self@,
                        (#[trigger] u.friends[j]).id,
                    ).unwrap(),
            },
    {
        proof {
            use_type_invariant(self);
        }
        let found = self.get_user(id);
        let u = match found {
            Option::Some(u) => u,
            Option::None => {
                let r: Vec<User> = Vec::new();
                return r;
            },
        };
        let ghost uv = user_view(u);
        let mut r: Vec<User> = Vec::new();
        let mut j: usize = 0;
        proof {
            lemma_users_view(u.friends@);
            lemma_find_user(self@, id as int);
        }
        while j < u.friends.len()
            invariant
                j <= u.friends@.len(),
                r@.len() == j,
                wf_db(self@),
                uv == user_view(u),
                spec_get_user(self@, id as int) == Option::Some(uv),
                uv.friends.len() == u.friends@.len(),
                forall|q: int| 0 <= q < u.friends@.len() ==> #[trigger] uv.friends[q] == user_view(
                    u.friends@[q],
                ),
                forall|q: int| 0 <= q < j ==> user_view(#[trigger] r@[q]) == spec_get_user(
                    self@,
                    uv.friends[q].id,
                ).unwrap(),
            decreases u.friends@.len() - j,
        {
            let fid = u.friends[j].id;
            proof {
                let k = find_user(self@, id as int);
                lemma_find_user(self@, id as int);
                assert(0 <= k < self@.len());
                assert(uv == self@[k]);
                assert(uv.friends[j as int].id == fid);
                assert(0 <= fid < self@.len());
            }
            match self.get_user(fid) {
                Option::Some(f) => {
                    r.push(f);
                },
                Option::None => {
                    proof {
                        lemma_find_user(self@, fid as int);
                        assert(self@[fid as int].id == fid);
                        assert(false);
                    }
                },
            }
            j = j + 1;
        }
        proof {
            lemma_users_view(r@);
            assert forall|q: int| 0 <= q < uv.friends.len() implies users_view(r@)[q]
                == spec_get_user(self@, (#[trigger] uv.friends[q]).id).unwrap() by {
                assert(users_view(r@)[q] == user_view(r@[q]));
            }
        }
        r
    }
}

} // verus!

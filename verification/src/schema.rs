//! The resolvers of the request/response surface and of the subscription
//! surface. The query resolvers answer at once from the data source. The
//! subscription resolver is a stream: here stands its per-tick step, the
//! decision of what the stream yields next; the runtime around the library
//! drives the ticks and carries the items away.

use vstd::prelude::*;

use crate::context::GraphqlContext;
use crate::database::{spec_get_user, Database};
use crate::models::{user_view, users_view, User, UserV};

verus! {

/// The request/response resolvers.
#[derive(Debug)]
pub struct Query;

/// The subscription resolvers.
#[derive(Debug)]
pub struct Subscription;

/// The schema root: one of each resolver set.
#[derive(Debug)]
pub struct GraphqlRoot {
    pub query: Query,
    pub subscription: Subscription,
}

/// The schema root.
pub fn init() -> GraphqlRoot {
    GraphqlRoot { query: Query, subscription: Subscription }
}

impl Query {
    /// Every user of the data source.
    pub fn users(ctx: &GraphqlContext) -> (r: Vec<User>)
        ensures
            users_view(r@) == ctx@,
    {
        let db = ctx.database();
        db.get_all_users()
    }

    /// The friends of the user with this id, each resolved to its own row.
    pub fn friends(ctx: &GraphqlContext, id: i32) -> (r: Vec<User>)
        ensures
            match spec_get_user(ctx@, id as int) {
                Option::None => r@.len() == 0,
                Option::Some(u) => users_view(r@).len() == u.friends.len() && forall|j: int|
                    0 <= j < u.friends.len() ==> users_view(r@)[j] == spec_get_user(
                        ctx@,
                        (#[trigger] u.friends[j]).id,
                    ).unwrap(),
            },
    {
        let db = ctx.database();
        db.get_friends(id)
    }
}

/// What the `users` subscription stream yields at one tick.
pub enum SubscriptionItem {
    /// The next user.
    Next(User),
    /// The counter ran past the table: the stream yields an error item.
    /// An error item does not terminate the stream.
    Fault(FieldError),
    /// The close signal was up: the stream ends.
    Ended,
}

/// The error value a subscription stream yields when a tick resolves no
/// user.
#[derive(Debug)]
pub struct FieldError {
    pub message: Vec<u8>,
}

/// The message of the error item.
pub open spec fn field_error_msg() -> Seq<u8> {
    seq![
        115u8, 111, 109, 101, 32, 102, 105, 101, 108, 100, 32, 101, 114, 114, 111, 114, 32, 102,
        114, 111, 109, 32, 104, 97, 110, 100, 108, 101, 114,
    ]
}

fn field_error_vec() -> (r: Vec<u8>)
    ensures
        r@ == field_error_msg(),
{
    let mut out: Vec<u8> = Vec::new();
    out.push(115);
    out.push(111);
    out.push(109);
    out.push(101);
    out.push(32);
    out.push(102);
    out.push(105);
    out.push(101);
    out.push(108);
    out.push(100);
    out.push(32);
    out.push(101);
    out.push(114);
    out.push(114);
    out.push(111);
    out.push(114);
    out.push(32);
    out.push(102);
    out.push(114);
    out.push(111);
    out.push(109);
    out.push(32);
    out.push(104);
    out.push(97);
    out.push(110);
    out.push(100);
    out.push(108);
    out.push(101);
    out.push(114);
    assert(out@ =~= field_error_msg());
    out
}

impl Subscription {
    /// One tick of the `users` subscription stream: while the close signal
    /// is down, the stream resolves the user whose id is the tick counter —
    /// an id past the table yields an error item, not the end of the stream;
    /// once the close signal is up the stream ends. The runtime calls this
    /// on every timer tick with the counter it advances on success.
    pub fn users_tick(db: &Database, counter: i32, closed: bool) -> (r: SubscriptionItem)
        ensures
            closed ==> r is Ended,
            !closed ==> match spec_get_user(db@, counter as int) {
                Option::Some(u) => r matches SubscriptionItem::Next(got) && user_view(got) == u,
                Option::None => r matches SubscriptionItem::Fault(e) && e.message@
                    == field_error_msg(),
            },
    {
        if closed {
            return SubscriptionItem::Ended;
        }
        match db.get_user(counter) {
            Option::Some(u) => SubscriptionItem::Next(u),
            Option::None => SubscriptionItem::Fault(FieldError { message: field_error_vec() }),
        }
    }

    /// The tick counter after one tick: the stream moves to the next id
    /// exactly when the tick resolved a user; a fault or the end leaves the
    /// counter where it was.
    pub fn next_counter(item: &SubscriptionItem, counter: i32) -> (r: i32)
        requires
            counter < i32::MAX,
        ensures
            r == (if item is Next {
                counter + 1
            } else {
                counter as int
            }),
    {
        match item {
            SubscriptionItem::Next(_) => counter + 1,
            SubscriptionItem::Fault(_) => counter,
            SubscriptionItem::Ended => counter,
        }
    }
}

} // verus!

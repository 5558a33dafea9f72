//! The per-request context handed to resolvers: a shared handle on the data
//! source, and the shared close signal through which a session tells its
//! running subscription streams that the connection is gone.

use std::sync::atomic::{AtomicBool, Ordering};
use std::sync::Arc;
use vstd::prelude::*;

use crate::database::Database;
use crate::models::UserV;

verus! {

/// What resolvers see: the data source and the close signal.
#[derive(Debug)]
pub struct GraphqlContext {
    database: Arc<Database>,
    received_ws_close_signal: Arc<AtomicBool>,
}

impl Clone for GraphqlContext {
    /// A clone shares this context's data source and its one close flag:
    /// a close signal raised through any clone is seen through all.
    fn clone(&self) -> (r: Self)
        ensures
            r@ == self@,
            r.close_flag() == self.close_flag(),
    {
        GraphqlContext {
            database: clone_arc_database(&self.database),
            received_ws_close_signal: clone_arc_flag(&self.received_ws_close_signal),
        }
    }
}

/// Relies on Arc::clone: the clone is a handle on the same value.
#[verifier::external_body]
fn clone_arc_database(a: &Arc<Database>) -> (r: Arc<Database>)
    ensures
        r == *a,
{
    a.clone()
}

/// Relies on Arc::clone: the clone is a handle on the same flag.
#[verifier::external_body]
fn clone_arc_flag(a: &Arc<AtomicBool>) -> (r: Arc<AtomicBool>)
    ensures
        r == *a,
{
    a.clone()
}

impl View for GraphqlContext {
    type V = Seq<UserV>;

    /// A context is observed through its data source's table.
    closed spec fn view(&self) -> Seq<UserV> {
        self.database@
    }
}

impl GraphqlContext {
    /// The shared close signal this context carries.
    pub closed spec fn close_flag(&self) -> Arc<AtomicBool> {
        self.received_ws_close_signal
    }

    /// A context over this data source, with a fresh, unset close signal.
    pub fn init(database: Arc<Database>) -> (r: Self)
        ensures
            r@ == database@,
    {
        Self { database, received_ws_close_signal: Arc::new(AtomicBool::new(false)) }
    }

    /// A handle on the data source.
    pub fn database(&self) -> (r: Arc<Database>)
        ensures
            r@ == self@,
    {
        clone_arc_database(&self.database)
    }

    /// A handle on the shared close signal, for a stream that must stop
    /// producing once the connection is gone.
    pub fn received_ws_close_signal(&self) -> (r: Arc<AtomicBool>)
        ensures
            r == self.close_flag(),
    {
        clone_arc_flag(&self.received_ws_close_signal)
    }

    /// Raises the close signal; every holder of the handle sees it.
    pub fn send_ws_close_signal(&self) {
        self.received_ws_close_signal.store(true, Ordering::Relaxed);
    }
}

} // verus!

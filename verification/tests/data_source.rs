use std::sync::atomic::Ordering;
use std::sync::Arc;

use graphql_ws::context::GraphqlContext;
use graphql_ws::database::Database;
use graphql_ws::envelope::{Envelope, MsgType};
use graphql_ws::schema::{init, Query, Subscription, SubscriptionItem};
use graphql_ws::server::{Connect, Disconnect, WebSocketServer};
use graphql_ws::session::{WsError, WsGraphql};

#[test]
fn database_holds_five_users_named_after_their_ids() {
    let db = Database::new();
    let users = db.get_all_users();
    assert_eq!(users.len(), 5);
    for (i, u) in users.iter().enumerate() {
        assert_eq!(u.id() as usize, i);
        assert_eq!(u.name(), format!("user{}", i));
        // Friends are a prefix of the base table.
        for (j, f) in u.friends().iter().enumerate() {
            assert_eq!(f.id() as usize, j);
            assert_eq!(f.name(), format!("user{}", j));
            assert!(f.friends().is_empty());
        }
    }
}

#[test]
fn get_user_finds_known_ids_and_nothing_else() {
    let db = Database::new();
    for i in 0..5 {
        let u = db.get_user(i).expect("known id");
        assert_eq!(u.id(), i);
    }
    assert!(db.get_user(5).is_none());
    assert!(db.get_user(-1).is_none());
}

#[test]
fn get_friends_resolves_each_friend_to_its_own_row() {
    let db = Database::new();
    for i in 0..5 {
        let direct = db.get_user(i).expect("known id");
        let resolved = db.get_friends(i);
        assert_eq!(resolved.len(), direct.friends().len());
        for (f, r) in direct.friends().iter().zip(resolved.iter()) {
            assert_eq!(f.id(), r.id());
            assert_eq!(db.get_user(f.id()).unwrap().name(), r.name());
        }
    }
    assert!(db.get_friends(99).is_empty());
}

#[test]
fn query_resolvers_answer_from_the_context() {
    let ctx = GraphqlContext::init(Arc::new(Database::new()));
    let users = Query::users(&ctx);
    assert_eq!(users.len(), 5);
    let friends = Query::friends(&ctx, 0);
    assert_eq!(friends.len(), users[0].friends().len());
    let _root = init();
}

#[test]
fn close_signal_is_shared_and_sticky() {
    let ctx = GraphqlContext::init(Arc::new(Database::new()));
    let flag = ctx.received_ws_close_signal();
    assert!(!flag.load(Ordering::Relaxed));
    let ctx2 = ctx.clone();
    ctx2.send_ws_close_signal();
    assert!(flag.load(Ordering::Relaxed));
}

#[test]
fn subscription_tick_yields_users_then_faults_then_ends() {
    let db = Database::new();
    match Subscription::users_tick(&db, 0, false) {
        SubscriptionItem::Next(u) => assert_eq!(u.id(), 0),
        _ => panic!("expected the first user"),
    }
    match Subscription::users_tick(&db, 4, false) {
        SubscriptionItem::Next(u) => assert_eq!(u.id(), 4),
        _ => panic!("expected the last user"),
    }
    match Subscription::users_tick(&db, 5, false) {
        SubscriptionItem::Fault(e) => {
            assert_eq!(e.message, b"some field error from handler".to_vec())
        }
        _ => panic!("an exhausted counter yields an error item"),
    }
    assert!(matches!(Subscription::users_tick(&db, 0, true), SubscriptionItem::Ended));
}

#[test]
fn counter_advances_exactly_on_a_resolved_user() {
    let db = Database::new();
    let next = Subscription::users_tick(&db, 3, false);
    assert_eq!(Subscription::next_counter(&next, 3), 4);
    let fault = Subscription::users_tick(&db, 9, false);
    assert_eq!(Subscription::next_counter(&fault, 9), 9);
    let ended = Subscription::users_tick(&db, 2, true);
    assert_eq!(Subscription::next_counter(&ended, 2), 2);
}

#[test]
fn registry_connects_with_fresh_ids_and_disconnects_idempotently() {
    let mut reg: WebSocketServer<&'static str> = WebSocketServer::default();
    assert_eq!(reg.len(), 0);
    let a = reg.handle_connect(Connect { addr: "alpha" }).expect("an id");
    let b = reg.handle_connect(Connect { addr: "beta" }).expect("an id");
    assert_ne!(a, b);
    assert_eq!(reg.len(), 2);
    assert!(reg.contains(a));
    reg.handle_disconnect(Disconnect { id: a });
    assert!(!reg.contains(a));
    assert_eq!(reg.len(), 1);
    // Removing an absent id is a no-op, not an error.
    reg.handle_disconnect(Disconnect { id: a });
    assert_eq!(reg.len(), 1);
    assert!(reg.contains(b));
}

#[test]
fn outbound_wrappers_build_tagged_envelopes() {
    let d = WsGraphql::from_value(Some(b"7".to_vec()), b"{\"id\":1}".to_vec());
    assert_eq!(d.0.msg_type, MsgType::Data);
    assert_eq!(d.0.operation_id, Some(b"7".to_vec()));
    let e = WsError::from_value(Some(b"7".to_vec()), b"{\"bad\":true}".to_vec());
    assert_eq!(e.0.msg_type, MsgType::Error);
    let e = WsError::from_str(None, &b"went wrong".to_vec());
    assert_eq!(e.0.operation_id, None);
    assert_eq!(e.0.payload, Some(b"\"went wrong\"".to_vec()));
    let env: Envelope = e.into();
    assert_eq!(env.msg_type, MsgType::Error);
    let env: Envelope = d.into();
    assert_eq!(env.msg_type, MsgType::Data);
}

use chat_server::db::{Room, Store, User};
use chat_server::rooms::{
    ban_user, close_room, create_room, join_room, leave_room, list_rooms, send_message, teardown,
    RoomError,
};

fn none() -> Vec<String> {
    Vec::new()
}

#[test]
fn create_room_says_why_it_refuses() {
    let mut db = Store::new();
    let a = User::create(&mut db, "alice").unwrap();
    assert_eq!(create_room(&mut db, "geral", false, "", a), Ok(()));
    assert_eq!(create_room(&mut db, "geral", false, "", a), Err(RoomError::AlreadyExists));
    assert_eq!(create_room(&mut db, "geral", true, "", a), Err(RoomError::AlreadyExists));
    assert_eq!(create_room(&mut db, "cofre", true, "", a), Err(RoomError::PasswordRequired));
    assert_eq!(create_room(&mut db, "vazia", false, "", 99), Err(RoomError::CreateFailed));
    assert_eq!(create_room(&mut db, "cofre", true, "segredo", a), Ok(()));
    assert_eq!(list_rooms(&db), vec!["geral"]);
}

#[test]
fn private_room_with_empty_password_is_always_rejected() {
    let mut db = Store::new();
    let a = User::create(&mut db, "alice").unwrap();
    let b = User::create(&mut db, "bob").unwrap();
    for owner in [a, b, 0, 99] {
        for name in ["cofre", "geral", ""] {
            assert!(create_room(&mut db, name, true, "", owner).is_err());
            assert!(Room::get(&db, name).is_none());
        }
    }
}

#[test]
fn join_lists_every_member_and_tells_the_others() {
    let mut db = Store::new();
    let a = User::create(&mut db, "alice").unwrap();
    let b = User::create(&mut db, "bob").unwrap();
    let c = User::create(&mut db, "carol").unwrap();
    create_room(&mut db, "geral", false, "", a).unwrap();
    assert_eq!(join_room(&mut db, "geral", "", b), Ok(vec!["alice".to_string(), "bob".to_string()]));
    assert_eq!(User::drain_msgs(&mut db, a), vec!["ENTROU geral bob\n"]);
    assert_eq!(User::drain_msgs(&mut db, b), none());
    assert_eq!(
        join_room(&mut db, "geral", "", c),
        Ok(vec!["alice".to_string(), "bob".to_string(), "carol".to_string()])
    );
    assert_eq!(User::drain_msgs(&mut db, a), vec!["ENTROU geral carol\n"]);
    assert_eq!(User::drain_msgs(&mut db, b), vec!["ENTROU geral carol\n"]);
    assert_eq!(User::drain_msgs(&mut db, c), none());
}

#[test]
fn join_says_why_it_refuses() {
    let mut db = Store::new();
    let a = User::create(&mut db, "alice").unwrap();
    let b = User::create(&mut db, "bob").unwrap();
    create_room(&mut db, "cofre", true, "segredo", a).unwrap();
    assert_eq!(join_room(&mut db, "outra", "", b), Err(RoomError::NotFound));
    assert_eq!(join_room(&mut db, "cofre", "", b), Err(RoomError::WrongPassword));
    assert_eq!(join_room(&mut db, "cofre", "errada", b), Err(RoomError::WrongPassword));
    assert_eq!(join_room(&mut db, "cofre", "segredo", a), Err(RoomError::AlreadyMember));
    assert_eq!(join_room(&mut db, "cofre", "segredo", 99), Err(RoomError::UserNotFound));
    assert!(join_room(&mut db, "cofre", "segredo", b).is_ok());
    assert_eq!(join_room(&mut db, "cofre", "segredo", b), Err(RoomError::AlreadyMember));
    // nothing but the one notice was sent
    assert_eq!(User::drain_msgs(&mut db, a), vec!["ENTROU cofre bob\n"]);
    assert_eq!(User::drain_msgs(&mut db, b), none());
}

#[test]
fn leave_takes_the_member_off_and_tells_the_rest() {
    let mut db = Store::new();
    let a = User::create(&mut db, "alice").unwrap();
    let b = User::create(&mut db, "bob").unwrap();
    let c = User::create(&mut db, "carol").unwrap();
    create_room(&mut db, "geral", false, "", a).unwrap();
    join_room(&mut db, "geral", "", b).unwrap();
    join_room(&mut db, "geral", "", c).unwrap();
    User::drain_msgs(&mut db, a);
    User::drain_msgs(&mut db, b);
    assert_eq!(leave_room(&mut db, "geral", b), Ok(()));
    assert_eq!(User::drain_msgs(&mut db, a), vec!["SAIU bob\n"]);
    assert_eq!(User::drain_msgs(&mut db, c), vec!["SAIU bob\n"]);
    assert_eq!(User::drain_msgs(&mut db, b), none());
    assert_eq!(Room::get(&db, "geral").unwrap().get_users(&db), vec!["alice", "carol"]);
}

#[test]
fn leave_says_why_it_refuses() {
    let mut db = Store::new();
    let a = User::create(&mut db, "alice").unwrap();
    let b = User::create(&mut db, "bob").unwrap();
    create_room(&mut db, "geral", false, "", a).unwrap();
    assert_eq!(leave_room(&mut db, "outra", b), Err(RoomError::NotFound));
    assert_eq!(leave_room(&mut db, "geral", b), Err(RoomError::NotMember));
    assert_eq!(leave_room(&mut db, "geral", 99), Err(RoomError::NotMember));
    assert_eq!(leave_room(&mut db, "geral", a), Err(RoomError::AdminMustClose));
    assert!(Room::get(&db, "geral").unwrap().is_member(&db, a));
    assert_eq!(User::drain_msgs(&mut db, a), none());
}

#[test]
fn close_tells_the_members_and_removes_the_room() {
    let mut db = Store::new();
    let a = User::create(&mut db, "alice").unwrap();
    let b = User::create(&mut db, "bob").unwrap();
    create_room(&mut db, "geral", false, "", a).unwrap();
    join_room(&mut db, "geral", "", b).unwrap();
    User::drain_msgs(&mut db, a);
    assert_eq!(close_room(&mut db, "outra", a), Err(RoomError::NotFound));
    assert_eq!(close_room(&mut db, "geral", b), Err(RoomError::NotAdmin));
    assert_eq!(close_room(&mut db, "geral", a), Ok(()));
    assert_eq!(User::drain_msgs(&mut db, b), vec!["SALA_FECHADA geral\n"]);
    assert_eq!(User::drain_msgs(&mut db, a), none());
    assert!(Room::get(&db, "geral").is_none());
    assert_eq!(close_room(&mut db, "geral", a), Err(RoomError::NotFound));
    assert_eq!(list_rooms(&db), none());
}

#[test]
fn message_goes_to_the_others_in_the_room() {
    let mut db = Store::new();
    let a = User::create(&mut db, "alice").unwrap();
    let b = User::create(&mut db, "bob").unwrap();
    let c = User::create(&mut db, "carol").unwrap();
    create_room(&mut db, "geral", false, "", a).unwrap();
    join_room(&mut db, "geral", "", b).unwrap();
    User::drain_msgs(&mut db, a);
    assert_eq!(send_message(&mut db, "geral", b, "ola"), Ok(()));
    assert_eq!(send_message(&mut db, "geral", a, "oi"), Ok(()));
    assert_eq!(User::drain_msgs(&mut db, a), vec!["MENSAGEM geral bob ola\n"]);
    assert_eq!(User::drain_msgs(&mut db, b), vec!["MENSAGEM geral alice oi\n"]);
    // one who is not in the room is told that there is no such room
    assert_eq!(send_message(&mut db, "geral", c, "ola"), Err(RoomError::NotFound));
    assert_eq!(send_message(&mut db, "outra", a, "ola"), Err(RoomError::NotFound));
    assert_eq!(User::drain_msgs(&mut db, a), none());
    assert_eq!(User::drain_msgs(&mut db, b), none());
}

#[test]
fn two_messages_arrive_in_the_order_sent() {
    let mut db = Store::new();
    let a = User::create(&mut db, "alice").unwrap();
    let b = User::create(&mut db, "bob").unwrap();
    let c = User::create(&mut db, "carol").unwrap();
    create_room(&mut db, "geral", false, "", a).unwrap();
    join_room(&mut db, "geral", "", b).unwrap();
    join_room(&mut db, "geral", "", c).unwrap();
    User::drain_msgs(&mut db, a);
    User::drain_msgs(&mut db, b);
    send_message(&mut db, "geral", a, "um").unwrap();
    send_message(&mut db, "geral", a, "dois").unwrap();
    let expected = vec!["MENSAGEM geral alice um\n", "MENSAGEM geral alice dois\n"];
    assert_eq!(User::drain_msgs(&mut db, b), expected);
    assert_eq!(User::drain_msgs(&mut db, c), expected);
}

#[test]
fn ban_puts_a_member_out_with_one_notice() {
    let mut db = Store::new();
    let a = User::create(&mut db, "alice").unwrap();
    let b = User::create(&mut db, "bob").unwrap();
    let c = User::create(&mut db, "carol").unwrap();
    create_room(&mut db, "geral", false, "", a).unwrap();
    join_room(&mut db, "geral", "", b).unwrap();
    join_room(&mut db, "geral", "", c).unwrap();
    User::drain_msgs(&mut db, a);
    User::drain_msgs(&mut db, b);
    User::drain_msgs(&mut db, c);
    assert_eq!(ban_user(&mut db, "geral", a, "bob"), Ok(()));
    assert_eq!(User::drain_msgs(&mut db, c), vec!["SAIU geral bob\n"]);
    assert_eq!(User::drain_msgs(&mut db, b), vec!["BANIDO_DA_SALA geral\n"]);
    assert_eq!(User::drain_msgs(&mut db, a), none());
    let room = Room::get(&db, "geral").unwrap();
    assert!(!room.is_member(&db, b));
    assert!(room.is_banned(&db, b));
    assert_eq!(join_room(&mut db, "geral", "", b), Err(RoomError::Banned));
    // a second ban is acknowledged and tells nobody anything
    assert_eq!(ban_user(&mut db, "geral", a, "bob"), Ok(()));
    assert_eq!(User::drain_msgs(&mut db, a), none());
    assert_eq!(User::drain_msgs(&mut db, b), none());
    assert_eq!(User::drain_msgs(&mut db, c), none());
}

#[test]
fn ban_of_one_who_is_not_in_the_room() {
    let mut db = Store::new();
    let a = User::create(&mut db, "alice").unwrap();
    let b = User::create(&mut db, "bob").unwrap();
    let c = User::create(&mut db, "carol").unwrap();
    create_room(&mut db, "geral", false, "", a).unwrap();
    join_room(&mut db, "geral", "", c).unwrap();
    User::drain_msgs(&mut db, a);
    assert_eq!(ban_user(&mut db, "geral", a, "bob"), Ok(()));
    assert_eq!(User::drain_msgs(&mut db, a), none());
    assert_eq!(User::drain_msgs(&mut db, c), none());
    assert_eq!(User::drain_msgs(&mut db, b), vec!["BANIDO_DA_SALA geral\n"]);
    assert_eq!(join_room(&mut db, "geral", "", b), Err(RoomError::Banned));
}

#[test]
fn ban_says_why_it_refuses() {
    let mut db = Store::new();
    let a = User::create(&mut db, "alice").unwrap();
    let b = User::create(&mut db, "bob").unwrap();
    create_room(&mut db, "geral", false, "", a).unwrap();
    assert_eq!(ban_user(&mut db, "outra", a, "bob"), Err(RoomError::NotFound));
    assert_eq!(ban_user(&mut db, "geral", b, "alice"), Err(RoomError::NotAdmin));
    assert_eq!(ban_user(&mut db, "geral", a, "carol"), Err(RoomError::UserNotFound));
    assert_eq!(ban_user(&mut db, "geral", a, "alice"), Err(RoomError::SelfBan));
    assert!(!Room::get(&db, "geral").unwrap().is_banned(&db, b));
    assert_eq!(User::drain_msgs(&mut db, a), none());
    assert_eq!(User::drain_msgs(&mut db, b), none());
}

#[test]
fn ban_outlasts_the_session_of_the_banned() {
    let mut db = Store::new();
    let a = User::create(&mut db, "alice").unwrap();
    let b = User::create(&mut db, "bob").unwrap();
    create_room(&mut db, "geral", false, "", a).unwrap();
    join_room(&mut db, "geral", "", b).unwrap();
    ban_user(&mut db, "geral", a, "bob").unwrap();
    teardown(&mut db, b);
    assert!(User::get(&db, b).is_none());
    let again = User::create(&mut db, "bob").unwrap();
    assert_ne!(again, b);
    assert_eq!(join_room(&mut db, "geral", "", again), Err(RoomError::Banned));
    assert!(Room::get(&db, "geral").unwrap().is_banned(&db, again));
    // someone else of another name may join
    let c = User::create(&mut db, "carol").unwrap();
    assert!(join_room(&mut db, "geral", "", c).is_ok());
}

#[test]
fn teardown_tells_the_rooms_and_closes_those_of_the_user() {
    let mut db = Store::new();
    let a = User::create(&mut db, "alice").unwrap();
    let b = User::create(&mut db, "bob").unwrap();
    let c = User::create(&mut db, "carol").unwrap();
    create_room(&mut db, "de_alice", false, "", a).unwrap();
    create_room(&mut db, "de_bob", false, "", b).unwrap();
    join_room(&mut db, "de_alice", "", b).unwrap();
    join_room(&mut db, "de_alice", "", c).unwrap();
    join_room(&mut db, "de_bob", "", c).unwrap();
    User::drain_msgs(&mut db, a);
    User::drain_msgs(&mut db, b);
    User::drain_msgs(&mut db, c);
    teardown(&mut db, b);
    assert_eq!(User::drain_msgs(&mut db, a), vec!["SAIU de_alice bob\n"]);
    assert_eq!(
        User::drain_msgs(&mut db, c),
        vec!["SAIU de_alice bob\n", "SALA_FECHADA de_bob\n"]
    );
    assert!(User::get(&db, b).is_none());
    assert!(Room::get(&db, "de_bob").is_none());
    assert_eq!(Room::get(&db, "de_alice").unwrap().get_users(&db), vec!["alice", "carol"]);
    assert_eq!(list_rooms(&db), vec!["de_alice"]);
    // the name is free again
    assert!(User::create(&mut db, "bob").is_some());
    // a second teardown finds nobody
    teardown(&mut db, b);
    assert_eq!(User::drain_msgs(&mut db, a), none());
}

#[test]
fn public_rooms_are_listed_oldest_first() {
    let mut db = Store::new();
    let a = User::create(&mut db, "alice").unwrap();
    assert_eq!(list_rooms(&db), none());
    create_room(&mut db, "um", false, "", a).unwrap();
    create_room(&mut db, "cofre", true, "x", a).unwrap();
    create_room(&mut db, "dois", false, "senha", a).unwrap();
    assert_eq!(list_rooms(&db), vec!["um", "dois"]);
    close_room(&mut db, "um", a).unwrap();
    assert_eq!(list_rooms(&db), vec!["dois"]);
}

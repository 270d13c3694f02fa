//! What the members of a room may do: open and close it, join and leave it,
//! talk in it, and ban someone from it.
//!
//! Each operation first decides whether it is allowed. Where it is not, it
//! gives the reason and leaves the store as it was. Where it is, it changes
//! the store and puts a notice into the mailbox of each member concerned.

use crate::db::{listing, texts, Room, Store, User};
use crate::lemmas::{lemma_room_at, lemma_room_known, lemma_room_name_known};
use crate::model::{member_ok, room_ok, room_pos, summary, State};
use vstd::prelude::*;

verus! {

/// Why a command on a room was not carried out.
#[derive(Clone, Copy, Debug, PartialEq, Eq, Structural)]
pub enum RoomError {
    /// No room has that name; or, for a message, the sender is not in it.
    NotFound,
    /// The user is not in the room.
    NotMember,
    /// The admin cannot leave the room, only close it.
    AdminMustClose,
    /// Only the admin may do this.
    NotAdmin,
    /// A room of that name exists.
    AlreadyExists,
    /// A private room needs a password.
    PasswordRequired,
    /// The store did not take the new room.
    CreateFailed,
    /// The name of the user is banned from the room.
    Banned,
    /// The user is in the room already.
    AlreadyMember,
    /// The password is not that of the room.
    WrongPassword,
    /// No connected user has that name, or that identifier.
    UserNotFound,
    /// The admin cannot ban itself.
    SelfBan,
}

/// The notice that `user` left a room of its own accord.
pub open spec fn notice_left(user: Seq<char>) -> Seq<char> {
    "SAIU "@ + user + "\n"@
}

/// The notice that `user` is gone from `room`.
pub open spec fn notice_gone(room: Seq<char>, user: Seq<char>) -> Seq<char> {
    "SAIU "@ + room + " "@ + user + "\n"@
}

/// The notice that `room` was closed.
pub open spec fn notice_closed(room: Seq<char>) -> Seq<char> {
    "SALA_FECHADA "@ + room + "\n"@
}

/// The notice that `user` entered `room`.
pub open spec fn notice_entered(room: Seq<char>, user: Seq<char>) -> Seq<char> {
    "ENTROU "@ + room + " "@ + user + "\n"@
}

/// The message `text` that `user` sent to `room`.
pub open spec fn notice_message(room: Seq<char>, user: Seq<char>, text: Seq<char>) -> Seq<char> {
    "MENSAGEM "@ + room + " "@ + user + " "@ + text + "\n"@
}

/// The notice to one who was banned from `room`.
pub open spec fn notice_banned(room: Seq<char>) -> Seq<char> {
    "BANIDO_DA_SALA "@ + room + "\n"@
}

fn left_notice(user: &str) -> (s: String)
    ensures
        s@ == notice_left(user@),
{
    let mut s = String::from_str("SAIU ");
    s.append(user);
    s.append("\n");
    s
}

fn gone_notice(room: &str, user: &str) -> (s: String)
    ensures
        s@ == notice_gone(room@, user@),
{
    let mut s = String::from_str("SAIU ");
    s.append(room);
    s.append(" ");
    s.append(user);
    s.append("\n");
    s
}

fn closed_notice(room: &str) -> (s: String)
    ensures
        s@ == notice_closed(room@),
{
    let mut s = String::from_str("SALA_FECHADA ");
    s.append(room);
    s.append("\n");
    s
}

fn entered_notice(room: &str, user: &str) -> (s: String)
    ensures
        s@ == notice_entered(room@, user@),
{
    let mut s = String::from_str("ENTROU ");
    s.append(room);
    s.append(" ");
    s.append(user);
    s.append("\n");
    s
}

fn message_notice(room: &str, user: &str, text: &str) -> (s: String)
    ensures
        s@ == notice_message(room@, user@, text@),
{
    let mut s = String::from_str("MENSAGEM ");
    s.append(room);
    s.append(" ");
    s.append(user);
    s.append(" ");
    s.append(text);
    s.append("\n");
    s
}

fn banned_notice(room: &str) -> (s: String)
    ensures
        s@ == notice_banned(room@),
{
    let mut s = String::from_str("BANIDO_DA_SALA ");
    s.append(room);
    s.append("\n");
    s
}

/// The room called `name` is the room that its identifier finds.
pub proof fn lemma_room_named(s: State, name: Seq<char>)
    requires
        s.wf(),
        s.room_named(name) is Some,
    ensures
        s.has_room(s.room_named(name)->0.id),
        s.room(s.room_named(name)->0.id) == s.room_named(name)->0,
        s.room_named(name)->0.name == name,
        room_ok(s.users, s.room_named(name)->0, s.next_room),
{
    lemma_room_name_known(s.rooms, name);
    let p = crate::model::room_name_pos(s.rooms, name);
    lemma_room_at(s.rooms, p);
    assert(room_ok(s.users, s.rooms[p], s.next_room));
}

/// Whoever is in a room is connected.
pub proof fn lemma_member_connected(s: State, room: i64, user: i64)
    requires
        s.wf(),
        s.is_member(room, user),
    ensures
        s.has_user(user),
{
    lemma_room_known(s.rooms, room);
    let r = s.room(room);
    assert(room_ok(s.users, s.rooms[room_pos(s.rooms, room)], s.next_room));
    if r.admin != user {
        let k = choose|k: int| 0 <= k < r.members.len() && r.members[k] == user;
        assert(member_ok(s.users, r, r.members[k]));
    }
}

/// Whether a room may be opened, and if not, why.
pub open spec fn create_check(
    s: State,
    name: Seq<char>,
    private: bool,
    pass: Seq<char>,
    owner: i64,
) -> Result<(), RoomError> {
    if s.has_room_named(name) {
        Err(RoomError::AlreadyExists)
    } else if private && pass.len() == 0 {
        Err(RoomError::PasswordRequired)
    } else if !s.can_add_room(name, private, pass, owner) {
        Err(RoomError::CreateFailed)
    } else {
        Ok(())
    }
}

/// Opens a room called `name` with `owner` as its admin. A private room must
/// have a password.
pub fn create_room(db: &mut Store, name: &str, private: bool, pass: &str, owner: i64) -> (r: Result<
    (),
    RoomError,
>)
    requires
        old(db)@.wf(),
    ensures
        final(db)@.wf(),
        r == create_check(old(db)@, name@, private, pass@, owner),
        final(db)@ == if r is Ok {
            old(db)@.with_room(name@, private, pass@, owner)
        } else {
            old(db)@
        },
        private && pass@.len() == 0 ==> r is Err,
{
    if Room::get(db, name).is_some() {
        return Err(RoomError::AlreadyExists);
    }
    if private && pass.is_empty() {
        return Err(RoomError::PasswordRequired);
    }
    if !Room::create(db, name, private, pass, owner) {
        return Err(RoomError::CreateFailed);
    }
    Ok(())
}

/// The room that `user` may join, or why it may not.
pub open spec fn join_check(s: State, name: Seq<char>, pass: Seq<char>, user: i64) -> Result<
    i64,
    RoomError,
> {
    match s.room_named(name) {
        None => Err(RoomError::NotFound),
        Some(r) => if s.is_banned(r.id, user) {
            Err(RoomError::Banned)
        } else if s.is_member(r.id, user) {
            Err(RoomError::AlreadyMember)
        } else if r.pass != pass {
            Err(RoomError::WrongPassword)
        } else if !s.has_user(user) {
            Err(RoomError::UserNotFound)
        } else {
            Ok(r.id)
        },
    }
}

/// The store after `user` joined `room`: it is listed as a member, and the
/// others have a notice of it.
pub open spec fn joined(s: State, room: i64, name: Seq<char>, user: i64) -> State {
    s.with_member(room, user).broadcast(room, notice_entered(name, s.user(user).name), user, 0)
}

/// `user_id` joins the room called `name` and gets the names of all who are
/// in it now, itself and the admin among them.
pub fn join_room(db: &mut Store, name: &str, pass: &str, user_id: i64) -> (r: Result<
    Vec<String>,
    RoomError,
>)
    requires
        old(db)@.wf(),
    ensures
        final(db)@.wf(),
        match join_check(old(db)@, name@, pass@, user_id) {
            Err(e) => r == Err::<Vec<String>, RoomError>(e) && final(db)@ == old(db)@,
            Ok(room) => r matches Ok(names) && final(db)@ == joined(old(db)@, room, name@, user_id)
                && texts(names@) == final(db)@.member_names(room),
        },
{
    let room = match Room::get(db, name) {
        Some(room) => room,
        None => {
            return Err(RoomError::NotFound);
        },
    };
    proof {
        lemma_room_named(db@, name@);
    }
    if room.is_banned(db, user_id) {
        return Err(RoomError::Banned);
    }
    if room.is_member(db, user_id) {
        return Err(RoomError::AlreadyMember);
    }
    if !room.check_pass(db, pass) {
        return Err(RoomError::WrongPassword);
    }
    let me = match User::get(db, user_id) {
        Some(me) => me,
        None => {
            return Err(RoomError::UserNotFound);
        },
    };
    room.add_user(db, user_id);
    let notice = entered_notice(name, me.name.as_str());
    room.broadcast(db, notice.as_str(), user_id, 0);
    Ok(room.get_users(db))
}

/// The room that `user` may leave, or why it may not.
pub open spec fn leave_check(s: State, name: Seq<char>, user: i64) -> Result<i64, RoomError> {
    match s.room_named(name) {
        None => Err(RoomError::NotFound),
        Some(r) => if !s.is_member(r.id, user) {
            Err(RoomError::NotMember)
        } else if r.admin == user {
            Err(RoomError::AdminMustClose)
        } else {
            Ok(r.id)
        },
    }
}

/// The store after `user` left `room`: it is off the list of members, and
/// those who stay have a notice of it.
pub open spec fn left(s: State, room: i64, user: i64) -> State {
    s.without_member(room, user).broadcast(room, notice_left(s.user(user).name), user, 0)
}

/// `user_id` leaves the room called `name`. The admin cannot.
pub fn leave_room(db: &mut Store, name: &str, user_id: i64) -> (r: Result<(), RoomError>)
    requires
        old(db)@.wf(),
    ensures
        final(db)@.wf(),
        match leave_check(old(db)@, name@, user_id) {
            Err(e) => r == Err::<(), RoomError>(e) && final(db)@ == old(db)@,
            Ok(room) => r == Ok::<(), RoomError>(()) && final(db)@ == left(old(db)@, room, user_id),
        },
{
    let room = match Room::get(db, name) {
        Some(room) => room,
        None => {
            return Err(RoomError::NotFound);
        },
    };
    proof {
        lemma_room_named(db@, name@);
    }
    if !room.is_member(db, user_id) {
        return Err(RoomError::NotMember);
    }
    if room.is_admin(user_id) {
        return Err(RoomError::AdminMustClose);
    }
    proof {
        lemma_member_connected(db@, room.id, user_id);
    }
    let me = match User::get(db, user_id) {
        Some(me) => me,
        None => {
            return Err(RoomError::UserNotFound);
        },
    };
    room.kick(db, user_id);
    let notice = left_notice(me.name.as_str());
    room.broadcast(db, notice.as_str(), user_id, 0);
    Ok(())
}

/// The room that `user` may close, or why it may not.
pub open spec fn close_check(s: State, name: Seq<char>, user: i64) -> Result<i64, RoomError> {
    match s.room_named(name) {
        None => Err(RoomError::NotFound),
        Some(r) => if r.admin != user {
            Err(RoomError::NotAdmin)
        } else {
            Ok(r.id)
        },
    }
}

/// The store after `room` was closed by its admin: the members have a notice
/// of it, and the room is gone.
pub open spec fn closed(s: State, room: i64, name: Seq<char>, admin: i64) -> State {
    s.broadcast(room, notice_closed(name), admin, 0).without_room(room)
}

/// `user_id`, its admin, closes the room called `name`.
pub fn close_room(db: &mut Store, name: &str, user_id: i64) -> (r: Result<(), RoomError>)
    requires
        old(db)@.wf(),
    ensures
        final(db)@.wf(),
        match close_check(old(db)@, name@, user_id) {
            Err(e) => r == Err::<(), RoomError>(e) && final(db)@ == old(db)@,
            Ok(room) => r == Ok::<(), RoomError>(()) && final(db)@ == closed(
                old(db)@,
                room,
                name@,
                user_id,
            ),
        },
{
    let room = match Room::get(db, name) {
        Some(room) => room,
        None => {
            return Err(RoomError::NotFound);
        },
    };
    if !room.is_admin(user_id) {
        return Err(RoomError::NotAdmin);
    }
    let notice = closed_notice(name);
    room.broadcast(db, notice.as_str(), user_id, 0);
    room.delete_cascade(db);
    Ok(())
}

/// The room to which `user` may send a message, or why it may not.
pub open spec fn send_check(s: State, name: Seq<char>, user: i64) -> Result<i64, RoomError> {
    match s.room_named(name) {
        None => Err(RoomError::NotFound),
        Some(r) => if !s.is_member(r.id, user) {
            Err(RoomError::NotFound)
        } else {
            Ok(r.id)
        },
    }
}

/// The store after `user` sent `text` to `room`: the other members have it.
pub open spec fn sent(s: State, room: i64, name: Seq<char>, user: i64, text: Seq<char>) -> State {
    s.broadcast(room, notice_message(name, s.user(user).name, text), user, 0)
}

/// `user_id` sends `text` to the others in the room called `name`.
pub fn send_message(db: &mut Store, name: &str, user_id: i64, text: &str) -> (r: Result<
    (),
    RoomError,
>)
    requires
        old(db)@.wf(),
    ensures
        final(db)@.wf(),
        match send_check(old(db)@, name@, user_id) {
            Err(e) => r == Err::<(), RoomError>(e) && final(db)@ == old(db)@,
            Ok(room) => r == Ok::<(), RoomError>(()) && final(db)@ == sent(
                old(db)@,
                room,
                name@,
                user_id,
                text@,
            ),
        },
{
    let room = match Room::get(db, name) {
        Some(room) => room,
        None => {
            return Err(RoomError::NotFound);
        },
    };
    proof {
        lemma_room_named(db@, name@);
    }
    if !room.is_member(db, user_id) {
        return Err(RoomError::NotFound);
    }
    proof {
        lemma_member_connected(db@, room.id, user_id);
    }
    let me = match User::get(db, user_id) {
        Some(me) => me,
        None => {
            return Err(RoomError::UserNotFound);
        },
    };
    let notice = message_notice(name, me.name.as_str(), text);
    room.broadcast(db, notice.as_str(), user_id, 0);
    Ok(())
}

/// The room and the user that a ban is about, or why there is no ban.
pub open spec fn ban_check(s: State, name: Seq<char>, admin: i64, target: Seq<char>) -> Result<
    (i64, i64),
    RoomError,
> {
    match s.room_named(name) {
        None => Err(RoomError::NotFound),
        Some(r) => if r.admin != admin {
            Err(RoomError::NotAdmin)
        } else {
            match s.user_id(target) {
                None => Err(RoomError::UserNotFound),
                Some(id) => if id == admin {
                    Err(RoomError::SelfBan)
                } else {
                    Ok((r.id, id))
                },
            }
        },
    }
}

/// The store after `target` was put out of `room`, if it was in it: those who
/// stay, but the admin, have a notice of it.
pub open spec fn put_out(
    s: State,
    room: i64,
    name: Seq<char>,
    admin: i64,
    target: i64,
    target_name: Seq<char>,
) -> State {
    if s.can_remove_member(room, target) {
        s.without_member(room, target).broadcast(
            room,
            notice_gone(name, target_name),
            admin,
            target,
        )
    } else {
        s
    }
}

/// The store after the name of `target` was banned from `room`, if it was
/// not banned before: the target has a notice of it.
pub open spec fn shut_out(s: State, room: i64, name: Seq<char>, target: i64) -> State {
    if s.can_ban(room, target) {
        s.with_ban(room, target).with_mail(target, notice_banned(name))
    } else {
        s
    }
}

/// The store after the admin banned `target` from `room`.
pub open spec fn banned(
    s: State,
    room: i64,
    name: Seq<char>,
    admin: i64,
    target: i64,
    target_name: Seq<char>,
) -> State {
    shut_out(put_out(s, room, name, admin, target, target_name), room, name, target)
}

/// `admin_id`, its admin, bans the user called `target` from the room called
/// `name`. A target that is in the room is put out of it first.
pub fn ban_user(db: &mut Store, name: &str, admin_id: i64, target: &str) -> (r: Result<
    (),
    RoomError,
>)
    requires
        old(db)@.wf(),
    ensures
        final(db)@.wf(),
        match ban_check(old(db)@, name@, admin_id, target@) {
            Err(e) => r == Err::<(), RoomError>(e) && final(db)@ == old(db)@,
            Ok((room, id)) => r == Ok::<(), RoomError>(()) && final(db)@ == banned(
                old(db)@,
                room,
                name@,
                admin_id,
                id,
                target@,
            ),
        },
{
    let room = match Room::get(db, name) {
        Some(room) => room,
        None => {
            return Err(RoomError::NotFound);
        },
    };
    if !room.is_admin(admin_id) {
        return Err(RoomError::NotAdmin);
    }
    let id = match User::get_id(db, target) {
        Some(id) => id,
        None => {
            return Err(RoomError::UserNotFound);
        },
    };
    if id == admin_id {
        return Err(RoomError::SelfBan);
    }
    if room.kick(db, id) {
        let notice = gone_notice(name, target);
        room.broadcast(db, notice.as_str(), admin_id, id);
    }
    if room.ban(db, id) {
        let notice = banned_notice(name);
        User::send_to(db, id, notice.as_str());
    }
    Ok(())
}

/// The names of the rooms that are not private, oldest first.
pub fn list_rooms(db: &Store) -> (names: Vec<String>)
    ensures
        texts(names@) == db@.public_rooms().map_values(crate::model::room_name()),
{
    Room::get_all(db)
}

/// The store after each room of `rooms` was told that `user` is gone.
pub open spec fn farewell(
    s: State,
    rooms: Seq<(i64, i64, Seq<char>)>,
    user: i64,
    name: Seq<char>,
) -> State
    decreases rooms.len(),
{
    if rooms.len() == 0 {
        s
    } else {
        farewell(s, rooms.drop_last(), user, name).broadcast(
            rooms.last().0,
            notice_gone(rooms.last().2, name),
            user,
            0,
        )
    }
}

/// The store after each room of `rooms` was told that it is closed.
pub open spec fn last_call(s: State, rooms: Seq<(i64, i64, Seq<char>)>, admin: i64) -> State
    decreases rooms.len(),
{
    if rooms.len() == 0 {
        s
    } else {
        last_call(s, rooms.drop_last(), admin).broadcast(
            rooms.last().0,
            notice_closed(rooms.last().2),
            admin,
            0,
        )
    }
}

/// The store after `user` disconnected.
pub open spec fn torn_down(s: State, user: i64) -> State {
    if s.has_user(user) {
        last_call(
            farewell(
                s,
                s.rooms_joined(user).map_values(summary()),
                user,
                s.user(user).name,
            ),
            s.rooms_owned(user).map_values(summary()),
            user,
        ).without_user(user)
    } else {
        s
    }
}

/// Ends the session of `user_id`, whatever ended it. The rooms that it was
/// in are told that it is gone. The rooms that it administers are told that
/// they are closed, and they are closed: a room does not outlive its admin.
/// Then the user is taken out of the store.
pub fn teardown(db: &mut Store, user_id: i64)
    requires
        old(db)@.wf(),
    ensures
        final(db)@.wf(),
        final(db)@ == torn_down(old(db)@, user_id),
        !final(db)@.has_user(user_id),
{
    let ghost s0 = db@;
    let me = match User::get(db, user_id) {
        Some(me) => me,
        None => {
            return ;
        },
    };
    let joined = Room::get_all_from_member(db, user_id);
    let owned = Room::get_all_from_admin(db, user_id);
    let ghost jl = joined@.map_values(listing());
    let ghost ol = owned@.map_values(listing());
    let mut i: usize = 0;
    while i < joined.len()
        invariant
            i <= joined.len(),
            db@.wf(),
            jl == joined@.map_values(listing()),
            me.name@ == s0.user(user_id).name,
            db@ == farewell(s0, jl.take(i as int), user_id, me.name@),
        decreases joined.len() - i,
    {
        let notice = gone_notice(joined[i].1.as_str(), me.name.as_str());
        assert(jl.take(i + 1).drop_last() =~= jl.take(i as int));
        assert(jl.take(i + 1).last() == listing()(joined@[i as int]));
        let room = Room { id: joined[i].0.id, admin: joined[i].0.admin };
        room.broadcast(db, notice.as_str(), user_id, 0);
        i += 1;
    }
    assert(jl.take(i as int) =~= jl);
    let ghost s1 = db@;
    let mut k: usize = 0;
    while k < owned.len()
        invariant
            k <= owned.len(),
            db@.wf(),
            ol == owned@.map_values(listing()),
            db@ == last_call(s1, ol.take(k as int), user_id),
        decreases owned.len() - k,
    {
        let notice = closed_notice(owned[k].1.as_str());
        assert(ol.take(k + 1).drop_last() =~= ol.take(k as int));
        assert(ol.take(k + 1).last() == listing()(owned@[k as int]));
        let room = Room { id: owned[k].0.id, admin: owned[k].0.admin };
        room.broadcast(db, notice.as_str(), user_id, 0);
        k += 1;
    }
    assert(ol.take(k as int) =~= ol);
    me.delete_cascade(db);
    proof {
        crate::steps::lemma_without_user_wf(last_call(s1, ol, user_id), user_id);
    }
}

} // verus!

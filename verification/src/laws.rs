//! What holds of the service as a whole, proved from the model.

use crate::lemmas::{
    lemma_broadcast_inbox, lemma_mail_step_keeps, lemma_mail_step_wf, lemma_member_ids_known,
    lemma_room_at, lemma_room_known, lemma_user_at, lemma_user_known, lemma_user_name_known,
    lemma_with_mail_inbox, lemma_without_mail_inbox,
};
use crate::model::{member_ok, name_in, name_of, room_ok, room_pos, user_pos, State};
use crate::parse::{keyword_arg, CommandView};
use crate::rooms::{
    ban_check, banned, create_check, farewell, join_check, joined, last_call, lemma_room_named,
    notice_banned, notice_gone, put_out, shut_out, torn_down, RoomError,
};
use crate::session::{command_outcome, handshake_step, refused, PhaseView};
use crate::steps::{
    lemma_drop_member, lemma_room_update_wf, lemma_room_without_ok, lemma_with_ban_wf,
    lemma_with_member_wf, lemma_with_user_wf, lemma_without_member_wf, lemma_without_user_wf,
};
use vstd::prelude::*;

verus! {

/// While a user called `name` is connected, a client on another connection
/// that claims `name` is told that the name is in use, and its handshake
/// starts again. Nothing changes in the store.
pub proof fn law_name_in_use(
    s: State,
    private_der: Seq<u8>,
    public_text: Seq<char>,
    line: Seq<char>,
    name: Seq<char>,
)
    requires
        s.wf(),
        s.has_user_named(name),
        keyword_arg(line, "REGISTRO"@) == Some(name),
    ensures
        handshake_step(PhaseView::Start, s, private_der, public_text, line) == refused(
            s,
            "ERRO usuário já existe"@,
        ),
{
}

/// A handshake that is completed for `name` connects a user of that name:
/// from then on the name is in use.
pub proof fn law_handshake_takes_name(
    s: State,
    private_der: Seq<u8>,
    public_text: Seq<char>,
    line: Seq<char>,
    name: Seq<char>,
)
    requires
        s.wf(),
        handshake_step(
            PhaseView::KeyOffered { name },
            s,
            private_der,
            public_text,
            line,
        ).phase is Authenticated,
    ensures
        handshake_step(
            PhaseView::KeyOffered { name },
            s,
            private_der,
            public_text,
            line,
        ).state.has_user_named(name),
        handshake_step(PhaseView::KeyOffered { name }, s, private_der, public_text, line).key
            is Some,
{
    lemma_with_user_wf(s, name);
}

/// A private room without a password is never opened, whoever asks and
/// whatever the store holds.
pub proof fn law_private_room_needs_password(s: State, name: Seq<char>, owner: i64)
    ensures
        create_check(s, name, true, Seq::empty(), owner) is Err,
        command_outcome(
            s,
            owner,
            CommandView::CreateRoom { room_name: name, private: true, pass: Seq::empty() },
        ).0 == s,
{
}

/// After a user joined a room, the names that it is given are those of all
/// who are in the room: the admin, the user itself, and every other member.
pub proof fn law_join_lists_everyone(
    s: State,
    name: Seq<char>,
    pass: Seq<char>,
    user: i64,
    room: i64,
)
    requires
        s.wf(),
        join_check(s, name, pass, user) == Ok::<i64, RoomError>(room),
    ensures
        joined(s, room, name, user).wf(),
        joined(s, room, name, user).is_member(room, user),
        joined(s, room, name, user).is_member(room, joined(s, room, name, user).room(room).admin),
        forall|who: i64| #[trigger]
            joined(s, room, name, user).is_member(room, who) ==> joined(
                s,
                room,
                name,
                user,
            ).has_user(who) && joined(s, room, name, user).member_names(room).contains(
                joined(s, room, name, user).user(who).name,
            ),
{
    lemma_room_named(s, name);
    let m = s.with_member(room, user);
    lemma_with_member_wf(s, room, user);
    let t = joined(s, room, name, user);
    lemma_mail_step_wf(m, t);
    lemma_mail_step_keeps(m, t);
    assert forall|who: i64| #[trigger] t.is_member(room, who) implies t.has_user(who)
        && t.member_names(room).contains(t.user(who).name) by {
        lemma_names_listed(m, room, who);
    }
}

/// Whoever is in a room is connected, and its name is among the names of
/// the members.
pub proof fn lemma_names_listed(s: State, room: i64, who: i64)
    requires
        s.wf(),
        s.is_member(room, who),
    ensures
        s.has_user(who),
        s.member_names(room).contains(s.user(who).name),
{
    let ids = s.member_ids(room);
    let r = s.room(room);
    let k = if r.admin == who {
        0
    } else {
        (choose|k: int| 0 <= k < r.members.len() && r.members[k] == who) + 1
    };
    assert(ids[k] == who);
    lemma_member_ids_known(s, room, k);
    assert(s.member_names(room)[k] == name_in(s.users)(ids[k]));
}

/// A mailbox that was emptied is empty: what was handed out is not handed
/// out again, and emptying it again changes nothing.
pub proof fn law_drained_once(s: State, user: i64)
    requires
        s.wf(),
    ensures
        s.without_mail(user).inbox(user) == Seq::<Seq<char>>::empty(),
        s.without_mail(user).without_mail(user) == s.without_mail(user),
{
    lemma_without_mail_inbox(s, user, user);
    assert(s.without_mail(user).without_mail(user).users =~= s.without_mail(user).users);
}

/// What the rooms see of a user after it was taken off the list of members
/// of one of them.
pub proof fn lemma_without_member_members(s: State, room: i64, user: i64, who: i64)
    requires
        s.wf(),
        s.can_remove_member(room, user),
    ensures
        s.without_member(room, user).is_member(room, who) == (s.is_member(room, who) && who
            != user),
        s.without_member(room, user).is_banned(room, who) == s.is_banned(room, who),
        s.without_member(room, user).has_room(room),
{
    let r = s.room(room);
    lemma_room_known(s.rooms, room);
    assert(room_ok(s.users, s.rooms[room_pos(s.rooms, room)], s.next_room));
    lemma_room_without_ok(s.users, r, user, s.next_room);
    lemma_room_update_wf(s, room, crate::model::room_without(r, user));
    lemma_drop_member(r.members, user);
    let k = choose|k: int| 0 <= k < r.members.len() && r.members[k] == user;
    assert(member_ok(s.users, r, r.members[k]));
}

/// After the admin of a room banned a user from it: the user is out of the
/// room and its name is banned, so that it cannot join again. If it was in
/// the room, each member that stays, but the admin, has one notice more that
/// it is gone, and nobody else has. The banned user has the notice of its
/// ban, if it was not banned before.
pub proof fn law_ban(
    s: State,
    name: Seq<char>,
    admin: i64,
    target_name: Seq<char>,
    room: i64,
    target: i64,
    pass: Seq<char>,
)
    requires
        s.wf(),
        ban_check(s, name, admin, target_name) == Ok::<(i64, i64), RoomError>((room, target)),
    ensures
        banned(s, room, name, admin, target, target_name).wf(),
        !banned(s, room, name, admin, target, target_name).is_member(room, target),
        banned(s, room, name, admin, target, target_name).is_banned(room, target),
        banned(s, room, name, admin, target, target_name).name_banned(room, target_name),
        join_check(banned(s, room, name, admin, target, target_name), name, pass, target) == Err::<
            i64,
            RoomError,
        >(RoomError::Banned),
        forall|who: i64|
            who != target ==> #[trigger] banned(s, room, name, admin, target, target_name).inbox(
                who,
            ) == if s.is_member(room, target) && s.is_member(room, who) && who != admin {
                s.inbox(who).push(notice_gone(name, target_name))
            } else {
                s.inbox(who)
            },
        banned(s, room, name, admin, target, target_name).inbox(target) == if s.is_banned(
            room,
            target,
        ) {
            s.inbox(target)
        } else {
            s.inbox(target).push(notice_banned(name))
        },
{
    lemma_room_named(s, name);
    lemma_user_name_known(s.users, target_name);
    let tp = crate::model::user_name_pos(s.users, target_name);
    lemma_user_at(s.users, tp);
    assert(s.has_user(target) && s.user(target).name == target_name);
    let r = s.room(room);
    assert(r.admin == admin && target != admin);
    let p = put_out(s, room, name, admin, target, target_name);
    // The store after the target was put out.
    assert(p.wf() && p.rooms.len() == s.rooms.len() && p.has_room(room) && !p.is_member(
        room,
        target,
    ) && p.is_banned(room, target) == s.is_banned(room, target) && p.has_user(target) && p.user(
        target,
    ).name == target_name && p.next_room == s.next_room && p.room(room).name == name
        && p.room(room).id == room && (forall|who: i64|
        #[trigger] p.inbox(who) == if who != target && s.is_member(room, target) && s.is_member(
            room,
            who,
        ) && who != admin {
            s.inbox(who).push(notice_gone(name, target_name))
        } else {
            s.inbox(who)
        })) by {
        if s.can_remove_member(room, target) {
            let w = s.without_member(room, target);
            lemma_without_member_wf(s, room, target);
            lemma_without_member_members(s, room, target, target);
            lemma_room_without_ok(s.users, r, target, s.next_room);
            lemma_room_update_wf(s, room, crate::model::room_without(r, target));
            lemma_mail_step_wf(w, p);
            lemma_mail_step_keeps(w, p);
            assert forall|who: i64| #[trigger]
                p.inbox(who) == if who != target && s.is_member(room, target) && s.is_member(
                    room,
                    who,
                ) && who != admin {
                    s.inbox(who).push(notice_gone(name, target_name))
                } else {
                    s.inbox(who)
                } by {
                lemma_broadcast_inbox(w, room, notice_gone(name, target_name), admin, target, who);
                lemma_without_member_members(s, room, target, who);
                if s.is_member(room, who) {
                    crate::rooms::lemma_member_connected(s, room, who);
                }
            }
        }
    }
    let t = shut_out(p, room, name, target);
    assert(t == banned(s, room, name, admin, target, target_name));
    if p.can_ban(room, target) {
        let b = p.with_ban(room, target);
        lemma_with_ban_wf(p, room, target);
        lemma_mail_step_wf(b, t);
        lemma_mail_step_keeps(b, t);
        lemma_room_known(p.rooms, room);
        lemma_room_update_wf(
            p,
            room,
            crate::model::RoomEntry {
                banned: p.room(room).banned.push(p.user(target).name),
                ..p.room(room)
            },
        );
        assert forall|who: i64| #[trigger] t.inbox(who) == if who == target {
            p.inbox(who).push(notice_banned(name))
        } else {
            p.inbox(who)
        } by {
            lemma_with_mail_inbox(b, target, notice_banned(name), who);
        }
    }
    assert(t.is_banned(room, target));
    assert(t.has_room(room) && t.room(room).name == name && t.room(room).id == room);
    // The room is still found under its name.
    lemma_room_known(t.rooms, room);
    lemma_room_at(t.rooms, room_pos(t.rooms, room));
    assert(t.room_named(name) == Some(t.room(room)));
}

/// Telling rooms that a user is gone changes mailboxes only.
pub proof fn lemma_farewell_keeps(
    s: State,
    rooms: Seq<(i64, i64, Seq<char>)>,
    user: i64,
    name: Seq<char>,
)
    requires
        s.wf(),
    ensures
        farewell(s, rooms, user, name).wf(),
        farewell(s, rooms, user, name).rooms == s.rooms,
        farewell(s, rooms, user, name).next_user == s.next_user,
        farewell(s, rooms, user, name).next_room == s.next_room,
        farewell(s, rooms, user, name).users.len() == s.users.len(),
        forall|i: int|
            0 <= i < s.users.len() ==> (#[trigger] farewell(s, rooms, user, name).users[i]).id
                == s.users[i].id && farewell(s, rooms, user, name).users[i].name
                == s.users[i].name,
    decreases rooms.len(),
{
    if rooms.len() > 0 {
        let before = farewell(s, rooms.drop_last(), user, name);
        lemma_farewell_keeps(s, rooms.drop_last(), user, name);
        let after = farewell(s, rooms, user, name);
        lemma_mail_step_wf(before, after);
        assert forall|i: int| 0 <= i < s.users.len() implies (#[trigger] after.users[i]).id
            == s.users[i].id && after.users[i].name == s.users[i].name by {
            assert(before.users[i].id == s.users[i].id);
        }
    }
}

/// Telling rooms that they are closed changes mailboxes only.
pub proof fn lemma_last_call_keeps(s: State, rooms: Seq<(i64, i64, Seq<char>)>, admin: i64)
    requires
        s.wf(),
    ensures
        last_call(s, rooms, admin).wf(),
        last_call(s, rooms, admin).rooms == s.rooms,
        last_call(s, rooms, admin).next_user == s.next_user,
        last_call(s, rooms, admin).next_room == s.next_room,
        last_call(s, rooms, admin).users.len() == s.users.len(),
        forall|i: int|
            0 <= i < s.users.len() ==> (#[trigger] last_call(s, rooms, admin).users[i]).id
                == s.users[i].id && last_call(s, rooms, admin).users[i].name == s.users[i].name,
    decreases rooms.len(),
{
    if rooms.len() > 0 {
        let before = last_call(s, rooms.drop_last(), admin);
        lemma_last_call_keeps(s, rooms.drop_last(), admin);
        let after = last_call(s, rooms, admin);
        lemma_mail_step_wf(before, after);
        assert forall|i: int| 0 <= i < s.users.len() implies (#[trigger] after.users[i]).id
            == s.users[i].id && after.users[i].name == s.users[i].name by {
            assert(before.users[i].id == s.users[i].id);
        }
    }
}

/// A ban outlasts the session of the banned user. After the user
/// disconnected, its name is still banned from the room; and when a client
/// connects again under that name, as a new user, it is refused when it
/// tries to join.
pub proof fn law_ban_outlasts_session(
    s: State,
    room: i64,
    target: i64,
    pass: Seq<char>,
)
    requires
        s.wf(),
        s.is_banned(room, target),
    ensures
        torn_down(s, target).wf(),
        !torn_down(s, target).has_user(target),
        torn_down(s, target).name_banned(room, s.user(target).name),
        torn_down(s, target).can_add_user(s.user(target).name) ==> join_check(
            torn_down(s, target).with_user(s.user(target).name),
            s.room(room).name,
            pass,
            torn_down(s, target).next_user,
        ) == Err::<i64, RoomError>(RoomError::Banned),
{
    let name = s.user(target).name;
    lemma_user_known(s.users, target);
    lemma_user_at(s.users, user_pos(s.users, target));
    lemma_room_known(s.rooms, room);
    let r = s.room(room);
    assert(room_ok(s.users, s.rooms[room_pos(s.rooms, room)], s.next_room));
    assert(r.admin != target) by {
        if r.admin == target {
            assert(name_of(s.users, r.admin) == name);
        }
    }
    let a = farewell(s, s.rooms_joined(target).map_values(crate::model::summary()), target, name);
    lemma_farewell_keeps(
        s,
        s.rooms_joined(target).map_values(crate::model::summary()),
        target,
        name,
    );
    let b = last_call(a, s.rooms_owned(target).map_values(crate::model::summary()), target);
    lemma_last_call_keeps(a, s.rooms_owned(target).map_values(crate::model::summary()), target);
    crate::lemmas::lemma_same_keys(s.users, a.users);
    crate::lemmas::lemma_same_keys(a.users, b.users);
    assert(b.has_user(target));
    assert(b.has_room(room) && b.room(room) == r);
    let g = b.without_user(target);
    assert(g == torn_down(s, target));
    lemma_without_user_wf(b, target);
    assert(g.has_room(room) && g.room(room) == crate::model::room_without(r, target));
    assert(g.name_banned(room, name));
    if g.can_add_user(name) {
        let back = g.with_user(name);
        lemma_with_user_wf(g, name);
        assert(back.rooms == g.rooms);
        assert(back.is_banned(room, g.next_user));
        lemma_room_known(back.rooms, room);
        lemma_room_at(back.rooms, room_pos(back.rooms, room));
        assert(back.room_named(r.name) == Some(back.room(room)));
    }
}

} // verus!

//! Proofs about the steps of `model`: each keeps the invariant, and each
//! changes what the lookups see in the expected way.

use crate::model::{
    distinct_rooms, distinct_users, knows_room, knows_room_name, knows_user, knows_user_name,
    member_ok, name_of, room_name_pos, room_ok, room_pos, user_name_pos, user_pos, RoomEntry,
    State, UserEntry,
};
use vstd::prelude::*;

verus! {

/// Where `id` is at position `k` of `users`, the lookup finds that position.
pub proof fn lemma_user_at(users: Seq<UserEntry>, k: int)
    requires
        distinct_users(users),
        0 <= k < users.len(),
    ensures
        knows_user(users, users[k].id),
        user_pos(users, users[k].id) == k,
        name_of(users, users[k].id) == users[k].name,
        knows_user_name(users, users[k].name),
        user_name_pos(users, users[k].name) == k,
{
    let p = user_pos(users, users[k].id);
    assert(0 <= p < users.len() && users[p].id == users[k].id);
    if p < k {
        assert(users[p].id != users[k].id);
    } else if k < p {
        assert(users[k].id != users[p].id);
    }
    let q = user_name_pos(users, users[k].name);
    assert(0 <= q < users.len() && users[q].name == users[k].name);
    if q < k {
        assert(users[q].name != users[k].name);
    } else if k < q {
        assert(users[k].name != users[q].name);
    }
}

/// A known user has a position, and the lookup finds it.
pub proof fn lemma_user_known(users: Seq<UserEntry>, id: i64)
    requires
        knows_user(users, id),
    ensures
        0 <= user_pos(users, id) < users.len(),
        users[user_pos(users, id)].id == id,
{
}

pub proof fn lemma_user_name_known(users: Seq<UserEntry>, name: Seq<char>)
    requires
        knows_user_name(users, name),
    ensures
        0 <= user_name_pos(users, name) < users.len(),
        users[user_name_pos(users, name)].name == name,
{
}

/// Where `id` is at position `k` of `rooms`, the lookup finds that position.
pub proof fn lemma_room_at(rooms: Seq<RoomEntry>, k: int)
    requires
        distinct_rooms(rooms),
        0 <= k < rooms.len(),
    ensures
        knows_room(rooms, rooms[k].id),
        room_pos(rooms, rooms[k].id) == k,
        knows_room_name(rooms, rooms[k].name),
        room_name_pos(rooms, rooms[k].name) == k,
{
    let p = room_pos(rooms, rooms[k].id);
    assert(0 <= p < rooms.len() && rooms[p].id == rooms[k].id);
    if p < k {
        assert(rooms[p].id != rooms[k].id);
    } else if k < p {
        assert(rooms[k].id != rooms[p].id);
    }
    let q = room_name_pos(rooms, rooms[k].name);
    assert(0 <= q < rooms.len() && rooms[q].name == rooms[k].name);
    if q < k {
        assert(rooms[q].name != rooms[k].name);
    } else if k < q {
        assert(rooms[k].name != rooms[q].name);
    }
}

pub proof fn lemma_room_known(rooms: Seq<RoomEntry>, id: i64)
    requires
        knows_room(rooms, id),
    ensures
        0 <= room_pos(rooms, id) < rooms.len(),
        rooms[room_pos(rooms, id)].id == id,
{
}

pub proof fn lemma_room_name_known(rooms: Seq<RoomEntry>, name: Seq<char>)
    requires
        knows_room_name(rooms, name),
    ensures
        0 <= room_name_pos(rooms, name) < rooms.len(),
        rooms[room_name_pos(rooms, name)].name == name,
{
}

/// Every user of `a` is a user of `b`, under the same name.
pub open spec fn keeps_users(a: Seq<UserEntry>, b: Seq<UserEntry>) -> bool {
    forall|id: i64| #[trigger]
        knows_user(a, id) ==> knows_user(b, id) && name_of(b, id) == name_of(a, id)
}

/// A room that is in order stays so when the users it speaks of stay.
pub proof fn lemma_room_ok_kept(a: Seq<UserEntry>, b: Seq<UserEntry>, r: RoomEntry, next: i64)
    requires
        room_ok(a, r, next),
        keeps_users(a, b),
    ensures
        room_ok(b, r, next),
{
    assert(knows_user(a, r.admin));
    assert forall|k: int| 0 <= k < r.members.len() implies member_ok(
        b,
        r,
        #[trigger] r.members[k],
    ) by {
        assert(member_ok(a, r, r.members[k]));
        assert(knows_user(a, r.members[k]));
    }
}

/// Two lists of users that agree on identifiers and names, place by place,
/// know the same users.
pub proof fn lemma_same_keys(a: Seq<UserEntry>, b: Seq<UserEntry>)
    requires
        a.len() == b.len(),
        distinct_users(a),
        forall|i: int|
            0 <= i < a.len() ==> (#[trigger] b[i]).id == a[i].id && b[i].name == a[i].name,
    ensures
        distinct_users(b),
        keeps_users(a, b),
        keeps_users(b, a),
        forall|id: i64| knows_user(a, id) == knows_user(b, id),
        forall|id: i64| knows_user(a, id) ==> user_pos(a, id) == user_pos(b, id),
        forall|name: Seq<char>| knows_user_name(a, name) == knows_user_name(b, name),
        forall|name: Seq<char>|
            knows_user_name(a, name) ==> user_name_pos(a, name) == user_name_pos(b, name),
{
    assert(distinct_users(b)) by {
        assert forall|i: int, j: int| 0 <= i < j < b.len() implies (#[trigger] b[i]).id != (
        #[trigger] b[j]).id && b[i].name != b[j].name by {
            assert(a[i].id != a[j].id);
        }
    }
    assert forall|id: i64| knows_user(a, id) == knows_user(b, id) by {
        if knows_user(a, id) {
            let p = user_pos(a, id);
            assert(b[p].id == id);
        }
        if knows_user(b, id) {
            let p = user_pos(b, id);
            assert(a[p].id == id);
        }
    }
    assert forall|id: i64| knows_user(a, id) implies user_pos(a, id) == user_pos(b, id) by {
        let p = user_pos(a, id);
        assert(b[p].id == a[p].id);
        lemma_user_at(b, p);
    }
    assert forall|name: Seq<char>| knows_user_name(a, name) == knows_user_name(b, name) by {
        if knows_user_name(a, name) {
            let p = user_name_pos(a, name);
            assert(b[p].name == name);
        }
        if knows_user_name(b, name) {
            let p = user_name_pos(b, name);
            assert(a[p].name == name);
        }
    }
    assert forall|name: Seq<char>| knows_user_name(a, name) implies user_name_pos(a, name)
        == user_name_pos(b, name) by {
        let p = user_name_pos(a, name);
        assert(b[p].name == a[p].name);
        lemma_user_at(b, p);
    }
    assert(keeps_users(a, b)) by {
        assert forall|id: i64| #[trigger] knows_user(a, id) implies knows_user(b, id) && name_of(
            b,
            id,
        ) == name_of(a, id) by {
            let p = user_pos(a, id);
            assert(b[p].id == a[p].id);
        }
    }
    assert(keeps_users(b, a)) by {
        assert forall|id: i64| #[trigger] knows_user(b, id) implies knows_user(a, id) && name_of(
            a,
            id,
        ) == name_of(b, id) by {
            assert(knows_user(a, id));
            let p = user_pos(a, id);
            assert(b[p].id == a[p].id);
        }
    }
}

/// A step that changes mailboxes only keeps the invariant.
pub proof fn lemma_mail_step_wf(s: State, t: State)
    requires
        s.wf(),
        t.rooms == s.rooms,
        t.next_user == s.next_user,
        t.next_room == s.next_room,
        t.users.len() == s.users.len(),
        forall|i: int|
            0 <= i < s.users.len() ==> (#[trigger] t.users[i]).id == s.users[i].id
                && t.users[i].name == s.users[i].name,
    ensures
        t.wf(),
{
    lemma_same_keys(s.users, t.users);
    assert forall|i: int| 0 <= i < t.rooms.len() implies room_ok(
        t.users,
        #[trigger] t.rooms[i],
        t.next_room,
    ) by {
        lemma_room_ok_kept(s.users, t.users, s.rooms[i], s.next_room);
    }
    assert forall|i: int| 0 <= i < t.users.len() implies 0 < (#[trigger] t.users[i]).id
        < t.next_user by {
        assert(0 < s.users[i].id < s.next_user);
    }
}

/// What a step that changes mailboxes only leaves as it was.
pub proof fn lemma_mail_step_keeps(s: State, t: State)
    requires
        s.wf(),
        t.rooms == s.rooms,
        t.next_user == s.next_user,
        t.next_room == s.next_room,
        t.users.len() == s.users.len(),
        forall|i: int|
            0 <= i < s.users.len() ==> (#[trigger] t.users[i]).id == s.users[i].id
                && t.users[i].name == s.users[i].name,
    ensures
        forall|id: i64| t.has_user(id) == s.has_user(id),
        forall|id: i64| s.has_user(id) ==> user_pos(t.users, id) == user_pos(s.users, id),
        forall|id: i64| s.has_user(id) ==> t.user(id).name == s.user(id).name,
        forall|name: Seq<char>| t.user_id(name) == s.user_id(name),
        forall|room: i64, user: i64| t.is_member(room, user) == s.is_member(room, user),
        forall|room: i64, user: i64| t.is_banned(room, user) == s.is_banned(room, user),
        forall|room: i64| t.member_names(room) == s.member_names(room),
{
    lemma_same_keys(s.users, t.users);
    assert forall|id: i64| s.has_user(id) implies t.user(id).name == s.user(id).name by {
        lemma_user_known(s.users, id);
    }
    assert forall|name: Seq<char>| t.user_id(name) == s.user_id(name) by {
        if knows_user_name(s.users, name) {
            lemma_user_name_known(s.users, name);
        }
    }
    assert forall|room: i64, user: i64| t.is_banned(room, user) == s.is_banned(room, user) by {
        if s.has_user(user) {
            lemma_user_known(s.users, user);
        }
    }
    assert forall|room: i64| t.member_names(room) == s.member_names(room) by {
        let ids = s.member_ids(room);
        assert(t.member_ids(room) == ids);
        assert forall|k: int| 0 <= k < ids.len() implies name_of(t.users, ids[k]) == name_of(
            s.users,
            ids[k],
        ) by {
            lemma_member_ids_known(s, room, k);
            lemma_user_known(s.users, ids[k]);
        }
        assert(t.member_names(room) =~= s.member_names(room));
    }
}

/// Every member of a room is a connected user.
pub proof fn lemma_member_ids_known(s: State, room: i64, k: int)
    requires
        s.wf(),
        0 <= k < s.member_ids(room).len(),
    ensures
        s.has_user(s.member_ids(room)[k]),
        s.is_member(room, s.member_ids(room)[k]),
{
    lemma_room_known(s.rooms, room);
    let r = s.room(room);
    assert(room_ok(s.users, s.rooms[room_pos(s.rooms, room)], s.next_room));
    if k > 0 {
        assert(s.member_ids(room)[k] == r.members[k - 1]);
        assert(member_ok(s.users, r, r.members[k - 1]));
    }
}

/// The mailbox of each user after a message was sent to one of them.
pub proof fn lemma_with_mail_inbox(s: State, user: i64, body: Seq<char>, who: i64)
    requires
        s.wf(),
    ensures
        s.with_mail(user, body).inbox(who) == if who == user && s.has_user(user) {
            s.inbox(who).push(body)
        } else {
            s.inbox(who)
        },
{
    let t = s.with_mail(user, body);
    lemma_mail_step_keeps(s, t);
    if s.has_user(who) {
        lemma_user_known(s.users, who);
    }
}

/// The mailbox of each user after that of one of them was emptied.
pub proof fn lemma_without_mail_inbox(s: State, user: i64, who: i64)
    requires
        s.wf(),
    ensures
        s.without_mail(user).inbox(who) == if who == user {
            Seq::<Seq<char>>::empty()
        } else {
            s.inbox(who)
        },
{
    let t = s.without_mail(user);
    lemma_mail_step_keeps(s, t);
    if s.has_user(who) {
        lemma_user_known(s.users, who);
    }
}

/// The mailbox of each user after a message was sent to a room: those who
/// receive it have it once more, at the end, and nobody else has anything new.
pub proof fn lemma_broadcast_inbox(
    s: State,
    room: i64,
    body: Seq<char>,
    e0: i64,
    e1: i64,
    who: i64,
)
    requires
        s.wf(),
    ensures
        s.broadcast(room, body, e0, e1).inbox(who) == if s.receives(room, who, e0, e1)
            && s.has_user(who) {
            s.inbox(who).push(body)
        } else {
            s.inbox(who)
        },
{
    let t = s.broadcast(room, body, e0, e1);
    lemma_mail_step_keeps(s, t);
    if s.has_user(who) {
        lemma_user_known(s.users, who);
    }
}

} // verus!

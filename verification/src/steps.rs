//! Each step of `model` that adds or removes a user, a room, a member or a
//! ban keeps the invariant.

use crate::lemmas::{
    keeps_users, lemma_room_at, lemma_room_known, lemma_room_ok_kept, lemma_user_at,
    lemma_user_known,
};
use crate::model::{
    distinct_rooms, distinct_users, drop_member, knows_user, member_ok, name_of, not_admin,
    room_ok, room_pos, room_without, strip_member, user_pos, RoomEntry, State, UserEntry,
};
use vstd::prelude::*;

verus! {

/// For a sequence and what `filter` keeps of it: the position in the sequence
/// of each item kept. The positions rise, and every item that meets `p` is
/// among them.
pub proof fn lemma_filter_origin<A>(s: Seq<A>, p: spec_fn(A) -> bool) -> (m: Seq<int>)
    ensures
        m.len() == s.filter(p).len(),
        forall|i: int|
            0 <= i < m.len() ==> 0 <= #[trigger] m[i] < s.len() && s[m[i]] == s.filter(p)[i] && p(
                s[m[i]],
            ),
        forall|i: int, j: int| 0 <= i < j < m.len() ==> #[trigger] m[i] < #[trigger] m[j],
        forall|k: int| 0 <= k < s.len() && p(#[trigger] s[k]) ==> m.contains(k),
    decreases s.len(),
{
    reveal(Seq::filter);
    if s.len() == 0 {
        Seq::empty()
    } else {
        let rest = s.drop_last();
        let m0 = lemma_filter_origin(rest, p);
        if p(s.last()) {
            let m = m0.push(s.len() - 1);
            assert(m[m0.len() as int] == s.len() - 1);
            assert forall|k: int| 0 <= k < s.len() && p(#[trigger] s[k]) implies m.contains(k) by {
                if k < s.len() - 1 {
                    assert(p(rest[k]));
                    let i = choose|i: int| 0 <= i < m0.len() && m0[i] == k;
                    assert(m[i] == k);
                } else {
                    assert(m[m0.len() as int] == k);
                }
            }
            m
        } else {
            assert forall|k: int| 0 <= k < s.len() && p(#[trigger] s[k]) implies m0.contains(k) by {
                assert(p(rest[k]));
            }
            m0
        }
    }
}

pub proof fn lemma_with_user_wf(s: State, name: Seq<char>)
    requires
        s.wf(),
        s.can_add_user(name),
    ensures
        s.with_user(name).wf(),
        keeps_users(s.users, s.with_user(name).users),
        s.with_user(name).has_user(s.next_user),
        s.with_user(name).user(s.next_user) == (UserEntry {
            id: s.next_user,
            name,
            inbox: Seq::empty(),
        }),
        s.with_user(name).user_id(name) == Some(s.next_user),
{
    let t = s.with_user(name);
    let n = s.users.len() as int;
    assert(t.users[n].id == s.next_user);
    assert(distinct_users(t.users)) by {
        assert forall|i: int, j: int| 0 <= i < j < t.users.len() implies (#[trigger] t.users[i]).id
            != (#[trigger] t.users[j]).id && t.users[i].name != t.users[j].name by {
            if j < n {
                assert(s.users[i].id != s.users[j].id);
            } else {
                assert(s.users[i].id < s.next_user);
                assert(s.users[i].name != name);
            }
        }
    }
    assert(keeps_users(s.users, t.users)) by {
        assert forall|id: i64| #[trigger] knows_user(s.users, id) implies knows_user(t.users, id)
            && name_of(t.users, id) == name_of(s.users, id) by {
            let p = user_pos(s.users, id);
            assert(t.users[p] == s.users[p]);
            lemma_user_at(t.users, p);
        }
    }
    assert forall|i: int| 0 <= i < t.rooms.len() implies room_ok(
        t.users,
        #[trigger] t.rooms[i],
        t.next_room,
    ) by {
        lemma_room_ok_kept(s.users, t.users, s.rooms[i], s.next_room);
    }
    assert forall|i: int| 0 <= i < t.users.len() implies 0 < (#[trigger] t.users[i]).id
        < t.next_user by {
        if i < n {
            assert(0 < s.users[i].id < s.next_user);
        }
    }
    lemma_user_at(t.users, n);
}

pub proof fn lemma_with_room_wf(
    s: State,
    name: Seq<char>,
    private: bool,
    pass: Seq<char>,
    admin: i64,
)
    requires
        s.wf(),
        s.can_add_room(name, private, pass, admin),
    ensures
        s.with_room(name, private, pass, admin).wf(),
        s.with_room(name, private, pass, admin).has_room(s.next_room),
        s.with_room(name, private, pass, admin).room(s.next_room) == s.with_room(
            name,
            private,
            pass,
            admin,
        ).rooms[s.rooms.len() as int],
{
    let t = s.with_room(name, private, pass, admin);
    let n = s.rooms.len() as int;
    assert(t.rooms[n].id == s.next_room);
    assert(distinct_rooms(t.rooms)) by {
        assert forall|i: int, j: int| 0 <= i < j < t.rooms.len() implies (#[trigger] t.rooms[i]).id
            != (#[trigger] t.rooms[j]).id && t.rooms[i].name != t.rooms[j].name by {
            if j < n {
                assert(s.rooms[i].id != s.rooms[j].id);
            } else {
                assert(room_ok(s.users, s.rooms[i], s.next_room));
                assert(s.rooms[i].name != name);
            }
        }
    }
    assert forall|i: int| 0 <= i < t.rooms.len() implies room_ok(
        t.users,
        #[trigger] t.rooms[i],
        t.next_room,
    ) by {
        if i < n {
            assert(room_ok(s.users, s.rooms[i], s.next_room));
        }
    }
    lemma_room_at(t.rooms, n);
}

pub proof fn lemma_without_room_wf(s: State, id: i64)
    requires
        s.wf(),
    ensures
        s.without_room(id).wf(),
        !s.without_room(id).has_room(id),
{
    let t = s.without_room(id);
    if s.has_room(id) {
        let p = room_pos(s.rooms, id);
        assert(distinct_rooms(t.rooms)) by {
            assert forall|i: int, j: int| 0 <= i < j < t.rooms.len() implies (
            #[trigger] t.rooms[i]).id != (#[trigger] t.rooms[j]).id && t.rooms[i].name
                != t.rooms[j].name by {
                let a = if i < p {
                    i
                } else {
                    i + 1
                };
                let b = if j < p {
                    j
                } else {
                    j + 1
                };
                assert(s.rooms[a].id != s.rooms[b].id);
            }
        }
        assert forall|i: int| 0 <= i < t.rooms.len() implies room_ok(
            t.users,
            #[trigger] t.rooms[i],
            t.next_room,
        ) by {
            let a = if i < p {
                i
            } else {
                i + 1
            };
            assert(room_ok(s.users, s.rooms[a], s.next_room));
        }
        if t.has_room(id) {
            let q = room_pos(t.rooms, id);
            let a = if q < p {
                q
            } else {
                q + 1
            };
            assert(s.rooms[a].id == id);
            lemma_room_at(s.rooms, a);
        }
    }
}

/// A step that replaces one room by a room with the same identifier and name
/// keeps the invariant where the new room is in order.
pub proof fn lemma_room_update_wf(s: State, room: i64, r2: RoomEntry)
    requires
        s.wf(),
        s.has_room(room),
        r2.id == s.room(room).id,
        r2.name == s.room(room).name,
        room_ok(s.users, r2, s.next_room),
    ensures
        (State { rooms: s.rooms.update(room_pos(s.rooms, room), r2), ..s }).wf(),
        (State { rooms: s.rooms.update(room_pos(s.rooms, room), r2), ..s }).has_room(room),
        (State { rooms: s.rooms.update(room_pos(s.rooms, room), r2), ..s }).room(room) == r2,
        forall|other: i64|
            other != room ==> (State {
                rooms: s.rooms.update(room_pos(s.rooms, room), r2),
                ..s
            }).has_room(other) == s.has_room(other) && ((State {
                rooms: s.rooms.update(room_pos(s.rooms, room), r2),
                ..s
            }).has_room(other) ==> (State {
                rooms: s.rooms.update(room_pos(s.rooms, room), r2),
                ..s
            }).room(other) == s.room(other)),
{
    let p = room_pos(s.rooms, room);
    let t = State { rooms: s.rooms.update(p, r2), ..s };
    assert(distinct_rooms(t.rooms)) by {
        assert forall|i: int, j: int| 0 <= i < j < t.rooms.len() implies (#[trigger] t.rooms[i]).id
            != (#[trigger] t.rooms[j]).id && t.rooms[i].name != t.rooms[j].name by {
            assert(s.rooms[i].id != s.rooms[j].id);
        }
    }
    assert forall|i: int| 0 <= i < t.rooms.len() implies room_ok(
        t.users,
        #[trigger] t.rooms[i],
        t.next_room,
    ) by {
        if i != p {
            assert(room_ok(s.users, s.rooms[i], s.next_room));
        }
    }
    lemma_room_at(t.rooms, p);
    assert forall|other: i64| other != room implies t.has_room(other) == s.has_room(other) && (
    t.has_room(other) ==> t.room(other) == s.room(other)) by {
        if s.has_room(other) {
            let q = room_pos(s.rooms, other);
            assert(t.rooms[q] == s.rooms[q]);
            lemma_room_at(t.rooms, q);
        }
        if t.has_room(other) {
            let q = room_pos(t.rooms, other);
            assert(t.rooms[q] == s.rooms[q]);
            lemma_room_at(s.rooms, q);
        }
    }
}

pub proof fn lemma_with_member_wf(s: State, room: i64, user: i64)
    requires
        s.wf(),
        s.can_add_member(room, user),
    ensures
        s.with_member(room, user).wf(),
        s.with_member(room, user).is_member(room, user),
{
    let r = s.room(room);
    let r2 = RoomEntry { members: r.members.push(user), ..r };
    lemma_room_known(s.rooms, room);
    assert(room_ok(s.users, s.rooms[room_pos(s.rooms, room)], s.next_room));
    assert(room_ok(s.users, r2, s.next_room)) by {
        assert forall|k: int| 0 <= k < r2.members.len() implies member_ok(
            s.users,
            r2,
            #[trigger] r2.members[k],
        ) by {
            if k < r.members.len() {
                assert(member_ok(s.users, r, r.members[k]));
            }
        }
        assert forall|i: int, j: int|
            0 <= i < r2.members.len() && 0 <= j < r2.members.len() && i != j implies r2.members[i]
            != r2.members[j] by {
            if i < r.members.len() && j < r.members.len() {
                assert(r.members[i] != r.members[j]);
            } else if i < r.members.len() {
                assert(r.members[i] != user);
            } else {
                assert(r.members[j] != user);
            }
        }
    }
    lemma_room_update_wf(s, room, r2);
    assert(r2.members[r.members.len() as int] == user);
}

pub proof fn lemma_without_member_wf(s: State, room: i64, user: i64)
    requires
        s.wf(),
        s.can_remove_member(room, user),
    ensures
        s.without_member(room, user).wf(),
        !s.without_member(room, user).is_member(room, user),
{
    let r = s.room(room);
    let r2 = room_without(r, user);
    lemma_room_known(s.rooms, room);
    assert(room_ok(s.users, s.rooms[room_pos(s.rooms, room)], s.next_room));
    lemma_room_without_ok(s.users, r, user, s.next_room);
    lemma_room_update_wf(s, room, r2);
}

/// A list of members without duplicates, with `id` taken off: it has no
/// duplicates, and it holds what the list held, but `id`.
pub proof fn lemma_drop_member(members: Seq<i64>, id: i64)
    requires
        members.no_duplicates(),
    ensures
        drop_member(members, id).no_duplicates(),
        forall|x: i64| drop_member(members, id).contains(x) <==> members.contains(x) && x != id,
{
    let d = drop_member(members, id);
    if members.contains(id) {
        let p = members.index_of(id);
        assert forall|i: int, j: int| 0 <= i < d.len() && 0 <= j < d.len() && i != j implies d[i]
            != d[j] by {
            let a = if i < p {
                i
            } else {
                i + 1
            };
            let b = if j < p {
                j
            } else {
                j + 1
            };
            assert(members[a] != members[b]);
        }
        assert forall|x: i64| d.contains(x) <==> members.contains(x) && x != id by {
            if d.contains(x) {
                let k = choose|k: int| 0 <= k < d.len() && d[k] == x;
                let a = if k < p {
                    k
                } else {
                    k + 1
                };
                assert(members[a] == x);
                assert(members[a] != members[p]);
            }
            if members.contains(x) && x != id {
                let a = choose|a: int| 0 <= a < members.len() && members[a] == x;
                let k = if a < p {
                    a
                } else {
                    a - 1
                };
                assert(d[k] == x);
            }
        }
    }
}

/// A room that is in order stays so when a member is taken off its list.
pub proof fn lemma_room_without_ok(users: Seq<UserEntry>, r: RoomEntry, id: i64, next: i64)
    requires
        room_ok(users, r, next),
    ensures
        room_ok(users, room_without(r, id), next),
        !room_without(r, id).members.contains(id),
{
    let r2 = room_without(r, id);
    lemma_drop_member(r.members, id);
    assert forall|k: int| 0 <= k < r2.members.len() implies member_ok(
        users,
        r2,
        #[trigger] r2.members[k],
    ) by {
        let u = r2.members[k];
        assert(r2.members.contains(u));
        assert(r.members.contains(u));
        let a = choose|a: int| 0 <= a < r.members.len() && r.members[a] == u;
        assert(member_ok(users, r, r.members[a]));
    }
}

pub proof fn lemma_with_ban_wf(s: State, room: i64, user: i64)
    requires
        s.wf(),
        s.can_ban(room, user),
    ensures
        s.with_ban(room, user).wf(),
        s.with_ban(room, user).is_banned(room, user),
        s.with_ban(room, user).name_banned(room, s.user(user).name),
{
    let r = s.room(room);
    let name = s.user(user).name;
    let r2 = RoomEntry { banned: r.banned.push(name), ..r };
    lemma_room_known(s.rooms, room);
    lemma_user_known(s.users, user);
    lemma_user_at(s.users, user_pos(s.users, user));
    assert(room_ok(s.users, s.rooms[room_pos(s.rooms, room)], s.next_room));
    assert(r2.banned[r.banned.len() as int] == name);
    assert(room_ok(s.users, r2, s.next_room)) by {
        assert forall|i: int, j: int|
            0 <= i < r2.banned.len() && 0 <= j < r2.banned.len() && i != j implies r2.banned[i]
            != r2.banned[j] by {
            if i < r.banned.len() && j < r.banned.len() {
                assert(r.banned[i] != r.banned[j]);
            } else if i < r.banned.len() {
                assert(r.banned[i] != name);
            } else {
                assert(r.banned[j] != name);
            }
        }
        lemma_names_differ(s.users, r.admin, user);
        assert(!r2.banned.contains(name_of(s.users, r.admin))) by {
            if r2.banned.contains(name_of(s.users, r.admin)) {
                let k = choose|k: int|
                    0 <= k < r2.banned.len() && r2.banned[k] == name_of(s.users, r.admin);
                if k < r.banned.len() {
                    assert(r.banned[k] == name_of(s.users, r.admin));
                }
            }
        }
        assert forall|k: int| 0 <= k < r2.members.len() implies member_ok(
            s.users,
            r2,
            #[trigger] r2.members[k],
        ) by {
            let m = r.members[k];
            assert(member_ok(s.users, r, m));
            lemma_names_differ(s.users, m, user);
            if r2.banned.contains(name_of(s.users, m)) {
                let i = choose|i: int| 0 <= i < r2.banned.len() && r2.banned[i] == name_of(
                    s.users,
                    m,
                );
                if i < r.banned.len() {
                    assert(r.banned[i] == name_of(s.users, m));
                }
            }
        }
    }
    lemma_room_update_wf(s, room, r2);
}

/// Two connected users with different identifiers have different names.
pub proof fn lemma_names_differ(users: Seq<UserEntry>, a: i64, b: i64)
    requires
        distinct_users(users),
        knows_user(users, a),
        knows_user(users, b),
        a != b,
    ensures
        name_of(users, a) != name_of(users, b),
{
    let p = user_pos(users, a);
    let q = user_pos(users, b);
    if p < q {
        assert(users[p].name != users[q].name);
    } else if q < p {
        assert(users[q].name != users[p].name);
    }
}

pub proof fn lemma_without_user_wf(s: State, id: i64)
    requires
        s.wf(),
    ensures
        s.without_user(id).wf(),
        !s.without_user(id).has_user(id),
        forall|other: i64|
            other != id ==> s.without_user(id).has_user(other) == s.has_user(other) && (s.has_user(
                other,
            ) ==> s.without_user(id).user(other) == s.user(other)),
        forall|room: i64|
            s.has_room(room) && s.room(room).admin != id && s.has_user(id) ==> s.without_user(
                id,
            ).has_room(room) && s.without_user(id).room(room) == room_without(s.room(room), id),
        forall|room: i64, name: Seq<char>|
            s.without_user(id).name_banned(room, name) ==> s.name_banned(room, name),
{
    let t = s.without_user(id);
    if s.has_user(id) {
        let p = user_pos(s.users, id);
        let keep = not_admin(id);
        let strip = strip_member(id);
        let kept = s.rooms.filter(keep);
        let m = lemma_filter_origin(s.rooms, keep);
        assert(t.rooms == kept.map_values(strip));
        assert(t.users == s.users.remove(p));
        assert(distinct_users(t.users)) by {
            assert forall|i: int, j: int| 0 <= i < j < t.users.len() implies (
            #[trigger] t.users[i]).id != (#[trigger] t.users[j]).id && t.users[i].name
                != t.users[j].name by {
                let a = if i < p {
                    i
                } else {
                    i + 1
                };
                let b = if j < p {
                    j
                } else {
                    j + 1
                };
                assert(s.users[a].id != s.users[b].id);
            }
        }
        assert forall|i: int| 0 <= i < t.users.len() implies 0 < (#[trigger] t.users[i]).id
            < t.next_user by {
            let a = if i < p {
                i
            } else {
                i + 1
            };
            assert(0 < s.users[a].id < s.next_user);
        }
        assert forall|other: i64| other != id implies t.has_user(other) == s.has_user(other) && (
        s.has_user(other) ==> t.user(other) == s.user(other)) by {
            if s.has_user(other) {
                let q = user_pos(s.users, other);
                let b = if q < p {
                    q
                } else {
                    q - 1
                };
                assert(t.users[b] == s.users[q]);
                lemma_user_at(t.users, b);
            }
            if t.has_user(other) {
                let q = user_pos(t.users, other);
                let a = if q < p {
                    q
                } else {
                    q + 1
                };
                assert(s.users[a] == t.users[q]);
                lemma_user_at(s.users, a);
            }
        }
        assert(!t.has_user(id)) by {
            if t.has_user(id) {
                let q = user_pos(t.users, id);
                let a = if q < p {
                    q
                } else {
                    q + 1
                };
                assert(s.users[a].id == id);
                lemma_user_at(s.users, a);
            }
        }
        assert(distinct_rooms(t.rooms)) by {
            assert forall|i: int, j: int| 0 <= i < j < t.rooms.len() implies (
            #[trigger] t.rooms[i]).id != (#[trigger] t.rooms[j]).id && t.rooms[i].name
                != t.rooms[j].name by {
                assert(m[i] < m[j]);
                assert(s.rooms[m[i]].id != s.rooms[m[j]].id);
            }
        }
        assert forall|i: int| 0 <= i < t.rooms.len() implies room_ok(
            t.users,
            #[trigger] t.rooms[i],
            t.next_room,
        ) by {
            let r = s.rooms[m[i]];
            let r2 = t.rooms[i];
            assert(kept[i] == r);
            assert(r2 == strip(r));
            assert(room_ok(s.users, r, s.next_room));
            lemma_room_without_ok(s.users, r, id, s.next_room);
            assert(t.has_user(r.admin) && t.user(r.admin) == s.user(r.admin));
            assert forall|k: int| 0 <= k < r2.members.len() implies member_ok(
                t.users,
                r2,
                #[trigger] r2.members[k],
            ) by {
                let u = r2.members[k];
                assert(r2.members.contains(u));
                assert(member_ok(s.users, r2, u));
                assert(t.has_user(u) && t.user(u) == s.user(u));
            }
        }
        assert forall|room: i64| s.has_room(room) && s.room(room).admin != id implies t.has_room(
            room,
        ) && t.room(room) == room_without(s.room(room), id) by {
            let q = room_pos(s.rooms, room);
            assert(keep(s.rooms[q]));
            assert(m.contains(q));
            let i = choose|i: int| 0 <= i < m.len() && m[i] == q;
            assert(kept[i] == s.rooms[q]);
            assert(t.rooms[i] == strip(s.rooms[q]));
            lemma_room_at(t.rooms, i);
        }
        assert forall|room: i64, name: Seq<char>| t.name_banned(room, name) implies s.name_banned(
            room,
            name,
        ) by {
            let i = room_pos(t.rooms, room);
            assert(kept[i] == s.rooms[m[i]]);
            assert(t.rooms[i] == strip(s.rooms[m[i]]));
            lemma_room_at(s.rooms, m[i]);
        }
    } else {
        assert forall|room: i64, name: Seq<char>| t.name_banned(room, name) implies s.name_banned(
            room,
            name,
        ) by {}
    }
}

} // verus!

//! The state of the chat service as mathematics: users with their mailboxes,
//! rooms with their members and bans, and the steps that change them.
//!
//! Everything here is specification. The store in `db` keeps a value of
//! `State` as its view, and each of its operations is one of these steps.

use vstd::prelude::*;

verus! {

/// A connected user: its identity, its name and the messages that wait for it,
/// oldest first.
pub struct UserEntry {
    pub id: i64,
    pub name: Seq<char>,
    pub inbox: Seq<Seq<char>>,
}

/// A room. The admin is a member without being listed in `members`; `banned`
/// holds the names that may not join.
pub struct RoomEntry {
    pub id: i64,
    pub name: Seq<char>,
    pub private: bool,
    pub pass: Seq<char>,
    pub admin: i64,
    pub members: Seq<i64>,
    pub banned: Seq<Seq<char>>,
}

/// Users and rooms in the order in which they were created, and the
/// identifiers that the next user and the next room will get.
pub struct State {
    pub users: Seq<UserEntry>,
    pub rooms: Seq<RoomEntry>,
    pub next_user: i64,
    pub next_room: i64,
}

pub open spec fn knows_user(users: Seq<UserEntry>, id: i64) -> bool {
    exists|i: int| 0 <= i < users.len() && (#[trigger] users[i]).id == id
}

pub open spec fn user_pos(users: Seq<UserEntry>, id: i64) -> int {
    choose|i: int| 0 <= i < users.len() && (#[trigger] users[i]).id == id
}

pub open spec fn knows_user_name(users: Seq<UserEntry>, name: Seq<char>) -> bool {
    exists|i: int| 0 <= i < users.len() && (#[trigger] users[i]).name == name
}

pub open spec fn user_name_pos(users: Seq<UserEntry>, name: Seq<char>) -> int {
    choose|i: int| 0 <= i < users.len() && (#[trigger] users[i]).name == name
}

pub open spec fn knows_room(rooms: Seq<RoomEntry>, id: i64) -> bool {
    exists|i: int| 0 <= i < rooms.len() && (#[trigger] rooms[i]).id == id
}

pub open spec fn room_pos(rooms: Seq<RoomEntry>, id: i64) -> int {
    choose|i: int| 0 <= i < rooms.len() && (#[trigger] rooms[i]).id == id
}

pub open spec fn knows_room_name(rooms: Seq<RoomEntry>, name: Seq<char>) -> bool {
    exists|i: int| 0 <= i < rooms.len() && (#[trigger] rooms[i]).name == name
}

pub open spec fn room_name_pos(rooms: Seq<RoomEntry>, name: Seq<char>) -> int {
    choose|i: int| 0 <= i < rooms.len() && (#[trigger] rooms[i]).name == name
}

/// No two users share an identifier or a name.
pub open spec fn distinct_users(users: Seq<UserEntry>) -> bool {
    forall|i: int, j: int|
        0 <= i < j < users.len() ==> (#[trigger] users[i]).id != (#[trigger] users[j]).id
            && users[i].name != users[j].name
}

/// No two rooms share an identifier or a name.
pub open spec fn distinct_rooms(rooms: Seq<RoomEntry>) -> bool {
    forall|i: int, j: int|
        0 <= i < j < rooms.len() ==> (#[trigger] rooms[i]).id != (#[trigger] rooms[j]).id
            && rooms[i].name != rooms[j].name
}

/// The name that user `id` has in `users`.
pub open spec fn name_of(users: Seq<UserEntry>, id: i64) -> Seq<char> {
    users[user_pos(users, id)].name
}

/// What must hold of one who is listed as a member of `r`.
pub open spec fn member_ok(users: Seq<UserEntry>, r: RoomEntry, u: i64) -> bool {
    &&& knows_user(users, u)
    &&& u != r.admin
    &&& !r.banned.contains(name_of(users, u))
}

/// What must hold of each room, given the users that are connected.
pub open spec fn room_ok(users: Seq<UserEntry>, r: RoomEntry, next_room: i64) -> bool {
    &&& 0 < r.id < next_room
    &&& r.private ==> r.pass.len() > 0
    &&& knows_user(users, r.admin)
    &&& r.members.no_duplicates()
    &&& forall|k: int| 0 <= k < r.members.len() ==> member_ok(users, r, #[trigger] r.members[k])
    &&& r.banned.no_duplicates()
    &&& !r.banned.contains(name_of(users, r.admin))
}

/// Holds of the rooms that `id` does not administer.
pub open spec fn not_admin(id: i64) -> spec_fn(RoomEntry) -> bool {
    |r: RoomEntry| r.admin != id
}

/// Holds of the rooms that `id` administers.
pub open spec fn admin_is(id: i64) -> spec_fn(RoomEntry) -> bool {
    |r: RoomEntry| r.admin == id
}

/// Holds of the rooms that list `id` as a member.
pub open spec fn lists_member(id: i64) -> spec_fn(RoomEntry) -> bool {
    |r: RoomEntry| r.members.contains(id)
}

/// Holds of the rooms that are not private.
pub open spec fn is_public() -> spec_fn(RoomEntry) -> bool {
    |r: RoomEntry| !r.private
}

/// A list of members with `id` taken off.
pub open spec fn drop_member(members: Seq<i64>, id: i64) -> Seq<i64> {
    if members.contains(id) {
        members.remove(members.index_of(id))
    } else {
        members
    }
}

/// The room `r` with `id` taken off its list of members.
pub open spec fn room_without(r: RoomEntry, id: i64) -> RoomEntry {
    RoomEntry { members: drop_member(r.members, id), ..r }
}

/// Takes `id` off the list of members of a room.
pub open spec fn strip_member(id: i64) -> spec_fn(RoomEntry) -> RoomEntry {
    |r: RoomEntry| room_without(r, id)
}

/// The name of a room.
pub open spec fn room_name() -> spec_fn(RoomEntry) -> Seq<char> {
    |r: RoomEntry| r.name
}

/// The name that an identifier has in `users`.
pub open spec fn name_in(users: Seq<UserEntry>) -> spec_fn(i64) -> Seq<char> {
    |u: i64| name_of(users, u)
}

/// What a list of rooms tells of a room: its identifier, its admin and its
/// name.
pub open spec fn summary() -> spec_fn(RoomEntry) -> (i64, i64, Seq<char>) {
    |r: RoomEntry| (r.id, r.admin, r.name)
}

/// The message `body` added to the mailbox of `u` where `take` holds.
pub open spec fn deliver(u: UserEntry, take: bool, body: Seq<char>) -> UserEntry {
    if take {
        UserEntry { inbox: u.inbox.push(body), ..u }
    } else {
        u
    }
}

impl State {
    /// The state of a service that nobody has connected to yet.
    pub open spec fn initial() -> State {
        State { users: Seq::empty(), rooms: Seq::empty(), next_user: 1, next_room: 1 }
    }

    /// The invariant of the store.
    ///
    /// Identifiers are positive and below the next one to be given. Users have
    /// distinct identifiers and distinct names, and so have rooms. A private
    /// room has a password. The admin of a room is connected, is not listed
    /// among its members and is not banned from it. Each listed member is
    /// connected, listed once and not banned; each banned name is listed once.
    pub open spec fn wf(self) -> bool {
        &&& 0 < self.next_user
        &&& 0 < self.next_room
        &&& forall|i: int|
            0 <= i < self.users.len() ==> 0 < (#[trigger] self.users[i]).id < self.next_user
        &&& distinct_users(self.users)
        &&& forall|i: int|
            0 <= i < self.rooms.len() ==> room_ok(
                self.users,
                #[trigger] self.rooms[i],
                self.next_room,
            )
        &&& distinct_rooms(self.rooms)
    }

    pub open spec fn has_user(self, id: i64) -> bool {
        knows_user(self.users, id)
    }

    /// The entry of user `id`; meaningful where `has_user(id)`.
    pub open spec fn user(self, id: i64) -> UserEntry {
        self.users[user_pos(self.users, id)]
    }

    pub open spec fn has_user_named(self, name: Seq<char>) -> bool {
        knows_user_name(self.users, name)
    }

    /// The identifier of the connected user called `name`.
    pub open spec fn user_id(self, name: Seq<char>) -> Option<i64> {
        if knows_user_name(self.users, name) {
            Some(self.users[user_name_pos(self.users, name)].id)
        } else {
            None
        }
    }

    pub open spec fn has_room(self, id: i64) -> bool {
        knows_room(self.rooms, id)
    }

    /// The entry of room `id`; meaningful where `has_room(id)`.
    pub open spec fn room(self, id: i64) -> RoomEntry {
        self.rooms[room_pos(self.rooms, id)]
    }

    pub open spec fn has_room_named(self, name: Seq<char>) -> bool {
        knows_room_name(self.rooms, name)
    }

    /// The room called `name`.
    pub open spec fn room_named(self, name: Seq<char>) -> Option<RoomEntry> {
        if knows_room_name(self.rooms, name) {
            Some(self.rooms[room_name_pos(self.rooms, name)])
        } else {
            None
        }
    }

    /// Whether `user` is in `room`, as its admin or as a listed member.
    pub open spec fn is_member(self, room: i64, user: i64) -> bool {
        self.has_room(room) && (self.room(room).admin == user || self.room(room).members.contains(
            user,
        ))
    }

    /// Whether the name of `user` is banned from `room`.
    pub open spec fn is_banned(self, room: i64, user: i64) -> bool {
        self.has_room(room) && self.has_user(user) && self.room(room).banned.contains(
            self.user(user).name,
        )
    }

    /// Whether `name` is banned from `room`, connected or not.
    pub open spec fn name_banned(self, room: i64, name: Seq<char>) -> bool {
        self.has_room(room) && self.room(room).banned.contains(name)
    }

    /// The messages that wait for `user`, oldest first.
    pub open spec fn inbox(self, user: i64) -> Seq<Seq<char>> {
        if self.has_user(user) {
            self.user(user).inbox
        } else {
            Seq::empty()
        }
    }

    /// The members of `room`: its admin, then the others in the order in
    /// which they joined.
    pub open spec fn member_ids(self, room: i64) -> Seq<i64> {
        if self.has_room(room) {
            seq![self.room(room).admin] + self.room(room).members
        } else {
            Seq::empty()
        }
    }

    /// The names of the members of `room`, in the order of `member_ids`.
    pub open spec fn member_names(self, room: i64) -> Seq<Seq<char>> {
        self.member_ids(room).map_values(name_in(self.users))
    }

    /// The rooms that are not private, oldest first.
    pub open spec fn public_rooms(self) -> Seq<RoomEntry> {
        self.rooms.filter(is_public())
    }

    /// The rooms in which `user` is a listed member, oldest first.
    pub open spec fn rooms_joined(self, user: i64) -> Seq<RoomEntry> {
        self.rooms.filter(lists_member(user))
    }

    /// The rooms that `user` administers, oldest first.
    pub open spec fn rooms_owned(self, user: i64) -> Seq<RoomEntry> {
        self.rooms.filter(admin_is(user))
    }

    pub open spec fn can_add_user(self, name: Seq<char>) -> bool {
        !self.has_user_named(name) && self.next_user < i64::MAX
    }

    /// A new user called `name` connects and gets the next identifier.
    pub open spec fn with_user(self, name: Seq<char>) -> State {
        State {
            users: self.users.push(UserEntry { id: self.next_user, name, inbox: Seq::empty() }),
            next_user: (self.next_user + 1) as i64,
            ..self
        }
    }

    /// User `id` goes: its mailbox goes with it, it leaves the rooms it was
    /// in, and the rooms that it administers are closed. Bans of its name
    /// stay.
    pub open spec fn without_user(self, id: i64) -> State {
        if self.has_user(id) {
            State {
                users: self.users.remove(user_pos(self.users, id)),
                rooms: self.rooms.filter(not_admin(id)).map_values(strip_member(id)),
                ..self
            }
        } else {
            self
        }
    }

    pub open spec fn can_add_room(
        self,
        name: Seq<char>,
        private: bool,
        pass: Seq<char>,
        admin: i64,
    ) -> bool {
        &&& !self.has_room_named(name)
        &&& !(private && pass.len() == 0)
        &&& self.has_user(admin)
        &&& self.next_room < i64::MAX
    }

    /// A new room, with `admin` as its only member.
    pub open spec fn with_room(
        self,
        name: Seq<char>,
        private: bool,
        pass: Seq<char>,
        admin: i64,
    ) -> State {
        State {
            rooms: self.rooms.push(
                RoomEntry {
                    id: self.next_room,
                    name,
                    private,
                    pass,
                    admin,
                    members: Seq::empty(),
                    banned: Seq::empty(),
                },
            ),
            next_room: (self.next_room + 1) as i64,
            ..self
        }
    }

    /// Room `id` is closed: its members and its bans go with it.
    pub open spec fn without_room(self, id: i64) -> State {
        if self.has_room(id) {
            State { rooms: self.rooms.remove(room_pos(self.rooms, id)), ..self }
        } else {
            self
        }
    }

    pub open spec fn can_add_member(self, room: i64, user: i64) -> bool {
        &&& self.has_room(room)
        &&& self.has_user(user)
        &&& !self.is_member(room, user)
        &&& !self.is_banned(room, user)
    }

    /// `user` is listed as the newest member of `room`.
    pub open spec fn with_member(self, room: i64, user: i64) -> State {
        let r = self.room(room);
        State {
            rooms: self.rooms.update(
                room_pos(self.rooms, room),
                RoomEntry { members: r.members.push(user), ..r },
            ),
            ..self
        }
    }

    pub open spec fn can_remove_member(self, room: i64, user: i64) -> bool {
        self.has_room(room) && self.room(room).members.contains(user)
    }

    /// `user` is no longer listed as a member of `room`.
    pub open spec fn without_member(self, room: i64, user: i64) -> State {
        State {
            rooms: self.rooms.update(
                room_pos(self.rooms, room),
                room_without(self.room(room), user),
            ),
            ..self
        }
    }

    pub open spec fn can_ban(self, room: i64, user: i64) -> bool {
        &&& self.has_room(room)
        &&& self.has_user(user)
        &&& !self.is_member(room, user)
        &&& !self.is_banned(room, user)
    }

    /// The name of `user` is banned from `room`.
    pub open spec fn with_ban(self, room: i64, user: i64) -> State {
        let r = self.room(room);
        State {
            rooms: self.rooms.update(
                room_pos(self.rooms, room),
                RoomEntry { banned: r.banned.push(self.user(user).name), ..r },
            ),
            ..self
        }
    }

    /// `body` is put last into the mailbox of `user`, if `user` is connected.
    pub open spec fn with_mail(self, user: i64, body: Seq<char>) -> State {
        State { users: self.users.map_values(|u: UserEntry| deliver(u, u.id == user, body)), ..self }
    }

    /// The mailbox of `user` is emptied.
    pub open spec fn without_mail(self, user: i64) -> State {
        State {
            users: self.users.map_values(
                |u: UserEntry|
                    if u.id == user {
                        UserEntry { inbox: Seq::empty(), ..u }
                    } else {
                        u
                    },
            ),
            ..self
        }
    }

    /// Whether a message sent to `room` reaches `user` when `except0` and
    /// `except1` are left out.
    pub open spec fn receives(self, room: i64, user: i64, except0: i64, except1: i64) -> bool {
        self.is_member(room, user) && user != except0 && user != except1
    }

    /// `body` is put last into the mailbox of each member of `room` but
    /// `except0` and `except1`.
    pub open spec fn broadcast(
        self,
        room: i64,
        body: Seq<char>,
        except0: i64,
        except1: i64,
    ) -> State {
        State {
            users: self.users.map_values(
                |u: UserEntry| deliver(u, self.receives(room, u.id, except0, except1), body),
            ),
            ..self
        }
    }
}

} // verus!

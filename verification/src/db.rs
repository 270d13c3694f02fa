//! The store of users, rooms, memberships, bans and mailboxes that all
//! sessions share.
//!
//! A `Store` keeps its tables in memory. Its view is a `State` of `model`, and
//! every operation here is one step of that model, taken only where the step
//! is allowed. `User` and `Room` are the handles through which the sessions
//! work on it.

use crate::lemmas::{lemma_mail_step_wf, lemma_room_at, lemma_user_at};
use crate::model::{
    admin_is, deliver, drop_member, is_public, lists_member, member_ok, name_in, not_admin,
    room_name, room_name_pos, room_ok, room_pos, room_without, strip_member, summary,
    user_name_pos, user_pos, RoomEntry, State, UserEntry,
};
use crate::steps::{
    lemma_with_ban_wf, lemma_with_member_wf, lemma_with_room_wf, lemma_with_user_wf,
    lemma_without_member_wf, lemma_without_room_wf, lemma_without_user_wf,
};
use vstd::prelude::*;

verus! {

/// The characters of a piece of text.
pub open spec fn text_of() -> spec_fn(String) -> Seq<char> {
    |s: String| s@
}

/// The characters of each piece of text in a list.
pub open spec fn texts(v: Seq<String>) -> Seq<Seq<char>> {
    v.map_values(text_of())
}

pub proof fn lemma_texts_push(v: Seq<String>, s: String)
    ensures
        texts(v.push(s)) == texts(v).push(s@),
{
    assert(texts(v.push(s)) =~= texts(v).push(s@));
}

/// For a sequence cut after `i + 1` items: what `filter` keeps of it, told
/// from what it keeps of the first `i`.
pub proof fn lemma_filter_step<A>(s: Seq<A>, p: spec_fn(A) -> bool, i: int)
    requires
        0 <= i < s.len(),
    ensures
        s.take(i + 1).filter(p) == if p(s[i]) {
            s.take(i).filter(p).push(s[i])
        } else {
            s.take(i).filter(p)
        },
{
    reveal(Seq::filter);
    assert(s.take(i + 1).drop_last() =~= s.take(i));
}

struct UserRow {
    id: i64,
    name: String,
    inbox: Vec<String>,
}

struct RoomRow {
    id: i64,
    name: String,
    private: bool,
    pass: String,
    admin: i64,
    members: Vec<i64>,
    banned: Vec<String>,
}

spec fn user_entry(r: UserRow) -> UserEntry {
    UserEntry { id: r.id, name: r.name@, inbox: texts(r.inbox@) }
}

spec fn room_entry(r: RoomRow) -> RoomEntry {
    RoomEntry {
        id: r.id,
        name: r.name@,
        private: r.private,
        pass: r.pass@,
        admin: r.admin,
        members: r.members@,
        banned: texts(r.banned@),
    }
}

spec fn user_entries(rows: Seq<UserRow>) -> Seq<UserEntry> {
    rows.map_values(|r: UserRow| user_entry(r))
}

spec fn room_entries(rows: Seq<RoomRow>) -> Seq<RoomEntry> {
    rows.map_values(|r: RoomRow| room_entry(r))
}

/// The shared store. It starts empty and changes only through the
/// operations of `User` and `Room`.
pub struct Store {
    users: Vec<UserRow>,
    rooms: Vec<RoomRow>,
    next_user: i64,
    next_room: i64,
}

impl View for Store {
    type V = State;

    closed spec fn view(&self) -> State {
        State {
            users: user_entries(self.users@),
            rooms: room_entries(self.rooms@),
            next_user: self.next_user,
            next_room: self.next_room,
        }
    }
}

/// Whether `id` is in `v`, and where.
fn position_of(v: &Vec<i64>, id: i64) -> (r: Option<usize>)
    ensures
        match r {
            Some(i) => i < v.len() && v[i as int] == id,
            None => !v@.contains(id),
        },
{
    let mut i: usize = 0;
    while i < v.len()
        invariant
            i <= v.len(),
            forall|j: int| 0 <= j < i ==> v[j] != id,
        decreases v.len() - i,
    {
        if v[i] == id {
            return Some(i);
        }
        i += 1;
    }
    None
}

/// Takes `id` off a list that holds nothing twice.
fn remove_id(v: &mut Vec<i64>, id: i64) -> (removed: bool)
    requires
        old(v)@.no_duplicates(),
    ensures
        final(v)@ == drop_member(old(v)@, id),
        removed == old(v)@.contains(id),
{
    match position_of(v, id) {
        Some(i) => {
            proof {
                let p = v@.index_of(id);
                assert(v@[i as int] == id);
                assert(0 <= p < v.len() && v@[p] == id);
            }
            v.remove(i);
            true
        },
        None => false,
    }
}

/// Whether `t` is among the texts of `v`.
fn holds_text(v: &Vec<String>, t: &String) -> (r: bool)
    ensures
        r == texts(v@).contains(t@),
{
    let mut i: usize = 0;
    while i < v.len()
        invariant
            i <= v.len(),
            forall|j: int| 0 <= j < i ==> texts(v@)[j] != t@,
        decreases v.len() - i,
    {
        if v[i] == *t {
            assert(texts(v@)[i as int] == t@);
            return true;
        }
        i += 1;
    }
    false
}

impl Store {
    /// A store without users and rooms.
    pub fn new() -> (db: Store)
        ensures
            db@ == State::initial(),
            db@.wf(),
    {
        let db = Store { users: Vec::new(), rooms: Vec::new(), next_user: 1, next_room: 1 };
        assert(db@.users =~= Seq::empty());
        assert(db@.rooms =~= Seq::empty());
        db
    }

    fn find_user(&self, id: i64) -> (r: Option<usize>)
        requires
            self@.wf(),
        ensures
            match r {
                Some(i) => i < self.users.len() && self.users[i as int].id == id
                    && self@.has_user(id) && user_pos(self@.users, id) == i,
                None => !self@.has_user(id),
            },
    {
        let mut i: usize = 0;
        while i < self.users.len()
            invariant
                self@.wf(),
                i <= self.users.len(),
                forall|j: int| 0 <= j < i ==> (#[trigger] self@.users[j]).id != id,
            decreases self.users.len() - i,
        {
            if self.users[i].id == id {
                proof {
                    assert(self@.users[i as int].id == id);
                    lemma_user_at(self@.users, i as int);
                }
                return Some(i);
            }
            i += 1;
        }
        None
    }

    fn find_user_named(&self, name: &str) -> (r: Option<usize>)
        requires
            self@.wf(),
        ensures
            match r {
                Some(i) => i < self.users.len() && self.users[i as int].name@ == name@
                    && self@.has_user_named(name@) && user_name_pos(self@.users, name@) == i,
                None => !self@.has_user_named(name@),
            },
    {
        let key = name.to_owned();
        let mut i: usize = 0;
        while i < self.users.len()
            invariant
                self@.wf(),
                i <= self.users.len(),
                key@ == name@,
                forall|j: int| 0 <= j < i ==> (#[trigger] self@.users[j]).name != name@,
            decreases self.users.len() - i,
        {
            if self.users[i].name == key {
                proof {
                    assert(self@.users[i as int].name == name@);
                    lemma_user_at(self@.users, i as int);
                }
                return Some(i);
            }
            i += 1;
        }
        None
    }

    fn find_room(&self, id: i64) -> (r: Option<usize>)
        requires
            self@.wf(),
        ensures
            match r {
                Some(i) => i < self.rooms.len() && self.rooms[i as int].id == id
                    && self@.has_room(id) && room_pos(self@.rooms, id) == i,
                None => !self@.has_room(id),
            },
    {
        let mut i: usize = 0;
        while i < self.rooms.len()
            invariant
                self@.wf(),
                i <= self.rooms.len(),
                forall|j: int| 0 <= j < i ==> (#[trigger] self@.rooms[j]).id != id,
            decreases self.rooms.len() - i,
        {
            if self.rooms[i].id == id {
                proof {
                    assert(self@.rooms[i as int].id == id);
                    lemma_room_at(self@.rooms, i as int);
                }
                return Some(i);
            }
            i += 1;
        }
        None
    }

    fn find_room_named(&self, name: &str) -> (r: Option<usize>)
        requires
            self@.wf(),
        ensures
            match r {
                Some(i) => i < self.rooms.len() && self.rooms[i as int].name@ == name@
                    && self@.has_room_named(name@) && room_name_pos(self@.rooms, name@) == i,
                None => !self@.has_room_named(name@),
            },
    {
        let key = name.to_owned();
        let mut i: usize = 0;
        while i < self.rooms.len()
            invariant
                self@.wf(),
                i <= self.rooms.len(),
                key@ == name@,
                forall|j: int| 0 <= j < i ==> (#[trigger] self@.rooms[j]).name != name@,
            decreases self.rooms.len() - i,
        {
            if self.rooms[i].name == key {
                proof {
                    assert(self@.rooms[i as int].name == name@);
                    lemma_room_at(self@.rooms, i as int);
                }
                return Some(i);
            }
            i += 1;
        }
        None
    }
}

/// A connected user, as the session that serves it knows it.
pub struct User {
    pub id: i64,
    pub name: String,
}

impl User {
    /// Connects a user called `name` and gives its identifier; `None` where
    /// the name is taken or no identifier is left.
    pub fn create(db: &mut Store, name: &str) -> (r: Option<i64>)
        requires
            old(db)@.wf(),
        ensures
            final(db)@.wf(),
            match r {
                Some(id) => old(db)@.can_add_user(name@) && id == old(db)@.next_user && final(db)@
                    == old(db)@.with_user(name@),
                None => !old(db)@.can_add_user(name@) && final(db)@ == old(db)@,
            },
    {
        if db.next_user == i64::MAX {
            return None;
        }
        if db.find_user_named(name).is_some() {
            return None;
        }
        let id = db.next_user;
        db.users.push(UserRow { id, name: name.to_owned(), inbox: Vec::new() });
        db.next_user = id + 1;
        proof {
            lemma_with_user_wf(old(db)@, name@);
            assert(texts(db.users@.last().inbox@) =~= Seq::<Seq<char>>::empty());
            assert(db@.users =~= old(db)@.with_user(name@).users);
        }
        Some(id)
    }

    /// Disconnects this user: see `State::without_user`.
    pub fn delete_cascade(&self, db: &mut Store)
        requires
            old(db)@.wf(),
        ensures
            final(db)@.wf(),
            final(db)@ == old(db)@.without_user(self.id),
    {
        let id = self.id;
        let ghost s0 = db@;
        proof {
            lemma_without_user_wf(s0, id);
        }
        match db.find_user(id) {
            None => {},
            Some(p) => {
                db.users.remove(p);
                assert(user_entries(db.users@) =~= s0.users.remove(p as int));
                let ghost rooms0 = s0.rooms;
                let ghost mut k: int = 0;
                let mut i: usize = 0;
                assert(rooms0.take(0).filter(not_admin(id)) =~= Seq::empty()) by {
                    reveal(Seq::filter);
                }
                assert(room_entries(db.rooms@) =~= rooms0.take(0).filter(not_admin(id)).map_values(
                    strip_member(id),
                ) + rooms0.skip(0));
                while i < db.rooms.len()
                    invariant
                        0 <= k <= rooms0.len(),
                        i <= db.rooms.len(),
                        i == rooms0.take(k).filter(not_admin(id)).len(),
                        room_entries(db.rooms@) == rooms0.take(k).filter(not_admin(id)).map_values(
                            strip_member(id),
                        ) + rooms0.skip(k),
                        forall|j: int|
                            0 <= j < rooms0.len() ==> (#[trigger] rooms0[j]).members.no_duplicates(),
                        p < s0.users.len(),
                        user_entries(db.users@) == s0.users.remove(p as int),
                        db.next_user == s0.next_user,
                        db.next_room == s0.next_room,
                    decreases rooms0.len() - k,
                {
                    let ghost before = room_entries(db.rooms@);
                    let ghost kept = rooms0.take(k).filter(not_admin(id));
                    assert(before[i as int] == rooms0.skip(k)[0]);
                    assert(k < rooms0.len());
                    assert(room_entry(db.rooms@[i as int]) == rooms0[k]);
                    proof {
                        lemma_filter_step(rooms0, not_admin(id), k);
                    }
                    if db.rooms[i].admin == id {
                        db.rooms.remove(i);
                        assert(room_entries(db.rooms@) =~= before.remove(i as int));
                        assert(before.remove(i as int) =~= kept.map_values(strip_member(id))
                            + rooms0.skip(k + 1));
                    } else {
                        remove_id(&mut db.rooms[i].members, id);
                        assert(room_entry(db.rooms@[i as int]) == room_without(rooms0[k], id));
                        assert(room_entries(db.rooms@) =~= before.update(
                            i as int,
                            room_without(rooms0[k], id),
                        ));
                        assert(before.update(i as int, room_without(rooms0[k], id)) =~= kept.push(
                            rooms0[k],
                        ).map_values(strip_member(id)) + rooms0.skip(k + 1));
                        i += 1;
                    }
                    proof {
                        k = k + 1;
                    }
                }
                assert(k == rooms0.len());
                assert(rooms0.take(k) =~= rooms0);
                assert(room_entries(db.rooms@) =~= rooms0.filter(not_admin(id)).map_values(
                    strip_member(id),
                ));
            },
        }
    }

    /// The connected user with identifier `id`.
    pub fn get(db: &Store, id: i64) -> (r: Option<User>)
        requires
            db@.wf(),
        ensures
            match r {
                Some(u) => db@.has_user(id) && u.id == id && u.name@ == db@.user(id).name,
                None => !db@.has_user(id),
            },
    {
        match db.find_user(id) {
            Some(i) => {
                assert(db@.users[i as int] == user_entry(db.users@[i as int]));
                Some(User { id, name: db.users[i].name.clone() })
            },
            None => None,
        }
    }

    /// The identifier of the connected user called `name`.
    pub fn get_id(db: &Store, name: &str) -> (r: Option<i64>)
        requires
            db@.wf(),
        ensures
            r == db@.user_id(name@),
    {
        match db.find_user_named(name) {
            Some(i) => {
                assert(db@.users[i as int].id == db.users[i as int].id);
                Some(db.users[i].id)
            },
            None => None,
        }
    }

    /// Puts `msg` last into the mailbox of `user_id`; does nothing where no
    /// such user is connected.
    pub fn send_to(db: &mut Store, user_id: i64, msg: &str)
        requires
            old(db)@.wf(),
        ensures
            final(db)@.wf(),
            final(db)@ == old(db)@.with_mail(user_id, msg@),
    {
        let ghost s0 = db@;
        match db.find_user(user_id) {
            Some(p) => {
                db.users[p].inbox.push(msg.to_owned());
                proof {
                    lemma_texts_push(old(db).users[p as int].inbox@, db.users[p as int].inbox@.last());
                    assert(db.users[p as int].inbox@ =~= old(db).users[p as int].inbox@.push(
                        db.users[p as int].inbox@.last(),
                    ));
                    assert forall|j: int| 0 <= j < s0.users.len() implies db@.users[j] == deliver(
                        s0.users[j],
                        s0.users[j].id == user_id,
                        msg@,
                    ) by {
                        if j != p {
                            lemma_user_at(s0.users, j);
                        }
                    }
                    assert(db@.users =~= s0.with_mail(user_id, msg@).users);
                    assert(db@.rooms == s0.rooms);
                }
            },
            None => {
                proof {
                    assert forall|j: int| 0 <= j < s0.users.len() implies s0.users[j] == deliver(
                        s0.users[j],
                        s0.users[j].id == user_id,
                        msg@,
                    ) by {
                        assert(s0.users[j].id != user_id);
                    }
                    assert(db@.users =~= s0.with_mail(user_id, msg@).users);
                }
            },
        }
        proof {
            lemma_mail_step_wf(s0, db@);
        }
    }

    /// Takes the messages that wait for `user_id` out of its mailbox, oldest
    /// first.
    pub fn drain_msgs(db: &mut Store, user_id: i64) -> (msgs: Vec<String>)
        requires
            old(db)@.wf(),
        ensures
            final(db)@.wf(),
            texts(msgs@) == old(db)@.inbox(user_id),
            final(db)@ == old(db)@.without_mail(user_id),
    {
        let ghost s0 = db@;
        let mut msgs: Vec<String> = Vec::new();
        match db.find_user(user_id) {
            Some(p) => {
                core::mem::swap(&mut msgs, &mut db.users[p].inbox);
                proof {
                    assert(texts(db.users[p as int].inbox@) =~= Seq::<Seq<char>>::empty());
                    assert forall|j: int| 0 <= j < s0.users.len() implies db@.users[j] == (if s0.users[j].id
                        == user_id {
                        UserEntry { inbox: Seq::empty(), ..s0.users[j] }
                    } else {
                        s0.users[j]
                    }) by {
                        if j != p {
                            lemma_user_at(s0.users, j);
                        }
                    }
                    assert(db@.users =~= s0.without_mail(user_id).users);
                    assert(db@.rooms == s0.rooms);
                }
            },
            None => {
                proof {
                    assert(texts(msgs@) =~= Seq::<Seq<char>>::empty());
                    assert forall|j: int| 0 <= j < s0.users.len() implies s0.users[j].id
                        != user_id by {}
                    assert(db@.users =~= s0.without_mail(user_id).users);
                }
            },
        }
        proof {
            lemma_mail_step_wf(s0, db@);
        }
        msgs
    }
}

/// A room as a session sees it: its identifier and the identifier of its
/// admin.
pub struct Room {
    pub id: i64,
    pub admin: i64,
}

/// What a list of rooms with their names tells of each room.
pub open spec fn listing() -> spec_fn((Room, String)) -> (i64, i64, Seq<char>) {
    |e: (Room, String)| (e.0.id, e.0.admin, e.1@)
}

impl Room {
    /// Opens a room called `name` with `admin_id` as its admin. Nothing is
    /// done where the name is taken, where the room is to be private and
    /// `pass` is empty, where `admin_id` is not connected, or where no
    /// identifier is left.
    pub fn create(db: &mut Store, name: &str, private: bool, pass: &str, admin_id: i64) -> (created:
        bool)
        requires
            old(db)@.wf(),
        ensures
            final(db)@.wf(),
            created == old(db)@.can_add_room(name@, private, pass@, admin_id),
            final(db)@ == if created {
                old(db)@.with_room(name@, private, pass@, admin_id)
            } else {
                old(db)@
            },
    {
        if db.next_room == i64::MAX {
            return false;
        }
        if private && pass.is_empty() {
            return false;
        }
        if db.find_room_named(name).is_some() {
            return false;
        }
        if db.find_user(admin_id).is_none() {
            return false;
        }
        let id = db.next_room;
        db.rooms.push(
            RoomRow {
                id,
                name: name.to_owned(),
                private,
                pass: pass.to_owned(),
                admin: admin_id,
                members: Vec::new(),
                banned: Vec::new(),
            },
        );
        db.next_room = id + 1;
        proof {
            lemma_with_room_wf(old(db)@, name@, private, pass@, admin_id);
            assert(texts(db.rooms@.last().banned@) =~= Seq::<Seq<char>>::empty());
            assert(db.rooms@.last().members@ =~= Seq::<i64>::empty());
            assert(db@.rooms =~= old(db)@.with_room(name@, private, pass@, admin_id).rooms);
        }
        true
    }

    /// The room called `name`.
    pub fn get(db: &Store, name: &str) -> (r: Option<Room>)
        requires
            db@.wf(),
        ensures
            match r {
                Some(room) => db@.room_named(name@) matches Some(e) && e.id == room.id && e.admin
                    == room.admin,
                None => db@.room_named(name@) is None,
            },
    {
        match db.find_room_named(name) {
            Some(i) => {
                assert(db@.rooms[i as int] == room_entry(db.rooms@[i as int]));
                Some(Room { id: db.rooms[i].id, admin: db.rooms[i].admin })
            },
            None => None,
        }
    }

    /// The names of the rooms that are not private, oldest first.
    pub fn get_all(db: &Store) -> (names: Vec<String>)
        ensures
            texts(names@) == db@.public_rooms().map_values(room_name()),
    {
        let mut names: Vec<String> = Vec::new();
        let mut i: usize = 0;
        assert(db@.rooms.take(0).filter(is_public()) =~= Seq::empty()) by {
            reveal(Seq::filter);
        }
        assert(texts(names@) =~= db@.rooms.take(0).filter(is_public()).map_values(room_name()));
        while i < db.rooms.len()
            invariant
                i <= db.rooms.len(),
                texts(names@) == db@.rooms.take(i as int).filter(is_public()).map_values(
                    room_name(),
                ),
            decreases db.rooms.len() - i,
        {
            let ghost kept = db@.rooms.take(i as int).filter(is_public());
            proof {
                lemma_filter_step(db@.rooms, is_public(), i as int);
                assert(db@.rooms[i as int] == room_entry(db.rooms@[i as int]));
            }
            if !db.rooms[i].private {
                let name = db.rooms[i].name.clone();
                proof {
                    lemma_texts_push(names@, name);
                }
                names.push(name);
                assert(texts(names@) =~= kept.push(db@.rooms[i as int]).map_values(room_name()));
            }
            i += 1;
        }
        assert(db@.rooms.take(i as int) =~= db@.rooms);
        names
    }

    /// The rooms in which `user_id` is a listed member, each with its name,
    /// oldest first. The rooms that it administers are not among them.
    pub fn get_all_from_member(db: &Store, user_id: i64) -> (found: Vec<(Room, String)>)
        ensures
            found@.map_values(listing()) == db@.rooms_joined(user_id).map_values(summary()),
    {
        let mut found: Vec<(Room, String)> = Vec::new();
        let mut i: usize = 0;
        assert(db@.rooms.take(0).filter(lists_member(user_id)) =~= Seq::empty()) by {
            reveal(Seq::filter);
        }
        assert(found@.map_values(listing()) =~= db@.rooms.take(0).filter(
            lists_member(user_id),
        ).map_values(summary()));
        while i < db.rooms.len()
            invariant
                i <= db.rooms.len(),
                found@.map_values(listing()) == db@.rooms.take(i as int).filter(
                    lists_member(user_id),
                ).map_values(summary()),
            decreases db.rooms.len() - i,
        {
            let ghost kept = db@.rooms.take(i as int).filter(lists_member(user_id));
            let ghost before = found@;
            proof {
                lemma_filter_step(db@.rooms, lists_member(user_id), i as int);
                assert(db@.rooms[i as int] == room_entry(db.rooms@[i as int]));
            }
            if position_of(&db.rooms[i].members, user_id).is_some() {
                let room = Room { id: db.rooms[i].id, admin: db.rooms[i].admin };
                found.push((room, db.rooms[i].name.clone()));
                assert(found@.map_values(listing()) =~= before.map_values(listing()).push(
                    summary()(db@.rooms[i as int]),
                ));
                assert(kept.push(db@.rooms[i as int]).map_values(summary()) =~= kept.map_values(
                    summary(),
                ).push(summary()(db@.rooms[i as int])));
            }
            i += 1;
        }
        assert(db@.rooms.take(i as int) =~= db@.rooms);
        found
    }

    /// The rooms that `user_id` administers, each with its name, oldest
    /// first.
    pub fn get_all_from_admin(db: &Store, user_id: i64) -> (found: Vec<(Room, String)>)
        ensures
            found@.map_values(listing()) == db@.rooms_owned(user_id).map_values(summary()),
    {
        let mut found: Vec<(Room, String)> = Vec::new();
        let mut i: usize = 0;
        assert(db@.rooms.take(0).filter(admin_is(user_id)) =~= Seq::empty()) by {
            reveal(Seq::filter);
        }
        assert(found@.map_values(listing()) =~= db@.rooms.take(0).filter(
            admin_is(user_id),
        ).map_values(summary()));
        while i < db.rooms.len()
            invariant
                i <= db.rooms.len(),
                found@.map_values(listing()) == db@.rooms.take(i as int).filter(
                    admin_is(user_id),
                ).map_values(summary()),
            decreases db.rooms.len() - i,
        {
            let ghost kept = db@.rooms.take(i as int).filter(admin_is(user_id));
            let ghost before = found@;
            proof {
                lemma_filter_step(db@.rooms, admin_is(user_id), i as int);
                assert(db@.rooms[i as int] == room_entry(db.rooms@[i as int]));
            }
            if db.rooms[i].admin == user_id {
                let room = Room { id: db.rooms[i].id, admin: db.rooms[i].admin };
                found.push((room, db.rooms[i].name.clone()));
                assert(found@.map_values(listing()) =~= before.map_values(listing()).push(
                    summary()(db@.rooms[i as int]),
                ));
                assert(kept.push(db@.rooms[i as int]).map_values(summary()) =~= kept.map_values(
                    summary(),
                ).push(summary()(db@.rooms[i as int])));
            }
            i += 1;
        }
        assert(db@.rooms.take(i as int) =~= db@.rooms);
        found
    }

    /// The names of the members of this room: its admin first, then the
    /// others in the order in which they joined.
    pub fn get_users(&self, db: &Store) -> (names: Vec<String>)
        requires
            db@.wf(),
        ensures
            texts(names@) == db@.member_names(self.id),
    {
        let mut names: Vec<String> = Vec::new();
        let ghost ids = db@.member_ids(self.id);
        match db.find_room(self.id) {
            None => {
                assert(texts(names@) =~= db@.member_names(self.id));
            },
            Some(ri) => {
                assert(db@.rooms[ri as int] == room_entry(db.rooms@[ri as int]));
                assert(room_ok(db@.users, db@.rooms[ri as int], db@.next_room));
                if let Some(u) = db.find_user(db.rooms[ri].admin) {
                    let name = db.users[u].name.clone();
                    proof {
                        lemma_texts_push(names@, name);
                        assert(db@.users[u as int] == user_entry(db.users@[u as int]));
                    }
                    names.push(name);
                }
                assert(texts(names@) =~= ids.take(1).map_values(name_in(db@.users)));
                let mut k: usize = 0;
                while k < db.rooms[ri].members.len()
                    invariant
                        db@.wf(),
                        ri < db.rooms.len(),
                        db@.rooms[ri as int] == room_entry(db.rooms@[ri as int]),
                        room_ok(db@.users, db@.rooms[ri as int], db@.next_room),
                        ids == seq![db.rooms[ri as int].admin] + db.rooms[ri as int].members@,
                        k <= db.rooms[ri as int].members.len(),
                        texts(names@) == ids.take(k + 1).map_values(name_in(db@.users)),
                    decreases db.rooms[ri as int].members.len() - k,
                {
                    let uid = db.rooms[ri].members[k];
                    assert(member_ok(
                        db@.users,
                        db@.rooms[ri as int],
                        db@.rooms[ri as int].members[k as int],
                    ));
                    let ghost before = ids.take(k + 1);
                    if let Some(u) = db.find_user(uid) {
                        let name = db.users[u].name.clone();
                        proof {
                            lemma_texts_push(names@, name);
                            assert(db@.users[u as int] == user_entry(db.users@[u as int]));
                        }
                        names.push(name);
                    }
                    assert(ids.take(k + 2) =~= before.push(uid));
                    assert(texts(names@) =~= ids.take(k + 2).map_values(name_in(db@.users)));
                    k += 1;
                }
                assert(ids.take(k + 1) =~= ids);
            },
        }
        names
    }

    /// Whether `user_id` is in this room, as its admin or as a listed member.
    pub fn is_member(&self, db: &Store, user_id: i64) -> (r: bool)
        requires
            db@.wf(),
        ensures
            r == db@.is_member(self.id, user_id),
    {
        match db.find_room(self.id) {
            None => false,
            Some(ri) => {
                assert(db@.rooms[ri as int] == room_entry(db.rooms@[ri as int]));
                db.rooms[ri].admin == user_id || position_of(
                    &db.rooms[ri].members,
                    user_id,
                ).is_some()
            },
        }
    }

    /// Whether `user_id` is the admin that this handle names.
    pub fn is_admin(&self, user_id: i64) -> (r: bool)
        ensures
            r == (self.admin == user_id),
    {
        self.admin == user_id
    }

    /// Whether the name of `user_id` is banned from this room.
    pub fn is_banned(&self, db: &Store, user_id: i64) -> (r: bool)
        requires
            db@.wf(),
        ensures
            r == db@.is_banned(self.id, user_id),
    {
        let ri = match db.find_room(self.id) {
            Some(ri) => ri,
            None => {
                return false;
            },
        };
        let ui = match db.find_user(user_id) {
            Some(ui) => ui,
            None => {
                return false;
            },
        };
        assert(db@.rooms[ri as int] == room_entry(db.rooms@[ri as int]));
        assert(db@.users[ui as int] == user_entry(db.users@[ui as int]));
        holds_text(&db.rooms[ri].banned, &db.users[ui].name)
    }

    /// Whether `pass` is the password of this room.
    pub fn check_pass(&self, db: &Store, pass: &str) -> (r: bool)
        requires
            db@.wf(),
        ensures
            r == (db@.has_room(self.id) && db@.room(self.id).pass == pass@),
    {
        match db.find_room(self.id) {
            None => false,
            Some(ri) => {
                assert(db@.rooms[ri as int] == room_entry(db.rooms@[ri as int]));
                let given = pass.to_owned();
                db.rooms[ri].pass == given
            },
        }
    }

    /// Puts `msg` last into the mailbox of each member of this room, but
    /// `except0` and `except1`.
    pub fn broadcast(&self, db: &mut Store, msg: &str, except0: i64, except1: i64)
        requires
            old(db)@.wf(),
        ensures
            final(db)@.wf(),
            final(db)@ == old(db)@.broadcast(self.id, msg@, except0, except1),
    {
        let ghost s0 = db@;
        let room = self.id;
        match db.find_room(room) {
            None => {
                assert(db@.users =~= s0.broadcast(room, msg@, except0, except1).users);
            },
            Some(ri) => {
                let mut i: usize = 0;
                while i < db.users.len()
                    invariant
                        s0.wf(),
                        s0.has_room(room),
                        room_pos(s0.rooms, room) == ri,
                        ri < db.rooms.len(),
                        db@.rooms == s0.rooms,
                        db@.next_user == s0.next_user,
                        db@.next_room == s0.next_room,
                        db.users.len() == s0.users.len(),
                        i <= db.users.len(),
                        forall|j: int|
                            0 <= j < i ==> #[trigger] db@.users[j] == deliver(
                                s0.users[j],
                                s0.receives(room, s0.users[j].id, except0, except1),
                                msg@,
                            ),
                        forall|j: int| i <= j < db.users.len() ==> #[trigger] db@.users[j] == s0.users[j],
                    decreases db.users.len() - i,
                {
                    let ghost before = db@;
                    assert(db@.users[i as int] == s0.users[i as int]);
                    assert(db@.rooms[ri as int] == room_entry(db.rooms@[ri as int]));
                    let uid = db.users[i].id;
                    let member = db.rooms[ri].admin == uid || position_of(
                        &db.rooms[ri].members,
                        uid,
                    ).is_some();
                    assert(member == s0.is_member(room, uid));
                    if member && uid != except0 && uid != except1 {
                        let ghost inbox = db.users[i as int].inbox@;
                        let copy = msg.to_owned();
                        let ghost sent = copy;
                        db.users[i].inbox.push(copy);
                        proof {
                            lemma_texts_push(inbox, sent);
                            assert(db.users[i as int].inbox@ == inbox.push(sent));
                            assert forall|j: int| 0 <= j < db.users.len() && j != i implies db@.users[j]
                                == before.users[j] by {}
                            assert(db@.users[i as int] == deliver(s0.users[i as int], true, msg@));
                        }
                    }
                    assert(db@.users[i as int] == deliver(
                        s0.users[i as int],
                        s0.receives(room, uid, except0, except1),
                        msg@,
                    ));
                    assert forall|j: int| 0 <= j < i implies #[trigger] db@.users[j] == deliver(
                        s0.users[j],
                        s0.receives(room, s0.users[j].id, except0, except1),
                        msg@,
                    ) by {
                        assert(db@.users[j] == before.users[j]);
                    }
                    assert forall|j: int| i < j < db.users.len() implies #[trigger] db@.users[j]
                        == s0.users[j] by {
                        assert(db@.users[j] == before.users[j]);
                    }
                    i += 1;
                }
                assert(db@.users =~= s0.broadcast(room, msg@, except0, except1).users);
            },
        }
        proof {
            lemma_mail_step_wf(s0, db@);
        }
    }

    /// Closes this room: see `State::without_room`.
    pub fn delete_cascade(&self, db: &mut Store)
        requires
            old(db)@.wf(),
        ensures
            final(db)@.wf(),
            final(db)@ == old(db)@.without_room(self.id),
    {
        let ghost s0 = db@;
        proof {
            lemma_without_room_wf(s0, self.id);
        }
        match db.find_room(self.id) {
            None => {},
            Some(ri) => {
                db.rooms.remove(ri);
                assert(db@.rooms =~= s0.without_room(self.id).rooms);
            },
        }
    }

    /// Lists `user_id` as the newest member of this room, where it may be
    /// one: where room and user exist and the user is neither a member nor
    /// banned. Nothing is done otherwise.
    pub fn add_user(&self, db: &mut Store, user_id: i64)
        requires
            old(db)@.wf(),
        ensures
            final(db)@.wf(),
            final(db)@ == if old(db)@.can_add_member(self.id, user_id) {
                old(db)@.with_member(self.id, user_id)
            } else {
                old(db)@
            },
    {
        let ghost s0 = db@;
        let ri = match db.find_room(self.id) {
            Some(ri) => ri,
            None => {
                return ;
            },
        };
        let ui = match db.find_user(user_id) {
            Some(ui) => ui,
            None => {
                return ;
            },
        };
        assert(db@.rooms[ri as int] == room_entry(db.rooms@[ri as int]));
        assert(db@.users[ui as int] == user_entry(db.users@[ui as int]));
        if db.rooms[ri].admin == user_id {
            return ;
        }
        if position_of(&db.rooms[ri].members, user_id).is_some() {
            return ;
        }
        if holds_text(&db.rooms[ri].banned, &db.users[ui].name) {
            return ;
        }
        db.rooms[ri].members.push(user_id);
        proof {
            lemma_with_member_wf(s0, self.id, user_id);
            assert(db@.rooms =~= s0.with_member(self.id, user_id).rooms);
        }
    }

    /// Takes `user_id` off the list of members of this room and says whether
    /// it was on it.
    pub fn kick(&self, db: &mut Store, user_id: i64) -> (removed: bool)
        requires
            old(db)@.wf(),
        ensures
            final(db)@.wf(),
            removed == old(db)@.can_remove_member(self.id, user_id),
            final(db)@ == if removed {
                old(db)@.without_member(self.id, user_id)
            } else {
                old(db)@
            },
    {
        let ghost s0 = db@;
        match db.find_room(self.id) {
            None => false,
            Some(ri) => {
                assert(db@.rooms[ri as int] == room_entry(db.rooms@[ri as int]));
                assert(room_ok(s0.users, s0.rooms[ri as int], s0.next_room));
                let removed = remove_id(&mut db.rooms[ri].members, user_id);
                proof {
                    if removed {
                        lemma_without_member_wf(s0, self.id, user_id);
                        assert(db@.rooms =~= s0.without_member(self.id, user_id).rooms);
                    } else {
                        assert(db@.rooms =~= s0.rooms);
                    }
                }
                removed
            },
        }
    }

    /// Bans the name of `user_id` from this room and says whether it did:
    /// it does where room and user exist and the user is neither a member
    /// nor banned already.
    pub fn ban(&self, db: &mut Store, user_id: i64) -> (banned: bool)
        requires
            old(db)@.wf(),
        ensures
            final(db)@.wf(),
            banned == old(db)@.can_ban(self.id, user_id),
            final(db)@ == if banned {
                old(db)@.with_ban(self.id, user_id)
            } else {
                old(db)@
            },
    {
        let ghost s0 = db@;
        let ri = match db.find_room(self.id) {
            Some(ri) => ri,
            None => {
                return false;
            },
        };
        let ui = match db.find_user(user_id) {
            Some(ui) => ui,
            None => {
                return false;
            },
        };
        assert(db@.rooms[ri as int] == room_entry(db.rooms@[ri as int]));
        assert(db@.users[ui as int] == user_entry(db.users@[ui as int]));
        if db.rooms[ri].admin == user_id {
            return false;
        }
        if position_of(&db.rooms[ri].members, user_id).is_some() {
            return false;
        }
        if holds_text(&db.rooms[ri].banned, &db.users[ui].name) {
            return false;
        }
        let name = db.users[ui].name.clone();
        let ghost list = db.rooms[ri as int].banned@;
        db.rooms[ri].banned.push(name);
        proof {
            lemma_with_ban_wf(s0, self.id, user_id);
            lemma_texts_push(list, name);
            assert(db@.rooms =~= s0.with_ban(self.id, user_id).rooms);
        }
        true
    }
}

} // verus!

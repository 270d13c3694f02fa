//! One connection, from its first line to its end.
//!
//! A session starts with the handshake: the client claims a name, states it
//! again to get the public key of the server, and sends a session key
//! encrypted under that key. From then on every line is encrypted, and each
//! line is a command on the rooms. The caller reads and writes the socket;
//! the session says what each line that arrived leads to.

use crate::codec::{encoded, text_result, Codec};
use crate::crypto::{
    base64_decode, base64_encode, decode_block, encode_block, private_decrypt, rsa_decrypt,
    KEY_LEN, MAX_INPUT,
};
use crate::db::{texts, Store, User};
use crate::error::ErrorKind;
use crate::model::{room_name, State};
use crate::parse::{
    command, command_aes_key, command_auth, command_register, keyword_arg, parse_command, Command,
    CommandView,
};
use crate::rooms::{
    ban_check, ban_user, banned, close_check, close_room, closed, create_check, create_room,
    join_check, join_room, joined, leave_check, leave_room, left, list_rooms, send_check,
    send_message, sent, teardown, torn_down, RoomError,
};
use crate::text::{same_text, trim};
use vstd::prelude::*;
use vstd::utf8::encode_utf8;

verus! {

/// The line that tells a client why its command was refused.
pub open spec fn error_text(e: RoomError) -> Seq<char> {
    match e {
        RoomError::NotFound => "ERRO sala não encontrada"@,
        RoomError::NotMember => "ERRO não é membro da sala"@,
        RoomError::AdminMustClose => "ERRO admin deve fechar a sala"@,
        RoomError::NotAdmin => "ERRO não é admin"@,
        RoomError::AlreadyExists => "ERRO sala já existe"@,
        RoomError::PasswordRequired => "ERRO sala privada deve ter uma senha"@,
        RoomError::CreateFailed => "ERRO sala ja existe? wtf"@,
        RoomError::Banned => "ERRO banido da sala"@,
        RoomError::AlreadyMember => "ERRO já está na sala"@,
        RoomError::WrongPassword => "ERRO senha incorreta"@,
        RoomError::UserNotFound => "ERRO usuário não encontrado"@,
        RoomError::SelfBan => "ERRO não pode banir a si mesmo"@,
    }
}

/// The line that tells a client why its command was refused.
pub fn error_line(e: RoomError) -> (s: String)
    ensures
        s@ == error_text(e),
{
    match e {
        RoomError::NotFound => String::from_str("ERRO sala não encontrada"),
        RoomError::NotMember => String::from_str("ERRO não é membro da sala"),
        RoomError::AdminMustClose => String::from_str("ERRO admin deve fechar a sala"),
        RoomError::NotAdmin => String::from_str("ERRO não é admin"),
        RoomError::AlreadyExists => String::from_str("ERRO sala já existe"),
        RoomError::PasswordRequired => String::from_str("ERRO sala privada deve ter uma senha"),
        RoomError::CreateFailed => String::from_str("ERRO sala ja existe? wtf"),
        RoomError::Banned => String::from_str("ERRO banido da sala"),
        RoomError::AlreadyMember => String::from_str("ERRO já está na sala"),
        RoomError::WrongPassword => String::from_str("ERRO senha incorreta"),
        RoomError::UserNotFound => String::from_str("ERRO usuário não encontrado"),
        RoomError::SelfBan => String::from_str("ERRO não pode banir a si mesmo"),
    }
}

/// `head` followed by each of `words`, with a space before each.
pub open spec fn with_words(head: Seq<char>, words: Seq<Seq<char>>) -> Seq<char>
    decreases words.len(),
{
    if words.len() == 0 {
        head
    } else {
        with_words(head, words.drop_last()) + " "@ + words.last()
    }
}

/// The line made of `head` and `words`, ended by a line feed.
pub open spec fn list_line(head: Seq<char>, words: Seq<Seq<char>>) -> Seq<char> {
    with_words(head, words) + "\n"@
}

/// The line made of `head` and `words`, ended by a line feed.
pub fn line_of_words(head: &str, words: &Vec<String>) -> (line: String)
    ensures
        line@ == list_line(head@, texts(words@)),
{
    let mut line = String::from_str(head);
    let mut i: usize = 0;
    assert(texts(words@).take(0) =~= Seq::empty());
    while i < words.len()
        invariant
            i <= words.len(),
            line@ == with_words(head@, texts(words@).take(i as int)),
        decreases words.len() - i,
    {
        assert(texts(words@).take(i + 1).drop_last() =~= texts(words@).take(i as int));
        assert(texts(words@).take(i + 1).last() == words@[i as int]@);
        line.append(" ");
        line.append(words[i].as_str());
        i += 1;
    }
    assert(texts(words@).take(i as int) =~= texts(words@));
    line.append("\n");
    line
}

/// A reply that may be missing, with its text as a sequence of characters.
pub open spec fn reply_text(r: Option<String>) -> Option<Seq<char>> {
    match r {
        Some(s) => Some(s@),
        None => None,
    }
}

/// What a command of user `user` leads to: the store after it, and the line
/// that answers it, if one does.
pub open spec fn command_outcome(s: State, user: i64, cmd: CommandView) -> (
    State,
    Option<Seq<char>>,
) {
    match cmd {
        CommandView::ListRooms => (
            s,
            Some(list_line("SALAS"@, s.public_rooms().map_values(room_name()))),
        ),
        CommandView::LeaveRoom { room_name } => match leave_check(s, room_name, user) {
            Err(e) => (s, Some(error_text(e))),
            Ok(room) => (left(s, room, user), Some("SAIR_SALA_OK"@)),
        },
        CommandView::CloseRoom { room_name } => match close_check(s, room_name, user) {
            Err(e) => (s, Some(error_text(e))),
            Ok(room) => (closed(s, room, room_name, user), Some("FECHAR_SALA_OK"@)),
        },
        CommandView::CreateRoom { room_name, private, pass } => match create_check(
            s,
            room_name,
            private,
            pass,
            user,
        ) {
            Err(e) => (s, Some(error_text(e))),
            Ok(_) => (s.with_room(room_name, private, pass, user), Some("CRIAR_SALA_OK"@)),
        },
        CommandView::JoinRoom { room_name, pass } => match join_check(s, room_name, pass, user) {
            Err(e) => (s, Some(error_text(e))),
            Ok(room) => (
                joined(s, room, room_name, user),
                Some(
                    list_line(
                        "ENTRAR_SALA_OK"@,
                        joined(s, room, room_name, user).member_names(room),
                    ),
                ),
            ),
        },
        CommandView::SendMsg { room_name, sent_msg } => match send_check(s, room_name, user) {
            Err(e) => (s, Some(error_text(e))),
            Ok(room) => (sent(s, room, room_name, user, sent_msg), None),
        },
        CommandView::BanUser { room_name, banned_name } => match ban_check(
            s,
            room_name,
            user,
            banned_name,
        ) {
            Err(e) => (s, Some(error_text(e))),
            Ok((room, id)) => (
                banned(s, room, room_name, user, id, banned_name),
                Some("BANIMENTO_OK"@),
            ),
        },
    }
}

/// Carries out a command of user `user_id` and gives the line that answers
/// it. A message that was sent has no answer.
pub fn handle_command(db: &mut Store, user_id: i64, cmd: &Command) -> (reply: Option<String>)
    requires
        old(db)@.wf(),
    ensures
        final(db)@.wf(),
        (final(db)@, reply_text(reply)) == command_outcome(old(db)@, user_id, cmd@),
{
    match cmd {
        Command::ListRooms => on_list(db, user_id),
        Command::LeaveRoom { room_name } => on_leave(db, user_id, room_name),
        Command::CloseRoom { room_name } => on_close(db, user_id, room_name),
        Command::CreateRoom { room_name, private, pass } => on_create(
            db,
            user_id,
            room_name,
            *private,
            pass,
        ),
        Command::JoinRoom { room_name, pass } => on_join(db, user_id, room_name, pass),
        Command::SendMsg { room_name, sent_msg } => on_send(db, user_id, room_name, sent_msg),
        Command::BanUser { room_name, banned_name } => on_ban(db, user_id, room_name, banned_name),
    }
}

fn on_list(db: &Store, user_id: i64) -> (reply: Option<String>)
    ensures
        (db@, reply_text(reply)) == command_outcome(db@, user_id, CommandView::ListRooms),
{
    let names = list_rooms(db);
    Some(line_of_words("SALAS", &names))
}

fn on_leave(db: &mut Store, user_id: i64, room_name: &str) -> (reply: Option<String>)
    requires
        old(db)@.wf(),
    ensures
        final(db)@.wf(),
        (final(db)@, reply_text(reply)) == command_outcome(
            old(db)@,
            user_id,
            CommandView::LeaveRoom { room_name: room_name@ },
        ),
{
    match leave_room(db, room_name, user_id) {
        Err(e) => Some(error_line(e)),
        Ok(_) => Some(String::from_str("SAIR_SALA_OK")),
    }
}

fn on_close(db: &mut Store, user_id: i64, room_name: &str) -> (reply: Option<String>)
    requires
        old(db)@.wf(),
    ensures
        final(db)@.wf(),
        (final(db)@, reply_text(reply)) == command_outcome(
            old(db)@,
            user_id,
            CommandView::CloseRoom { room_name: room_name@ },
        ),
{
    match close_room(db, room_name, user_id) {
        Err(e) => Some(error_line(e)),
        Ok(_) => Some(String::from_str("FECHAR_SALA_OK")),
    }
}

fn on_create(db: &mut Store, user_id: i64, room_name: &str, private: bool, pass: &str) -> (reply:
    Option<String>)
    requires
        old(db)@.wf(),
    ensures
        final(db)@.wf(),
        (final(db)@, reply_text(reply)) == command_outcome(
            old(db)@,
            user_id,
            CommandView::CreateRoom { room_name: room_name@, private, pass: pass@ },
        ),
{
    match create_room(db, room_name, private, pass, user_id) {
        Err(e) => Some(error_line(e)),
        Ok(_) => Some(String::from_str("CRIAR_SALA_OK")),
    }
}

fn on_join(db: &mut Store, user_id: i64, room_name: &str, pass: &str) -> (reply: Option<String>)
    requires
        old(db)@.wf(),
    ensures
        final(db)@.wf(),
        (final(db)@, reply_text(reply)) == command_outcome(
            old(db)@,
            user_id,
            CommandView::JoinRoom { room_name: room_name@, pass: pass@ },
        ),
{
    match join_room(db, room_name, pass, user_id) {
        Err(e) => Some(error_line(e)),
        Ok(names) => Some(line_of_words("ENTRAR_SALA_OK", &names)),
    }
}

fn on_send(db: &mut Store, user_id: i64, room_name: &str, text: &str) -> (reply: Option<String>)
    requires
        old(db)@.wf(),
    ensures
        final(db)@.wf(),
        (final(db)@, reply_text(reply)) == command_outcome(
            old(db)@,
            user_id,
            CommandView::SendMsg { room_name: room_name@, sent_msg: text@ },
        ),
{
    match send_message(db, room_name, user_id, text) {
        Err(e) => Some(error_line(e)),
        Ok(_) => None,
    }
}

fn on_ban(db: &mut Store, user_id: i64, room_name: &str, target: &str) -> (reply: Option<String>)
    requires
        old(db)@.wf(),
    ensures
        final(db)@.wf(),
        (final(db)@, reply_text(reply)) == command_outcome(
            old(db)@,
            user_id,
            CommandView::BanUser { room_name: room_name@, banned_name: target@ },
        ),
{
    match ban_user(db, room_name, user_id, target) {
        Err(e) => Some(error_line(e)),
        Ok(_) => Some(String::from_str("BANIMENTO_OK")),
    }
}

/// The answer to a line that is no command.
pub open spec fn unrecognized() -> Seq<char> {
    "ERRO comando nao reconhecido"@
}

/// What a decrypted line of user `user` leads to.
pub open spec fn line_outcome(s: State, user: i64, line: Seq<char>) -> (State, Option<Seq<char>>) {
    match parse_command(line) {
        None => (s, Some(unrecognized())),
        Some(cmd) => command_outcome(s, user, cmd),
    }
}

/// Reads a decrypted line of user `user_id` as a command and carries it out.
pub fn handle_line(db: &mut Store, user_id: i64, line: &str) -> (reply: Option<String>)
    requires
        old(db)@.wf(),
    ensures
        final(db)@.wf(),
        (final(db)@, reply_text(reply)) == line_outcome(old(db)@, user_id, line@),
{
    match command(line) {
        None => Some(String::from_str("ERRO comando nao reconhecido")),
        Some(cmd) => handle_command(db, user_id, &cmd),
    }
}

/// The long-lived keys of the server, as plain values: the private key in
/// DER, and the public key as the text that is sent to clients.
pub struct ServerKeys {
    private_der: Vec<u8>,
    public_text: String,
}

impl ServerKeys {
    pub closed spec fn private_der(&self) -> Seq<u8> {
        self.private_der@
    }

    pub closed spec fn public_text(&self) -> Seq<char> {
        self.public_text@
    }

    /// The keys of a server from the DER encodings of its private and its
    /// public key. The public key is kept as base64 text; `None` where it is
    /// too long to encode.
    pub fn new(private_der: Vec<u8>, public_der: &[u8]) -> (r: Option<ServerKeys>)
        ensures
            match r {
                Some(k) => public_der@.len() <= MAX_INPUT && k.private_der() == private_der@
                    && k.public_text() == base64_encode(public_der@),
                None => public_der@.len() > MAX_INPUT,
            },
    {
        if public_der.len() > MAX_INPUT {
            return None;
        }
        let public_text = encode_block(public_der);
        Some(ServerKeys { private_der, public_text })
    }

    /// The public key as it is sent to clients.
    pub fn public_key(&self) -> (text: &str)
        ensures
            text@ == self.public_text(),
    {
        self.public_text.as_str()
    }
}

/// The session key that decrypted bytes hold: the bytes themselves, if they
/// have the length of a key.
pub open spec fn key_of(bytes: Seq<u8>) -> Option<Seq<u8>> {
    if bytes.len() == KEY_LEN {
        Some(bytes)
    } else {
        None
    }
}

/// Takes what the client's key message decrypted to as the session key.
pub fn session_key(bytes: Vec<u8>) -> (key: Option<Vec<u8>>)
    ensures
        match key {
            Some(k) => key_of(bytes@) == Some(k@),
            None => key_of(bytes@) is None,
        },
{
    if bytes.len() == KEY_LEN {
        Some(bytes)
    } else {
        None
    }
}

/// The session key that a client sent as `sent`: the base64 text of the key
/// encrypted under the public key of the server.
pub open spec fn recovered_key(private_der: Seq<u8>, sent: Seq<char>) -> Option<Seq<u8>> {
    if encode_utf8(sent).len() > MAX_INPUT {
        None
    } else {
        match base64_decode(sent) {
            None => None,
            Some(secret) => if secret.len() > MAX_INPUT {
                None
            } else {
                match rsa_decrypt(private_der, secret) {
                    None => None,
                    Some(bytes) => key_of(bytes),
                }
            },
        }
    }
}

/// Recovers the session key that a client sent.
pub fn recover_key(keys: &ServerKeys, sent: &str) -> (key: Option<Vec<u8>>)
    ensures
        match key {
            Some(k) => recovered_key(keys.private_der(), sent@) == Some(k@),
            None => recovered_key(keys.private_der(), sent@) is None,
        },
{
    if sent.as_bytes().len() > MAX_INPUT {
        return None;
    }
    let secret = match decode_block(sent) {
        Ok(secret) => secret,
        Err(_) => {
            return None;
        },
    };
    if secret.len() > MAX_INPUT {
        return None;
    }
    match private_decrypt(keys.private_der.as_slice(), secret.as_slice()) {
        Ok(bytes) => session_key(bytes),
        Err(_) => None,
    }
}

/// How far the handshake of a session has come.
pub enum Phase {
    /// Nothing is agreed.
    Start,
    /// The client has claimed `name`, and the name was free.
    Registered { name: String },
    /// The client has stated `name` again and has the public key.
    KeyOffered { name: String },
    /// The client has sent its key and is connected as `user`.
    Authenticated { user: User },
}

/// A `Phase` with its text as sequences of characters.
pub enum PhaseView {
    Start,
    Registered { name: Seq<char> },
    KeyOffered { name: Seq<char> },
    Authenticated { id: i64, name: Seq<char> },
}

impl View for Phase {
    type V = PhaseView;

    open spec fn view(&self) -> PhaseView {
        match *self {
            Phase::Start => PhaseView::Start,
            Phase::Registered { name } => PhaseView::Registered { name: name@ },
            Phase::KeyOffered { name } => PhaseView::KeyOffered { name: name@ },
            Phase::Authenticated { user } => PhaseView::Authenticated {
                id: user.id,
                name: user.name@,
            },
        }
    }
}

/// What a step of the handshake leads to.
pub struct Step {
    /// The phase after the step.
    pub phase: PhaseView,
    /// The line that answers the client, if one does.
    pub reply: Option<Seq<char>>,
    /// The store after the step.
    pub state: State,
    /// The session key, where the step has agreed on one.
    pub key: Option<Seq<u8>>,
}

/// The step that fails with `reply`: the handshake starts again.
pub open spec fn refused(s: State, reply: Seq<char>) -> Step {
    Step { phase: PhaseView::Start, reply: Some(reply), state: s, key: None }
}

/// The step that the line `line` leads to in phase `phase`.
///
/// A name is taken only by the last step: until then another client may
/// claim it.
pub open spec fn handshake_step(
    phase: PhaseView,
    s: State,
    private_der: Seq<u8>,
    public_text: Seq<char>,
    line: Seq<char>,
) -> Step {
    match phase {
        PhaseView::Start => match keyword_arg(line, "REGISTRO"@) {
            None => refused(s, unrecognized()),
            Some(name) => if s.has_user_named(name) {
                refused(s, "ERRO usuário já existe"@)
            } else {
                Step {
                    phase: PhaseView::Registered { name },
                    reply: Some("REGISTRO_OK"@),
                    state: s,
                    key: None,
                }
            },
        },
        PhaseView::Registered { name } => if keyword_arg(line, "AUTENTICACAO"@) == Some(name) {
            Step {
                phase: PhaseView::KeyOffered { name },
                reply: Some("CHAVE_PUBLICA "@ + public_text),
                state: s,
                key: None,
            }
        } else {
            refused(s, "ERRO nome de usuário difere"@)
        },
        PhaseView::KeyOffered { name } => match keyword_arg(line, "CHAVE_SIMETRICA"@) {
            None => refused(s, "ERRO transmissao de chave simetrica"@),
            Some(sent) => match recovered_key(private_der, sent) {
                None => refused(s, "ERRO transmissao de chave simetrica"@),
                Some(key) => if s.can_add_user(name) {
                    Step {
                        phase: PhaseView::Authenticated { id: s.next_user, name },
                        reply: None,
                        state: s.with_user(name),
                        key: Some(key),
                    }
                } else {
                    refused(s, "ERRO não foi possível criar usuário"@)
                },
            },
        },
        PhaseView::Authenticated { id, name } => Step { phase, reply: None, state: s, key: None },
    }
}

/// A session key that may be missing, as a sequence of bytes.
pub open spec fn key_bytes(k: Option<Vec<u8>>) -> Option<Seq<u8>> {
    match k {
        Some(bytes) => Some(bytes@),
        None => None,
    }
}

/// Takes one step of the handshake on the line `line`, which arrived in
/// plain text. It gives the next phase, the answer to send in plain text,
/// and the session key where the handshake is complete.
pub fn handshake(phase: Phase, db: &mut Store, keys: &ServerKeys, line: &str) -> (r: (
    Phase,
    Option<String>,
    Option<Vec<u8>>,
))
    requires
        old(db)@.wf(),
    ensures
        final(db)@.wf(),
        (Step { phase: r.0@, reply: reply_text(r.1), state: final(db)@, key: key_bytes(r.2) })
            == handshake_step(phase@, old(db)@, keys.private_der(), keys.public_text(), line@),
{
    match phase {
        Phase::Start => match command_register(line) {
            None => (Phase::Start, Some(String::from_str("ERRO comando nao reconhecido")), None),
            Some(name) => if User::get_id(db, name).is_some() {
                (Phase::Start, Some(String::from_str("ERRO usuário já existe")), None)
            } else {
                (
                    Phase::Registered { name: name.to_owned() },
                    Some(String::from_str("REGISTRO_OK")),
                    None,
                )
            },
        },
        Phase::Registered { name } => {
            let stated = match command_auth(line) {
                Some(stated) => same_text(stated, name.as_str()),
                None => false,
            };
            if stated {
                let mut reply = String::from_str("CHAVE_PUBLICA ");
                reply.append(keys.public_key());
                (Phase::KeyOffered { name }, Some(reply), None)
            } else {
                (Phase::Start, Some(String::from_str("ERRO nome de usuário difere")), None)
            }
        },
        Phase::KeyOffered { name } => {
            let key = match command_aes_key(line) {
                Some(sent) => recover_key(keys, sent),
                None => None,
            };
            match key {
                None => (
                    Phase::Start,
                    Some(String::from_str("ERRO transmissao de chave simetrica")),
                    None,
                ),
                Some(key) => match User::create(db, name.as_str()) {
                    None => (
                        Phase::Start,
                        Some(String::from_str("ERRO não foi possível criar usuário")),
                        None,
                    ),
                    Some(id) => (Phase::Authenticated { user: User { id, name } }, None, Some(key)),
                },
            }
        },
        Phase::Authenticated { user } => (Phase::Authenticated { user }, None, None),
    }
}

/// What the caller of a session does next.
pub enum Outcome {
    /// Send this line, which is in its wire form.
    Reply(String),
    /// Send nothing.
    Silent,
    /// End the connection.
    Fatal(ErrorKind),
}

/// An `Outcome` with its text as a sequence of characters.
pub enum OutcomeView {
    Reply(Seq<char>),
    Silent,
    Fatal(ErrorKind),
}

impl View for Outcome {
    type V = OutcomeView;

    open spec fn view(&self) -> OutcomeView {
        match *self {
            Outcome::Reply(line) => OutcomeView::Reply(line@),
            Outcome::Silent => OutcomeView::Silent,
            Outcome::Fatal(e) => OutcomeView::Fatal(e),
        }
    }
}

/// The outcome of sending `reply` under `key`.
pub open spec fn wire(key: Option<Seq<u8>>, reply: Option<Seq<char>>) -> OutcomeView {
    match reply {
        None => OutcomeView::Silent,
        Some(text) => match encoded(key, text) {
            Ok(line) => OutcomeView::Reply(line),
            Err(e) => OutcomeView::Fatal(e),
        },
    }
}

/// What a line that arrived leads to: the phase, the key and the store after
/// it, and what the caller does next.
pub struct Turn {
    pub phase: PhaseView,
    pub key: Option<Seq<u8>>,
    pub state: State,
    pub outcome: OutcomeView,
}

/// The turn that the line `raw`, as it was read from the socket, leads to.
///
/// Until the handshake is complete, lines arrive and leave in plain text.
/// After it, a line that cannot be decrypted ends the connection: it is
/// never read as a command.
pub open spec fn received(
    phase: PhaseView,
    key: Option<Seq<u8>>,
    s: State,
    private_der: Seq<u8>,
    public_text: Seq<char>,
    raw: Seq<char>,
) -> Turn {
    match phase {
        PhaseView::Authenticated { id, name } => match crate::codec::decoded(key, raw) {
            Err(e) => Turn { phase, key, state: s, outcome: OutcomeView::Fatal(e) },
            Ok(line) => Turn {
                phase,
                key,
                state: line_outcome(s, id, line).0,
                outcome: wire(key, line_outcome(s, id, line).1),
            },
        },
        _ => {
            let step = handshake_step(phase, s, private_der, public_text, raw);
            Turn {
                phase: step.phase,
                key: if step.key is Some {
                    step.key
                } else {
                    key
                },
                state: step.state,
                outcome: wire(None, step.reply),
            }
        },
    }
}

/// One connection: how far its handshake has come, and its cipher state.
pub struct Session {
    phase: Phase,
    codec: Codec,
}

impl Session {
    pub closed spec fn phase(&self) -> PhaseView {
        self.phase@
    }

    pub closed spec fn key(&self) -> Option<Seq<u8>> {
        self.codec.key()
    }

    /// The user that the session serves, once the handshake is complete.
    pub open spec fn user(&self) -> Option<i64> {
        match self.phase() {
            PhaseView::Authenticated { id, name } => Some(id),
            _ => None,
        }
    }

    /// A session at the start of its handshake.
    pub fn new() -> (s: Session)
        ensures
            s.phase() == PhaseView::Start,
            s.key() is None,
    {
        Session { phase: Phase::Start, codec: Codec::new() }
    }

    /// The identifier of the user that the session serves, once the
    /// handshake is complete.
    pub fn user_id(&self) -> (id: Option<i64>)
        ensures
            id == self.user(),
    {
        match &self.phase {
            Phase::Authenticated { user } => Some(user.id),
            _ => None,
        }
    }

    /// The wire form of `msg` for this session.
    pub fn encode(&self, msg: &str) -> (r: Result<String, ErrorKind>)
        ensures
            text_result(r) == encoded(self.key(), msg@),
    {
        self.codec.encode_line(msg)
    }

    /// Takes the line `raw` as it was read from the socket and says what to
    /// do next.
    pub fn receive(&mut self, db: &mut Store, keys: &ServerKeys, raw: &str) -> (out: Outcome)
        requires
            old(db)@.wf(),
        ensures
            final(db)@.wf(),
            (Turn {
                phase: final(self).phase(),
                key: final(self).key(),
                state: final(db)@,
                outcome: out@,
            }) == received(
                old(self).phase(),
                old(self).key(),
                old(db)@,
                keys.private_der(),
                keys.public_text(),
                raw@,
            ),
    {
        let mut phase = Phase::Start;
        core::mem::swap(&mut phase, &mut self.phase);
        match phase {
            Phase::Authenticated { user } => {
                let id = user.id;
                self.phase = Phase::Authenticated { user };
                match self.codec.decode_line(raw) {
                    Err(e) => Outcome::Fatal(e),
                    Ok(line) => match handle_line(db, id, line.as_str()) {
                        None => Outcome::Silent,
                        Some(reply) => match self.codec.encode_line(reply.as_str()) {
                            Ok(wire_line) => Outcome::Reply(wire_line),
                            Err(e) => Outcome::Fatal(e),
                        },
                    },
                }
            },
            _ => {
                let (next, reply, key) = handshake(phase, db, keys, raw);
                self.phase = next;
                if let Some(key) = key {
                    let _ = self.codec.set_aes_key(key);
                }
                match reply {
                    None => Outcome::Silent,
                    Some(text) => {
                        let mut line = trim(text.as_str()).to_owned();
                        line.append("\n");
                        Outcome::Reply(line)
                    },
                }
            },
        }
    }

    /// Takes the messages that wait for the user of this session out of its
    /// mailbox, oldest first. Each is handed out once.
    pub fn pending(&self, db: &mut Store) -> (msgs: Vec<String>)
        requires
            old(db)@.wf(),
        ensures
            final(db)@.wf(),
            match self.user() {
                Some(id) => texts(msgs@) == old(db)@.inbox(id) && final(db)@ == old(db)@.without_mail(
                    id,
                ),
                None => msgs@.len() == 0 && final(db)@ == old(db)@,
            },
    {
        match &self.phase {
            Phase::Authenticated { user } => User::drain_msgs(db, user.id),
            _ => Vec::new(),
        }
    }

    /// Ends the session, whatever ended the connection: see `teardown`.
    pub fn close(self, db: &mut Store)
        requires
            old(db)@.wf(),
        ensures
            final(db)@.wf(),
            match self.user() {
                Some(id) => final(db)@ == torn_down(old(db)@, id),
                None => final(db)@ == old(db)@,
            },
    {
        match self.phase {
            Phase::Authenticated { user } => teardown(db, user.id),
            _ => {},
        }
    }
}

} // verus!

//! The lines a client sends, read as commands.
//!
//! A line is a keyword followed by its arguments, separated by whitespace.
//! Words behind the last argument are ignored.

use crate::text::{chars_of, next_word, same_text, word};
use vstd::prelude::*;

verus! {

/// A command of an authenticated session.
#[derive(Debug)]
pub enum Command<'a> {
    ListRooms,
    LeaveRoom { room_name: &'a str },
    CloseRoom { room_name: &'a str },
    CreateRoom { room_name: &'a str, private: bool, pass: &'a str },
    JoinRoom { room_name: &'a str, pass: &'a str },
    SendMsg { room_name: &'a str, sent_msg: &'a str },
    BanUser { room_name: &'a str, banned_name: &'a str },
}

/// What a `Command` says, with its text as sequences of characters.
pub enum CommandView {
    ListRooms,
    LeaveRoom { room_name: Seq<char> },
    CloseRoom { room_name: Seq<char> },
    CreateRoom { room_name: Seq<char>, private: bool, pass: Seq<char> },
    JoinRoom { room_name: Seq<char>, pass: Seq<char> },
    SendMsg { room_name: Seq<char>, sent_msg: Seq<char> },
    BanUser { room_name: Seq<char>, banned_name: Seq<char> },
}

impl<'a> View for Command<'a> {
    type V = CommandView;

    open spec fn view(&self) -> CommandView {
        match *self {
            Command::ListRooms => CommandView::ListRooms,
            Command::LeaveRoom { room_name } => CommandView::LeaveRoom { room_name: room_name@ },
            Command::CloseRoom { room_name } => CommandView::CloseRoom { room_name: room_name@ },
            Command::CreateRoom { room_name, private, pass } => CommandView::CreateRoom {
                room_name: room_name@,
                private,
                pass: pass@,
            },
            Command::JoinRoom { room_name, pass } => CommandView::JoinRoom {
                room_name: room_name@,
                pass: pass@,
            },
            Command::SendMsg { room_name, sent_msg } => CommandView::SendMsg {
                room_name: room_name@,
                sent_msg: sent_msg@,
            },
            Command::BanUser { room_name, banned_name } => CommandView::BanUser {
                room_name: room_name@,
                banned_name: banned_name@,
            },
        }
    }
}

/// The argument of a line made of `keyword` and one argument.
pub open spec fn keyword_arg(line: Seq<char>, keyword: Seq<char>) -> Option<Seq<char>> {
    if word(line, 0) == Some(keyword) {
        word(line, 1)
    } else {
        None
    }
}

/// A word that may be left out, read as empty text where it is.
pub open spec fn or_empty(w: Option<Seq<char>>) -> Seq<char> {
    match w {
        Some(text) => text,
        None => Seq::empty(),
    }
}

/// The command that a line holds, if it holds one.
pub open spec fn parse_command(line: Seq<char>) -> Option<CommandView> {
    let w1 = word(line, 1);
    let w2 = word(line, 2);
    let w3 = word(line, 3);
    match word(line, 0) {
        None => None,
        Some(k) => if k == "LISTAR_SALAS"@ {
            Some(CommandView::ListRooms)
        } else if k == "SAIR_SALA"@ {
            match w1 {
                Some(room_name) => Some(CommandView::LeaveRoom { room_name }),
                None => None,
            }
        } else if k == "FECHAR_SALA"@ {
            match w1 {
                Some(room_name) => Some(CommandView::CloseRoom { room_name }),
                None => None,
            }
        } else if k == "CRIAR_SALA"@ {
            match (w1, w2) {
                (Some(kind), Some(room_name)) => if kind == "PUBLICA"@ {
                    Some(CommandView::CreateRoom { room_name, private: false, pass: or_empty(w3) })
                } else if kind == "PRIVADA"@ {
                    Some(CommandView::CreateRoom { room_name, private: true, pass: or_empty(w3) })
                } else {
                    None
                },
                _ => None,
            }
        } else if k == "ENTRAR_SALA"@ {
            match w1 {
                Some(room_name) => Some(CommandView::JoinRoom { room_name, pass: or_empty(w2) }),
                None => None,
            }
        } else if k == "ENVIAR_MENSAGEM"@ {
            match w1 {
                Some(room_name) => Some(
                    CommandView::SendMsg { room_name, sent_msg: or_empty(w2) },
                ),
                None => None,
            }
        } else if k == "BANIR_USUARIO"@ {
            match (w1, w2) {
                (Some(room_name), Some(banned_name)) => Some(
                    CommandView::BanUser { room_name, banned_name },
                ),
                _ => None,
            }
        } else {
            None
        },
    }
}

/// The first four words of a line, as far as it has them.
struct Words<'a> {
    w0: Option<&'a str>,
    w1: Option<&'a str>,
    w2: Option<&'a str>,
    w3: Option<&'a str>,
}

spec fn matches_word(found: Option<&str>, line: Seq<char>, n: nat) -> bool {
    match found {
        Some(w) => word(line, n) == Some(w@),
        None => word(line, n) is None,
    }
}

fn first_words<'a>(line: &'a str) -> (ws: Words<'a>)
    ensures
        matches_word(ws.w0, line@, 0),
        matches_word(ws.w1, line@, 1),
        matches_word(ws.w2, line@, 2),
        matches_word(ws.w3, line@, 3),
{
    let cs = chars_of(line);
    proof {
        reveal_with_fuel(crate::text::word_pos, 4);
    }
    let (w0, end0) = next_word(line, &cs, 0);
    let (w1, end1) = next_word(line, &cs, end0);
    let (w2, end2) = next_word(line, &cs, end1);
    let (w3, _end3) = next_word(line, &cs, end2);
    Words { w0, w1, w2, w3 }
}

fn keyword_argument<'a>(line: &'a str, keyword: &str) -> (arg: Option<&'a str>)
    ensures
        match arg {
            Some(a) => keyword_arg(line@, keyword@) == Some(a@),
            None => keyword_arg(line@, keyword@) is None,
        },
{
    let ws = first_words(line);
    match (ws.w0, ws.w1) {
        (Some(k), Some(a)) => if same_text(k, keyword) {
            Some(a)
        } else {
            None
        },
        _ => None,
    }
}

/// Reads `REGISTRO <name>` and gives the name.
pub fn command_register<'a>(line: &'a str) -> (name: Option<&'a str>)
    ensures
        match name {
            Some(n) => keyword_arg(line@, "REGISTRO"@) == Some(n@),
            None => keyword_arg(line@, "REGISTRO"@) is None,
        },
{
    keyword_argument(line, "REGISTRO")
}

/// Reads `AUTENTICACAO <name>` and gives the name.
pub fn command_auth<'a>(line: &'a str) -> (name: Option<&'a str>)
    ensures
        match name {
            Some(n) => keyword_arg(line@, "AUTENTICACAO"@) == Some(n@),
            None => keyword_arg(line@, "AUTENTICACAO"@) is None,
        },
{
    keyword_argument(line, "AUTENTICACAO")
}

/// Reads `CHAVE_SIMETRICA <key>` and gives the key as the client wrote it.
pub fn command_aes_key<'a>(line: &'a str) -> (key: Option<&'a str>)
    ensures
        match key {
            Some(k) => keyword_arg(line@, "CHAVE_SIMETRICA"@) == Some(k@),
            None => keyword_arg(line@, "CHAVE_SIMETRICA"@) is None,
        },
{
    keyword_argument(line, "CHAVE_SIMETRICA")
}

fn text_or_empty<'a>(w: Option<&'a str>) -> (text: &'a str)
    ensures
        text@ == or_empty(
            match w {
                Some(t) => Some(t@),
                None => None,
            },
        ),
{
    match w {
        Some(t) => t,
        None => {
            proof {
                reveal_strlit("");
            }
            assert(""@ =~= Seq::<char>::empty());
            ""
        },
    }
}

/// Reads a line of an authenticated session as a command.
pub fn command<'a>(line: &'a str) -> (cmd: Option<Command<'a>>)
    ensures
        match cmd {
            Some(c) => parse_command(line@) == Some(c@),
            None => parse_command(line@) is None,
        },
{
    let ws = first_words(line);
    let k = match ws.w0 {
        Some(k) => k,
        None => {
            return None;
        },
    };
    if same_text(k, "LISTAR_SALAS") {
        Some(Command::ListRooms)
    } else if same_text(k, "SAIR_SALA") {
        match ws.w1 {
            Some(room_name) => Some(Command::LeaveRoom { room_name }),
            None => None,
        }
    } else if same_text(k, "FECHAR_SALA") {
        match ws.w1 {
            Some(room_name) => Some(Command::CloseRoom { room_name }),
            None => None,
        }
    } else if same_text(k, "CRIAR_SALA") {
        match (ws.w1, ws.w2) {
            (Some(kind), Some(room_name)) => {
                let pass = text_or_empty(ws.w3);
                if same_text(kind, "PUBLICA") {
                    Some(Command::CreateRoom { room_name, private: false, pass })
                } else if same_text(kind, "PRIVADA") {
                    Some(Command::CreateRoom { room_name, private: true, pass })
                } else {
                    None
                }
            },
            _ => None,
        }
    } else if same_text(k, "ENTRAR_SALA") {
        match ws.w1 {
            Some(room_name) => Some(
                Command::JoinRoom { room_name, pass: text_or_empty(ws.w2) },
            ),
            None => None,
        }
    } else if same_text(k, "ENVIAR_MENSAGEM") {
        match ws.w1 {
            Some(room_name) => Some(
                Command::SendMsg { room_name, sent_msg: text_or_empty(ws.w2) },
            ),
            None => None,
        }
    } else if same_text(k, "BANIR_USUARIO") {
        match (ws.w1, ws.w2) {
            (Some(room_name), Some(banned_name)) => Some(
                Command::BanUser { room_name, banned_name },
            ),
            _ => None,
        }
    } else {
        None
    }
}

} // verus!

use chat_server::db::{Room, Store, User};
use chat_server::error::ErrorKind;
use chat_server::parse::Command;
use chat_server::rooms::RoomError;
use chat_server::session::{
    error_line, handle_command, handle_line, handshake, line_of_words, recover_key, session_key,
    Outcome, Phase, ServerKeys, Session,
};
use openssl::rsa::{Padding, Rsa};
use openssl::symm::{decrypt, encrypt, Cipher};

struct Server {
    keys: ServerKeys,
    public_der: Vec<u8>,
}

fn server() -> Server {
    let rsa = Rsa::generate(2048).unwrap();
    let public_der = rsa.public_key_to_der().unwrap();
    let keys = ServerKeys::new(rsa.private_key_to_der().unwrap(), &public_der).unwrap();
    Server { keys, public_der }
}

/// The key message of a client: its key under the public key of the server.
fn key_line(public_der: &[u8], key: &[u8]) -> String {
    let rsa = Rsa::public_key_from_der(public_der).unwrap();
    let mut out = vec![0u8; rsa.size() as usize];
    let n = rsa.public_encrypt(key, &mut out, Padding::PKCS1_OAEP).unwrap();
    format!("CHAVE_SIMETRICA {}\n", openssl::base64::encode_block(&out[..n]))
}

fn seal(key: &[u8], text: &str) -> String {
    let secret = encrypt(Cipher::aes_256_ecb(), key, None, text.as_bytes()).unwrap();
    format!("{}\n", openssl::base64::encode_block(&secret))
}

fn open(key: &[u8], wire: &str) -> String {
    let secret = openssl::base64::decode_block(wire).unwrap();
    String::from_utf8(decrypt(Cipher::aes_256_ecb(), key, None, &secret).unwrap()).unwrap()
}

fn reply(out: Outcome) -> String {
    match out {
        Outcome::Reply(line) => line,
        Outcome::Silent => panic!("nothing to send"),
        Outcome::Fatal(e) => panic!("fatal: {:?}", e),
    }
}

/// A session that has completed its handshake as `name` with `key`.
fn connect(db: &mut Store, srv: &Server, name: &str, key: &[u8]) -> Session {
    let mut s = Session::new();
    assert_eq!(reply(s.receive(db, &srv.keys, &format!("REGISTRO {}\n", name))), "REGISTRO_OK\n");
    let offered = reply(s.receive(db, &srv.keys, &format!("AUTENTICACAO {}\n", name)));
    assert!(offered.starts_with("CHAVE_PUBLICA "));
    assert!(matches!(s.receive(db, &srv.keys, &key_line(&srv.public_der, key)), Outcome::Silent));
    assert!(s.user_id().is_some());
    s
}

/// Sends a command over an encrypted session and gives the decrypted answer.
fn ask(s: &mut Session, db: &mut Store, srv: &Server, key: &[u8], cmd: &str) -> String {
    open(key, &reply(s.receive(db, &srv.keys, &seal(key, cmd))))
}

#[test]
fn error_lines_are_those_of_the_protocol() {
    assert_eq!(error_line(RoomError::NotFound), "ERRO sala não encontrada");
    assert_eq!(error_line(RoomError::NotMember), "ERRO não é membro da sala");
    assert_eq!(error_line(RoomError::AdminMustClose), "ERRO admin deve fechar a sala");
    assert_eq!(error_line(RoomError::NotAdmin), "ERRO não é admin");
    assert_eq!(error_line(RoomError::AlreadyExists), "ERRO sala já existe");
    assert_eq!(error_line(RoomError::PasswordRequired), "ERRO sala privada deve ter uma senha");
    assert_eq!(error_line(RoomError::CreateFailed), "ERRO sala ja existe? wtf");
    assert_eq!(error_line(RoomError::Banned), "ERRO banido da sala");
    assert_eq!(error_line(RoomError::AlreadyMember), "ERRO já está na sala");
    assert_eq!(error_line(RoomError::WrongPassword), "ERRO senha incorreta");
    assert_eq!(error_line(RoomError::UserNotFound), "ERRO usuário não encontrado");
    assert_eq!(error_line(RoomError::SelfBan), "ERRO não pode banir a si mesmo");
}

#[test]
fn a_list_line_is_head_words_and_line_feed() {
    assert_eq!(line_of_words("SALAS", &vec![]), "SALAS\n");
    assert_eq!(line_of_words("SALAS", &vec!["geral".to_string()]), "SALAS geral\n");
    assert_eq!(
        line_of_words("ENTRAR_SALA_OK", &vec!["alice".to_string(), "bob".to_string()]),
        "ENTRAR_SALA_OK alice bob\n"
    );
}

#[test]
fn commands_are_answered() {
    let mut db = Store::new();
    let a = User::create(&mut db, "alice").unwrap();
    let b = User::create(&mut db, "bob").unwrap();
    let say = |db: &mut Store, who: i64, line: &str| handle_line(db, who, line);
    assert_eq!(say(&mut db, a, "LISTAR_SALAS\n"), Some("SALAS\n".to_string()));
    assert_eq!(say(&mut db, a, "CRIAR_SALA PUBLICA geral\n"), Some("CRIAR_SALA_OK".to_string()));
    assert_eq!(
        say(&mut db, a, "CRIAR_SALA PUBLICA geral\n"),
        Some("ERRO sala já existe".to_string())
    );
    assert_eq!(
        say(&mut db, a, "CRIAR_SALA PRIVADA cofre\n"),
        Some("ERRO sala privada deve ter uma senha".to_string())
    );
    assert_eq!(say(&mut db, a, "CRIAR_SALA PRIVADA cofre s3\n"), Some("CRIAR_SALA_OK".to_string()));
    assert_eq!(say(&mut db, b, "LISTAR_SALAS\n"), Some("SALAS geral\n".to_string()));
    assert_eq!(
        say(&mut db, b, "ENTRAR_SALA cofre\n"),
        Some("ERRO senha incorreta".to_string())
    );
    assert_eq!(
        say(&mut db, b, "ENTRAR_SALA cofre s3\n"),
        Some("ENTRAR_SALA_OK alice bob\n".to_string())
    );
    assert_eq!(say(&mut db, b, "ENTRAR_SALA cofre s3\n"), Some("ERRO já está na sala".to_string()));
    assert_eq!(say(&mut db, b, "ENVIAR_MENSAGEM cofre oi\n"), None);
    assert_eq!(
        say(&mut db, b, "ENVIAR_MENSAGEM geral oi\n"),
        Some("ERRO sala não encontrada".to_string())
    );
    assert_eq!(say(&mut db, b, "FECHAR_SALA cofre\n"), Some("ERRO não é admin".to_string()));
    assert_eq!(
        say(&mut db, a, "SAIR_SALA cofre\n"),
        Some("ERRO admin deve fechar a sala".to_string())
    );
    assert_eq!(
        say(&mut db, b, "SAIR_SALA geral\n"),
        Some("ERRO não é membro da sala".to_string())
    );
    assert_eq!(say(&mut db, b, "SAIR_SALA cofre\n"), Some("SAIR_SALA_OK".to_string()));
    assert_eq!(
        say(&mut db, a, "BANIR_USUARIO cofre carol\n"),
        Some("ERRO usuário não encontrado".to_string())
    );
    assert_eq!(
        say(&mut db, a, "BANIR_USUARIO cofre alice\n"),
        Some("ERRO não pode banir a si mesmo".to_string())
    );
    assert_eq!(say(&mut db, a, "BANIR_USUARIO cofre bob\n"), Some("BANIMENTO_OK".to_string()));
    assert_eq!(say(&mut db, b, "ENTRAR_SALA cofre s3\n"), Some("ERRO banido da sala".to_string()));
    assert_eq!(say(&mut db, a, "FECHAR_SALA cofre\n"), Some("FECHAR_SALA_OK".to_string()));
    assert_eq!(say(&mut db, a, "OLA\n"), Some("ERRO comando nao reconhecido".to_string()));
    assert_eq!(say(&mut db, a, "\n"), Some("ERRO comando nao reconhecido".to_string()));
    assert_eq!(
        User::drain_msgs(&mut db, a),
        vec!["ENTROU cofre bob\n", "MENSAGEM cofre bob oi\n", "SAIU bob\n"]
    );
    assert_eq!(User::drain_msgs(&mut db, b), vec!["BANIDO_DA_SALA cofre\n"]);
}

#[test]
fn a_command_value_is_carried_out() {
    let mut db = Store::new();
    let a = User::create(&mut db, "alice").unwrap();
    let cmd = Command::CreateRoom { room_name: "geral", private: false, pass: "" };
    assert_eq!(handle_command(&mut db, a, &cmd), Some("CRIAR_SALA_OK".to_string()));
    assert_eq!(handle_command(&mut db, a, &Command::ListRooms), Some("SALAS geral\n".to_string()));
    let cmd = Command::CreateRoom { room_name: "cofre", private: true, pass: "" };
    assert_eq!(
        handle_command(&mut db, a, &cmd),
        Some("ERRO sala privada deve ter uma senha".to_string())
    );
    assert!(Room::get(&db, "cofre").is_none());
}

#[test]
fn session_key_must_be_thirty_two_bytes() {
    assert_eq!(session_key(vec![1u8; 32]), Some(vec![1u8; 32]));
    assert_eq!(session_key(vec![1u8; 16]), None);
    assert_eq!(session_key(vec![]), None);
    assert_eq!(session_key(vec![1u8; 33]), None);
}

#[test]
fn server_keeps_its_public_key_as_base64() {
    let srv = server();
    assert_eq!(srv.keys.public_key(), openssl::base64::encode_block(&srv.public_der));
    assert!(!srv.keys.public_key().contains(char::is_whitespace));
}

#[test]
fn the_key_of_the_client_is_recovered() {
    let srv = server();
    let key: Vec<u8> = (100u8..132).collect();
    let line = key_line(&srv.public_der, &key);
    let sent = line.split_whitespace().nth(1).unwrap();
    assert_eq!(recover_key(&srv.keys, sent), Some(key.clone()));
    // a key of another length is no session key
    let short = key_line(&srv.public_der, &[1u8; 16]);
    assert_eq!(recover_key(&srv.keys, short.split_whitespace().nth(1).unwrap()), None);
    // what was not encrypted for this server is no key
    assert_eq!(recover_key(&srv.keys, "QUJD"), None);
    assert_eq!(recover_key(&srv.keys, "%%"), None);
    let other = server();
    let foreign = key_line(&other.public_der, &key);
    assert_eq!(recover_key(&srv.keys, foreign.split_whitespace().nth(1).unwrap()), None);
    // a server whose private key cannot be read recovers nothing
    let broken = ServerKeys::new(vec![1, 2, 3], &srv.public_der).unwrap();
    assert_eq!(recover_key(&broken, sent), None);
}

#[test]
fn handshake_goes_through_its_phases() {
    let srv = server();
    let mut db = Store::new();
    let key = [5u8; 32];
    let (p, r, k) = handshake(Phase::Start, &mut db, &srv.keys, "REGISTRO alice\n");
    assert!(matches!(&p, Phase::Registered { name } if name == "alice"));
    assert_eq!(r, Some("REGISTRO_OK".to_string()));
    assert_eq!(k, None);
    // the name is not taken yet
    assert_eq!(User::get_id(&db, "alice"), None);
    let (p, r, k) = handshake(p, &mut db, &srv.keys, "AUTENTICACAO alice\n");
    assert!(matches!(&p, Phase::KeyOffered { name } if name == "alice"));
    assert_eq!(r, Some(format!("CHAVE_PUBLICA {}", srv.keys.public_key())));
    assert_eq!(k, None);
    assert_eq!(User::get_id(&db, "alice"), None);
    let (p, r, k) = handshake(p, &mut db, &srv.keys, &key_line(&srv.public_der, &key));
    assert!(matches!(&p, Phase::Authenticated { user } if user.id == 1 && user.name == "alice"));
    assert_eq!(r, None);
    assert_eq!(k, Some(key.to_vec()));
    assert_eq!(User::get_id(&db, "alice"), Some(1));
    // in the last phase the handshake has nothing left to do
    let (p, r, k) = handshake(p, &mut db, &srv.keys, "REGISTRO alice\n");
    assert!(matches!(&p, Phase::Authenticated { user } if user.id == 1));
    assert_eq!((r, k), (None, None));
}

#[test]
fn handshake_starts_again_on_a_bad_line() {
    let srv = server();
    let mut db = Store::new();
    let (p, r, _) = handshake(Phase::Start, &mut db, &srv.keys, "OLA\n");
    assert!(matches!(p, Phase::Start));
    assert_eq!(r, Some("ERRO comando nao reconhecido".to_string()));
    let registered = || Phase::Registered { name: "alice".to_string() };
    for line in ["AUTENTICACAO bob\n", "AUTENTICACAO\n", "REGISTRO alice\n", "\n"] {
        let (p, r, _) = handshake(registered(), &mut db, &srv.keys, line);
        assert!(matches!(p, Phase::Start));
        assert_eq!(r, Some("ERRO nome de usuário difere".to_string()));
    }
    let offered = || Phase::KeyOffered { name: "alice".to_string() };
    for line in ["CHAVE_SIMETRICA QUJD\n", "CHAVE_SIMETRICA\n", "LISTAR_SALAS\n"] {
        let (p, r, k) = handshake(offered(), &mut db, &srv.keys, line);
        assert!(matches!(p, Phase::Start));
        assert_eq!(r, Some("ERRO transmissao de chave simetrica".to_string()));
        assert_eq!(k, None);
    }
    assert_eq!(User::get_id(&db, "alice"), None);
}

#[test]
fn a_name_in_use_is_refused_at_registration() {
    let srv = server();
    let mut db = Store::new();
    let _first = connect(&mut db, &srv, "alice", &[1u8; 32]);
    let mut second = Session::new();
    assert_eq!(
        reply(second.receive(&mut db, &srv.keys, "REGISTRO alice\n")),
        "ERRO usuário já existe\n"
    );
    assert_eq!(second.user_id(), None);
    // it may try again under another name
    assert_eq!(reply(second.receive(&mut db, &srv.keys, "REGISTRO bob\n")), "REGISTRO_OK\n");
}

#[test]
fn the_name_goes_to_the_first_who_completes_the_handshake() {
    let srv = server();
    let mut db = Store::new();
    let mut one = Session::new();
    let mut two = Session::new();
    assert_eq!(reply(one.receive(&mut db, &srv.keys, "REGISTRO alice\n")), "REGISTRO_OK\n");
    assert_eq!(reply(two.receive(&mut db, &srv.keys, "REGISTRO alice\n")), "REGISTRO_OK\n");
    reply(one.receive(&mut db, &srv.keys, "AUTENTICACAO alice\n"));
    reply(two.receive(&mut db, &srv.keys, "AUTENTICACAO alice\n"));
    let line = key_line(&srv.public_der, &[2u8; 32]);
    assert!(matches!(two.receive(&mut db, &srv.keys, &line), Outcome::Silent));
    assert_eq!(
        reply(one.receive(&mut db, &srv.keys, &line)),
        "ERRO não foi possível criar usuário\n"
    );
    assert_eq!(two.user_id(), Some(1));
    assert_eq!(one.user_id(), None);
    // the refusal was sent in plain text, and the session starts again
    assert_eq!(one.encode("x"), Ok("x\n".to_string()));
    assert_eq!(reply(one.receive(&mut db, &srv.keys, "REGISTRO carol\n")), "REGISTRO_OK\n");
}

#[test]
fn after_the_handshake_lines_are_encrypted() {
    let srv = server();
    let mut db = Store::new();
    let key = [3u8; 32];
    let mut s = connect(&mut db, &srv, "alice", &key);
    let wire = reply(s.receive(&mut db, &srv.keys, &seal(&key, "LISTAR_SALAS")));
    assert_ne!(wire, "SALAS\n");
    assert_eq!(open(&key, &wire), "SALAS");
    assert_eq!(s.encode("ola"), Ok(seal(&key, "ola")));
}

#[test]
fn a_line_that_cannot_be_decrypted_ends_the_connection() {
    let srv = server();
    let mut db = Store::new();
    let key = [3u8; 32];
    let mut s = connect(&mut db, &srv, "alice", &key);
    for bad in ["LISTAR_SALAS\n", "%%%\n", "\n", "QUJD\n"] {
        match s.receive(&mut db, &srv.keys, bad) {
            Outcome::Fatal(e) => {
                assert_eq!(e, ErrorKind::BadCrypto);
                assert!(e.is_fatal());
            }
            _ => panic!("a bad line was taken as a command"),
        }
    }
    // a line that decrypts but is no command is answered, not fatal
    assert_eq!(ask(&mut s, &mut db, &srv, &key, "OLA"), "ERRO comando nao reconhecido");
}

#[test]
fn pending_messages_are_handed_out_once() {
    let srv = server();
    let mut db = Store::new();
    let ka = [1u8; 32];
    let kb = [2u8; 32];
    let mut a = connect(&mut db, &srv, "alice", &ka);
    let mut b = connect(&mut db, &srv, "bob", &kb);
    assert_eq!(ask(&mut a, &mut db, &srv, &ka, "CRIAR_SALA PUBLICA geral"), "CRIAR_SALA_OK");
    assert_eq!(ask(&mut b, &mut db, &srv, &kb, "ENTRAR_SALA geral"), "ENTRAR_SALA_OK alice bob");
    assert_eq!(a.pending(&mut db), vec!["ENTROU geral bob\n"]);
    assert_eq!(a.pending(&mut db), Vec::<String>::new());
    assert_eq!(b.pending(&mut db), Vec::<String>::new());
    // a session without a user has no mailbox
    let fresh = Session::new();
    assert_eq!(fresh.pending(&mut db), Vec::<String>::new());
}

#[test]
fn two_clients_meet_in_a_room() {
    let srv = server();
    let mut db = Store::new();
    let ka = [1u8; 32];
    let kb = [2u8; 32];
    let mut a = connect(&mut db, &srv, "alice", &ka);
    assert_eq!(ask(&mut a, &mut db, &srv, &ka, "CRIAR_SALA PUBLICA geral"), "CRIAR_SALA_OK");
    let mut b = connect(&mut db, &srv, "bob", &kb);
    assert_eq!(ask(&mut b, &mut db, &srv, &kb, "ENTRAR_SALA geral"), "ENTRAR_SALA_OK alice bob");
    let got: Vec<String> =
        a.pending(&mut db).iter().map(|m| open(&ka, &a.encode(m).unwrap())).collect();
    assert_eq!(got, vec!["ENTROU geral bob"]);
    assert!(matches!(
        b.receive(&mut db, &srv.keys, &seal(&kb, "ENVIAR_MENSAGEM geral ola")),
        Outcome::Silent
    ));
    assert_eq!(a.pending(&mut db), vec!["MENSAGEM geral bob ola\n"]);
    assert_eq!(b.pending(&mut db), Vec::<String>::new());
    assert_eq!(ask(&mut a, &mut db, &srv, &ka, "FECHAR_SALA geral"), "FECHAR_SALA_OK");
    assert_eq!(b.pending(&mut db), vec!["SALA_FECHADA geral\n"]);
    assert_eq!(
        ask(&mut b, &mut db, &srv, &kb, "ENVIAR_MENSAGEM geral ainda"),
        "ERRO sala não encontrada"
    );
    assert_eq!(a.pending(&mut db), Vec::<String>::new());
}

#[test]
fn a_banned_client_stays_out_when_it_connects_again() {
    let srv = server();
    let mut db = Store::new();
    let ka = [1u8; 32];
    let kb = [2u8; 32];
    let kc = [3u8; 32];
    let mut a = connect(&mut db, &srv, "alice", &ka);
    let mut b = connect(&mut db, &srv, "bob", &kb);
    let mut c = connect(&mut db, &srv, "carol", &kc);
    ask(&mut a, &mut db, &srv, &ka, "CRIAR_SALA PUBLICA geral");
    ask(&mut b, &mut db, &srv, &kb, "ENTRAR_SALA geral");
    ask(&mut c, &mut db, &srv, &kc, "ENTRAR_SALA geral");
    a.pending(&mut db);
    b.pending(&mut db);
    assert_eq!(ask(&mut a, &mut db, &srv, &ka, "BANIR_USUARIO geral bob"), "BANIMENTO_OK");
    assert_eq!(c.pending(&mut db), vec!["SAIU geral bob\n"]);
    assert_eq!(b.pending(&mut db), vec!["BANIDO_DA_SALA geral\n"]);
    assert_eq!(a.pending(&mut db), Vec::<String>::new());
    assert_eq!(ask(&mut b, &mut db, &srv, &kb, "ENTRAR_SALA geral"), "ERRO banido da sala");
    let old = b.user_id().unwrap();
    b.close(&mut db);
    let mut again = connect(&mut db, &srv, "bob", &kb);
    assert_ne!(again.user_id().unwrap(), old);
    assert_eq!(ask(&mut again, &mut db, &srv, &kb, "ENTRAR_SALA geral"), "ERRO banido da sala");
    assert_eq!(c.pending(&mut db), Vec::<String>::new());
}

#[test]
fn closing_a_session_tears_it_down() {
    let srv = server();
    let mut db = Store::new();
    let ka = [1u8; 32];
    let kb = [2u8; 32];
    let mut a = connect(&mut db, &srv, "alice", &ka);
    let mut b = connect(&mut db, &srv, "bob", &kb);
    ask(&mut a, &mut db, &srv, &ka, "CRIAR_SALA PUBLICA de_alice");
    ask(&mut b, &mut db, &srv, &kb, "CRIAR_SALA PUBLICA de_bob");
    ask(&mut b, &mut db, &srv, &kb, "ENTRAR_SALA de_alice");
    ask(&mut a, &mut db, &srv, &ka, "ENTRAR_SALA de_bob");
    a.pending(&mut db);
    b.close(&mut db);
    assert_eq!(a.pending(&mut db), vec!["SAIU de_alice bob\n", "SALA_FECHADA de_bob\n"]);
    assert_eq!(User::get_id(&db, "bob"), None);
    assert_eq!(ask(&mut a, &mut db, &srv, &ka, "LISTAR_SALAS"), "SALAS de_alice");
    // a session that never completed its handshake leaves nothing behind
    Session::new().close(&mut db);
    assert_eq!(User::get_id(&db, "alice"), Some(1));
}

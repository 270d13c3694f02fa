use chat_server::codec::{line_from_plaintext, Codec};
use chat_server::crypto::{KEY_LEN, MAX_INPUT};
use chat_server::error::ErrorKind;
use openssl::symm::{decrypt, encrypt, Cipher};

fn key() -> Vec<u8> {
    (0u8..32).collect()
}

fn with_key() -> Codec {
    let mut c = Codec::new();
    c.set_aes_key(key()).unwrap();
    c
}

#[test]
fn limits_are_those_of_the_cipher() {
    assert_eq!(KEY_LEN, 32);
    assert_eq!(KEY_LEN, Cipher::aes_256_ecb().key_len());
    assert_eq!(MAX_INPUT, 1 << 30);
}

#[test]
fn without_a_key_lines_pass_in_plain_text() {
    let c = Codec::new();
    assert!(!c.has_key());
    assert_eq!(c.encode_line("REGISTRO_OK"), Ok("REGISTRO_OK\n".to_string()));
    assert_eq!(c.encode_line("REGISTRO_OK\n"), Ok("REGISTRO_OK\n".to_string()));
    assert_eq!(c.encode_line("  ERRO x  \r\n"), Ok("ERRO x\n".to_string()));
    assert_eq!(c.encode_line(""), Ok("\n".to_string()));
    assert_eq!(c.decode_line("REGISTRO alice\n"), Ok("REGISTRO alice\n".to_string()));
    assert_eq!(c.decode_line(""), Ok(String::new()));
}

#[test]
fn a_key_must_have_the_length_of_the_cipher() {
    let mut c = Codec::new();
    assert_eq!(c.set_aes_key(vec![0u8; 16]), Err(ErrorKind::BadCrypto));
    assert!(!c.has_key());
    assert_eq!(c.set_aes_key(vec![]), Err(ErrorKind::BadCrypto));
    assert_eq!(c.set_aes_key(vec![0u8; 33]), Err(ErrorKind::BadCrypto));
    assert!(!c.has_key());
    assert_eq!(c.set_aes_key(vec![7u8; 32]), Ok(()));
    assert!(c.has_key());
    // a refused key leaves the one that was set
    assert_eq!(c.set_aes_key(vec![1u8; 5]), Err(ErrorKind::BadCrypto));
    assert!(c.has_key());
    let line = c.encode_line("ola").unwrap();
    let secret = openssl::base64::decode_block(&line).unwrap();
    assert_eq!(decrypt(Cipher::aes_256_ecb(), &[7u8; 32], None, &secret).unwrap(), b"ola");
}

#[test]
fn encoded_line_is_base64_of_the_encrypted_trimmed_text() {
    let c = with_key();
    let line = c.encode_line("  SALAS geral outra\n").unwrap();
    assert!(line.ends_with('\n'));
    assert!(!line[..line.len() - 1].contains(char::is_whitespace));
    let secret = encrypt(Cipher::aes_256_ecb(), &key(), None, b"SALAS geral outra").unwrap();
    let mut expected = openssl::base64::encode_block(&secret);
    expected.push('\n');
    assert_eq!(line, expected);
    assert_ne!(line, "SALAS geral outra\n");
}

#[test]
fn decoded_line_is_the_decrypted_text_and_a_line_feed() {
    let c = with_key();
    let secret = encrypt(Cipher::aes_256_ecb(), &key(), None, "ENTRAR_SALA não".as_bytes()).unwrap();
    let mut wire = openssl::base64::encode_block(&secret);
    assert_eq!(c.decode_line(&wire), Ok("ENTRAR_SALA não\n".to_string()));
    wire.push('\n');
    assert_eq!(c.decode_line(&wire), Ok("ENTRAR_SALA não\n".to_string()));
}

#[test]
fn what_is_encoded_decodes_to_itself() {
    let c = with_key();
    for msg in ["", "a", "LISTAR_SALAS", "MENSAGEM geral bob olá", &"x".repeat(1000)] {
        let wire = c.encode_line(msg).unwrap();
        let mut expected = msg.to_string();
        expected.push('\n');
        assert_eq!(c.decode_line(&wire), Ok(expected));
    }
}

#[test]
fn bad_lines_are_bad_crypto() {
    let c = with_key();
    // no base64
    assert_eq!(c.decode_line("%%%%\n"), Err(ErrorKind::BadCrypto));
    // base64 of something that is no whole block
    assert_eq!(c.decode_line("QUJD\n"), Err(ErrorKind::BadCrypto));
    // a plain command
    assert_eq!(c.decode_line("LISTAR_SALAS\n"), Err(ErrorKind::BadCrypto));
    // an empty line decodes to no bytes, which is no ciphertext
    assert_eq!(c.decode_line("\n"), Err(ErrorKind::BadCrypto));
    // encrypted under another key
    let other = encrypt(Cipher::aes_256_ecb(), &[9u8; 32], None, b"LISTAR_SALAS").unwrap();
    let wire = openssl::base64::encode_block(&other);
    assert!(c.decode_line(&wire) != Ok("LISTAR_SALAS\n".to_string()));
}

#[test]
fn decrypted_bytes_must_be_text() {
    let c = with_key();
    let secret = encrypt(Cipher::aes_256_ecb(), &key(), None, &[0xff, 0xfe, 0x00]).unwrap();
    let wire = openssl::base64::encode_block(&secret);
    assert_eq!(c.decode_line(&wire), Err(ErrorKind::BadCrypto));
}

#[test]
fn plaintext_bytes_become_a_line() {
    assert_eq!(line_from_plaintext(b"ola".to_vec()), Ok("ola\n".to_string()));
    assert_eq!(line_from_plaintext(Vec::new()), Ok("\n".to_string()));
    assert_eq!(line_from_plaintext("não".as_bytes().to_vec()), Ok("não\n".to_string()));
    assert_eq!(line_from_plaintext(vec![0xc3]), Err(ErrorKind::BadCrypto));
    assert_eq!(line_from_plaintext(vec![b'a', 0xff]), Err(ErrorKind::BadCrypto));
}

#[test]
fn fatal_kinds_end_the_connection() {
    assert!(ErrorKind::Closed.is_fatal());
    assert!(ErrorKind::BadCrypto.is_fatal());
    assert!(!ErrorKind::Timeout.is_fatal());
    assert!(!ErrorKind::ProtocolViolation.is_fatal());
    assert!(!ErrorKind::ValidationError.is_fatal());
}

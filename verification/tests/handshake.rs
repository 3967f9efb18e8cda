use revpfw3::handshake::{bytes_equal, check_client_hello, client_hello, handshake_magic,
    is_magic};

#[test]
fn magic_is_the_four_known_bytes() {
    assert_eq!(handshake_magic(), vec![b'R', b'P', b'F', 30]);
    assert!(is_magic(&[82, 80, 70, 30]));
    assert!(!is_magic(&[82, 80, 70, 31]));
    assert!(!is_magic(&[82, 80, 70]));
}

#[test]
fn client_hello_is_magic_length_then_key() {
    let hello = client_hello(b"k");
    assert_eq!(hello, vec![82, 80, 70, 30, 0, 0, 0, 1, b'k']);

    let hello = client_hello(b"secret");
    let mut expected = vec![82u8, 80, 70, 30, 0, 0, 0, 6];
    expected.extend_from_slice(b"secret");
    assert_eq!(hello, expected);
}

#[test]
fn server_accepts_exactly_the_right_hello() {
    assert!(check_client_hello(&[82, 80, 70, 30], 1, b"k", b"k"));
}

#[test]
fn wrong_key_is_rejected() {
    assert!(!check_client_hello(&[82, 80, 70, 30], 1, b"x", b"k"));
    // A declared length that does not match the expected key fails
    // before the key bytes are even compared.
    assert!(!check_client_hello(&[82, 80, 70, 30], 2, b"k", b"k"));
    // The empty key matches only the empty key.
    assert!(check_client_hello(&[82, 80, 70, 30], 0, b"", b""));
    assert!(!check_client_hello(&[82, 80, 70, 30], 0, b"", b"k"));
}

#[test]
fn wrong_magic_is_rejected_whatever_the_key() {
    assert!(!check_client_hello(&[0, 0, 0, 0], 1, b"k", b"k"));
}

#[test]
fn byte_equality_is_exact() {
    assert!(bytes_equal(b"", b""));
    assert!(bytes_equal(b"abc", b"abc"));
    assert!(!bytes_equal(b"abc", b"abd"));
    assert!(!bytes_equal(b"abc", b"abcd"));
}

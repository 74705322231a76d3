use yewoh::protocol::{ClientVersion, Encryption, LobbyEncryptionKind, LobbyPass, TwofishPass};

#[test]
fn lobby_cipher_undoes_itself() {
    let cv = ClientVersion::new(5, 0, 1, 0);
    let data: Vec<u8> = (0..100u32).map(|i| (i * 7) as u8).collect();
    let mut a = LobbyPass::new(LobbyEncryptionKind::V3, cv, 0xdeadbeef);
    let mut enc = data.clone();
    a.encrypt(&mut enc);
    assert_ne!(enc, data);
    let mut b = LobbyPass::new(LobbyEncryptionKind::V3, cv, 0xdeadbeef);
    b.encrypt(&mut enc);
    assert_eq!(enc, data);
}

#[test]
fn twofish_client_stream_undoes_itself() {
    let data: Vec<u8> = (0..300u32).map(|i| (i * 13) as u8).collect();
    let mut a = TwofishPass::new(42);
    let mut enc = data.clone();
    a.crypt_client_to_server(&mut enc);
    assert_ne!(enc, data);
    let mut b = TwofishPass::new(42);
    b.crypt_client_to_server(&mut enc);
    assert_eq!(enc, data);
}

#[test]
fn game_cipher_only_for_twofish_clients() {
    assert!(Encryption::new(ClientVersion::new(7, 0, 20, 0), 1, false).is_some());
    assert!(Encryption::new(ClientVersion::new(2, 0, 0, 0), 1, false).is_none());
    assert!(Encryption::new(ClientVersion::new(2, 0, 0, 0), 1, true).is_some());
}

#[test]
fn lobby_cipher_in_parts_equals_whole() {
    let cv = ClientVersion::new(4, 0, 11, 0);
    let data: Vec<u8> = (0..40u8).collect();
    let mut whole = data.clone();
    LobbyPass::new(LobbyEncryptionKind::V2, cv, 0x12345678).encrypt(&mut whole);
    let mut parts = data.clone();
    let mut p = LobbyPass::new(LobbyEncryptionKind::V2, cv, 0x12345678);
    let (a, b) = parts.split_at_mut(13);
    p.encrypt(a);
    p.encrypt(b);
    assert_eq!(parts, whole);
}

#[test]
fn twofish_client_pass_in_parts_equals_whole() {
    let data: Vec<u8> = (0..600u32).map(|i| (i * 7) as u8).collect();
    let mut whole = data.clone();
    TwofishPass::new(0xcafebabe).crypt_client_to_server(&mut whole);
    let mut parts = data.clone();
    let mut p = TwofishPass::new(0xcafebabe);
    let (a, rest) = parts.split_at_mut(250);
    let (b, c) = rest.split_at_mut(20);
    p.crypt_client_to_server(a);
    p.crypt_client_to_server(b);
    p.crypt_client_to_server(c);
    assert_eq!(parts, whole);
}

#[test]
fn lobby_pass_clone_goes_on_with_the_same_keystream() {
    let cv = ClientVersion::new(6, 0, 5, 0);
    let mut p = LobbyPass::new(LobbyEncryptionKind::V1, cv, 0x01020304);
    let mut warmup = vec![0u8; 37];
    p.encrypt(&mut warmup);
    let mut q = p.clone();
    let data: Vec<u8> = (0..64u8).collect();
    let mut enc = data.clone();
    p.encrypt(&mut enc);
    assert_ne!(enc, data);
    q.encrypt(&mut enc);
    assert_eq!(enc, data);
}

#[test]
fn twofish_client_clone_undoes_the_pass() {
    let mut p = TwofishPass::new(0x0badf00d);
    let mut warmup = vec![0u8; 270];
    p.crypt_client_to_server(&mut warmup);
    let mut q = p.clone();
    let data: Vec<u8> = (0..300u32).map(|i| (i * 3) as u8).collect();
    let mut enc = data.clone();
    p.crypt_client_to_server(&mut enc);
    assert_ne!(enc, data);
    q.crypt_client_to_server(&mut enc);
    assert_eq!(enc, data);
}

#[test]
fn twofish_server_keystream_repeats_every_sixteen_bytes() {
    let mut p = TwofishPass::new(7);
    let mut q = p.clone();
    let mut data = [0u8; 32];
    p.crypt_server_to_client(&mut data);
    assert!(data.iter().any(|b| *b != 0));
    for i in 0..16 {
        assert_eq!(data[i], data[i + 16]);
    }
    q.crypt_server_to_client(&mut data);
    assert_eq!(data, [0u8; 32]);
}

#[test]
fn twofish_server_pass_in_parts_equals_whole() {
    let data: Vec<u8> = (0..50u8).collect();
    let mut whole = data.clone();
    TwofishPass::new(99).crypt_server_to_client(&mut whole);
    let mut parts = data.clone();
    let mut p = TwofishPass::new(99);
    let (a, b) = parts.split_at_mut(11);
    p.crypt_server_to_client(a);
    p.crypt_server_to_client(b);
    assert_eq!(parts, whole);
}

#[test]
fn connection_cipher_clone_keeps_its_state() {
    let cv = ClientVersion::new(7, 0, 20, 0);
    let mut e = Encryption::new(cv, 0x5555, false).unwrap();
    let mut warmup = vec![1u8; 10];
    e.crypt_client_to_server(&mut warmup);
    let mut f = e.clone();
    let data: Vec<u8> = (0..20u8).collect();
    let mut a = data.clone();
    let mut b = data.clone();
    e.crypt_client_to_server(&mut a);
    f.crypt_client_to_server(&mut b);
    assert_eq!(a, b);
    assert_ne!(a, data);
}

use drop_sharing::discovery::connection::{DecodeError, IndicationBytes, Serialize};
use drop_sharing::encryption::cipher::{Cipher, TransferError, NONCE_SIZE};
use drop_sharing::encryption::keygen::{Ciphertext, EncapsulationKey, KeyPair, Secret};
use drop_sharing::discovery::connection::Deserialize;
use drop_sharing::file_collection::send_chunked::{
    decode_file_metadata, seal_file, validate_file_name, FileCollector, FileSender,
};
use drop_sharing::file_collection::tree_walking::{FileHeader, CHUNCK_SIZE, WIRE_CHUNK_SIZE};
use std::path::PathBuf;

#[test]
fn accepts_plain_file_names() {
    assert!(validate_file_name("photo.jpg").is_ok());
    assert!(validate_file_name("notes 2026.txt").is_ok());
}

#[test]
fn rejects_paths_instead_of_file_names() {
    assert!(validate_file_name("../secret.txt").is_err());
    assert!(validate_file_name("folder/file.txt").is_err());
    assert!(validate_file_name("/tmp/file.txt").is_err());
}

#[test]
fn rejects_dot_names_and_empty_names() {
    assert!(validate_file_name("").is_err());
    assert!(validate_file_name(".").is_err());
    assert!(validate_file_name("..").is_err());
    assert!(validate_file_name("...").is_ok());
    assert!(validate_file_name(".hidden").is_ok());
    assert!(validate_file_name("name/").is_err());
}

#[test]
fn decodes_file_size_and_plaintext_chunk_size() {
    let mut metadata = Vec::new();
    metadata.extend_from_slice(&5_000_u64.to_be_bytes());
    metadata.extend_from_slice(&4_108_u32.to_be_bytes());

    assert_eq!(decode_file_metadata(&metadata).unwrap(), (5_000, 4_096));
}

#[test]
fn rejects_chunk_size_without_payload_space() {
    let mut metadata = Vec::new();
    metadata.extend_from_slice(&10_u64.to_be_bytes());
    metadata.extend_from_slice(&(NONCE_SIZE as u32).to_be_bytes());

    assert!(matches!(decode_file_metadata(&metadata), Err(TransferError::InvalidChunkSize)));
}

#[test]
fn rejects_truncated_metadata() {
    assert!(matches!(
        decode_file_metadata(&[0; 11]),
        Err(TransferError::Decode(DecodeError::Truncated { expected: 12, actual: 11 }))
    ));
}

fn shared_cipher() -> Cipher {
    let pair = KeyPair::generate_pair();
    let key = EncapsulationKey::deserialize(&pair.serialize()).unwrap();
    let secret = Secret::from(key);
    Cipher::try_from(secret).unwrap()
}

#[test]
fn secret() {
    //sender side
    let sender_key_pair = KeyPair::generate_pair();
    let serial = sender_key_pair.serialize();

    //reciever side
    let decerial = EncapsulationKey::deserialize(&serial).unwrap();
    let recieve_secret = Secret::from(decerial);
    let serialized_secrset = recieve_secret.serialize();

    //sender side
    let cipher = Ciphertext::deserialize(&serialized_secrset).unwrap();
    let sender_secret = sender_key_pair.construct_secret_from_keypair_n_cipher(cipher);

    assert!(sender_secret == recieve_secret);
}

#[test]
fn public_key_deserialization_rejects_empty_input() {
    assert!(EncapsulationKey::deserialize(&[]).is_err());
}

#[test]
fn key_exchange_messages_reject_bad_input() {
    let pair = KeyPair::generate_pair();
    let mut serial = pair.serialize();
    assert_eq!(serial.len(), 1569);
    assert_eq!(serial[0], 5);
    assert!(matches!(
        EncapsulationKey::deserialize(&serial[..100]),
        Err(DecodeError::Truncated { expected: 1569, actual: 100 })
    ));
    serial[0] = 6;
    assert!(matches!(
        EncapsulationKey::deserialize(&serial),
        Err(DecodeError::UnexpectedIndicationType { expected: IndicationBytes::PubKeySend, actual: 6 })
    ));
    let mut invalid = vec![5u8];
    invalid.extend_from_slice(&[0xff; 1568]);
    assert!(matches!(EncapsulationKey::deserialize(&invalid), Err(DecodeError::InvalidValue(_))));
    assert!(Ciphertext::deserialize(&[6, 1, 2]).is_err());
    assert!(Ciphertext::deserialize(&[]).is_err());
}

#[test]
fn encrypted_chunks_round_trip_and_authenticate() {
    let cipher = shared_cipher();
    let header = FileHeader::new(PathBuf::from("/tmp/a"), "a.txt".to_string(), 3, 4096);
    let (serialized, sealed) = cipher.encrypt_with_header(b"abc", &header).unwrap();
    assert_eq!(serialized, header.serialize());
    assert_eq!(sealed.len(), 3 + 16 + 12);
    assert_eq!(cipher.decrypt(&sealed, &serialized).unwrap(), b"abc".to_vec());
    assert!(matches!(cipher.decrypt(&sealed, &[]), Err(TransferError::Encrytion(_))));

    let plain = cipher.encrypt(b"hello").unwrap();
    assert_ne!(&plain[..5], b"hello");
    assert_eq!(cipher.decrypt(&plain, &[]).unwrap(), b"hello".to_vec());
    let mut tampered = plain.clone();
    tampered[0] ^= 1;
    assert!(matches!(cipher.decrypt(&tampered, &[]), Err(TransferError::Encrytion(_))));
    assert!(matches!(cipher.decrypt(&[1, 2, 3], &[]), Err(TransferError::InvalidChunkSize)));
}

#[test]
fn file_header_bytes() {
    let header = FileHeader::new(PathBuf::from("/x/a.b"), "a.b".to_string(), 258, 4096);
    assert_eq!(
        header.serialize(),
        vec![8, 0, 0, 0, 3, b'a', b'.', b'b', 0, 0, 0, 0, 0, 0, 1, 2, 0, 0, 16, 0]
    );
    assert_eq!(header.file_size(), 258);
    assert_eq!(header.chunk_size(), 4096);
    assert_eq!(header.path(), &PathBuf::from("/x/a.b"));
}

#[test]
fn sender_cuts_files_in_chunks() {
    let cipher = shared_cipher();
    let header = FileHeader::new(PathBuf::from("f"), "f".to_string(), 10, 16);
    let mut sender = FileSender::new(&header).unwrap();
    let mut sizes = Vec::new();
    while sender.next_read() > 0 {
        let n = sender.next_read();
        let chunk = vec![7u8; n];
        let sealed = sender.seal(&chunk, &header, &cipher).unwrap();
        assert_eq!(sealed.len(), n + 28);
        sizes.push(n);
    }
    assert_eq!(sizes, vec![4, 4, 2]);
    let zero = FileHeader::new(PathBuf::from("f"), "f".to_string(), 10, 0);
    assert!(matches!(FileSender::new(&zero), Err(TransferError::InvalidChunkSize)));
    let nonce_only = FileHeader::new(PathBuf::from("f"), "f".to_string(), 10, 12);
    assert!(matches!(FileSender::new(&nonce_only), Err(TransferError::InvalidChunkSize)));
    let wide = FileHeader::new(PathBuf::from("f"), "f".to_string(), 5000, WIRE_CHUNK_SIZE);
    assert_eq!(FileSender::new(&wide).unwrap().next_read(), CHUNCK_SIZE);
}

fn run_collector(
    collector: &mut FileCollector,
    cipher: &Cipher,
    stream: &[u8],
) -> Result<(Vec<String>, Vec<Vec<u8>>), TransferError> {
    let mut created = Vec::new();
    let mut written: Vec<Vec<u8>> = Vec::new();
    let mut at = 0;
    let mut next = collector.first_read();
    while let Some(n) = next {
        let data = &stream[at..at + n];
        at += n;
        let step = collector.on_bytes(data, cipher)?;
        if let Some(name) = step.create {
            created.push(name);
            written.push(Vec::new());
        }
        if let Some(bytes) = step.write {
            written.last_mut().unwrap().extend_from_slice(&bytes);
        }
        next = step.next_read;
    }
    assert_eq!(at, stream.len());
    Ok((created, written))
}

#[test]
fn receiver_collects_what_the_sender_sends() {
    let cipher = shared_cipher();
    let mut stream = Vec::new();
    let big: Vec<u8> = (0..10_000u32).map(|i| (i % 251) as u8).collect();
    let files: Vec<(&str, Vec<u8>)> = vec![
        ("one.txt", b"first file".to_vec()),
        ("empty", Vec::new()),
        ("two", vec![9u8; 100]),
        ("big", big.clone()),
        ("exact", vec![3u8; 4096]),
    ];
    for (name, contents) in &files {
        let header = FileHeader::new(PathBuf::from(name), name.to_string(), contents.len() as u64, WIRE_CHUNK_SIZE);
        stream.extend_from_slice(&header.serialize());
        let mut sender = FileSender::new(&header).unwrap();
        let mut at = 0;
        while sender.next_read() > 0 {
            let n = sender.next_read();
            stream.extend_from_slice(&sender.seal(&contents[at..at + n], &header, &cipher).unwrap());
            at += n;
        }
    }
    let mut collector = FileCollector::new(files.len());
    let (created, written) = run_collector(&mut collector, &cipher, &stream).unwrap();
    assert_eq!(
        created,
        vec!["one.txt".to_string(), "empty".to_string(), "two".to_string(), "big".to_string(), "exact".to_string()]
    );
    assert_eq!(written, vec![b"first file".to_vec(), Vec::new(), vec![9u8; 100], big, vec![3u8; 4096]]);
}

#[test]
fn receiver_refuses_bad_headers() {
    let cipher = shared_cipher();
    let mut collector = FileCollector::new(1);
    assert_eq!(collector.first_read(), Some(5));
    assert!(matches!(
        collector.on_bytes(&[7, 0, 0, 0, 1], &cipher),
        Err(TransferError::Decode(DecodeError::UnexpectedIndicationType { .. }))
    ));

    let mut collector = FileCollector::new(1);
    let step = collector.on_bytes(&[8, 0, 0, 0, 5], &cipher).unwrap();
    assert_eq!(step.next_read, Some(5));
    assert!(matches!(
        collector.on_bytes(b"../ab", &cipher),
        Err(TransferError::Decode(DecodeError::InvalidValue("invalid file name")))
    ));

    let mut collector = FileCollector::new(1);
    collector.on_bytes(&[8, 0, 0, 0, 2], &cipher).unwrap();
    assert!(matches!(
        collector.on_bytes(&[0xff, 0xfe], &cipher),
        Err(TransferError::Decode(DecodeError::InvalidUtf8))
    ));

    assert_eq!(FileCollector::new(0).first_read(), None);
}

#[test]
fn receiver_refuses_a_forged_chunk() {
    let cipher = shared_cipher();
    let other = shared_cipher();
    let header = FileHeader::new(PathBuf::from("a"), "a".to_string(), 3, 4096);
    let mut stream = header.serialize();
    let mut sender = FileSender::new(&header).unwrap();
    stream.extend_from_slice(&sender.seal(b"abc", &header, &other).unwrap());
    let mut collector = FileCollector::new(1);
    assert!(matches!(run_collector(&mut collector, &cipher, &stream), Err(TransferError::Encrytion(_))));
}

#[test]
fn sealing_under_a_given_nonce_is_deterministic() {
    let cipher = shared_cipher();
    let nonce = [7u8; 12];
    let first = cipher.seal_with_nonce(&nonce, b"payload", b"aad").unwrap();
    let second = cipher.seal_with_nonce(&nonce, b"payload", b"aad").unwrap();
    assert_eq!(first, second);
    assert_eq!(first.len(), 7 + 16 + 12);
    assert_eq!(&first[first.len() - 12..], &nonce);
    assert_ne!(&first[..7], b"payload");
    assert_eq!(cipher.decrypt(&first, b"aad").unwrap(), b"payload".to_vec());
    assert!(cipher.decrypt(&first, b"other").is_err());
}

#[test]
fn sealed_files_arrive_intact() {
    let cipher = shared_cipher();
    let contents: Vec<u8> = (0..9000u32).map(|i| (i * 7 % 256) as u8).collect();
    let header = FileHeader::new(PathBuf::from("data.bin"), "data.bin".to_string(), contents.len() as u64, WIRE_CHUNK_SIZE);
    let sealed = seal_file(&header, &contents, &cipher).unwrap();
    assert_eq!(sealed.iter().map(|c| c.len()).collect::<Vec<_>>(), vec![4096 + 28, 4096 + 28, 808 + 28]);
    let mut stream = header.serialize();
    for chunk in &sealed {
        stream.extend_from_slice(chunk);
    }
    let mut collector = FileCollector::new(1);
    let (created, written) = run_collector(&mut collector, &cipher, &stream).unwrap();
    assert_eq!(created, vec!["data.bin".to_string()]);
    assert_eq!(written, vec![contents]);

    let empty = FileHeader::new(PathBuf::from("e"), "e".to_string(), 0, WIRE_CHUNK_SIZE);
    assert!(seal_file(&empty, &[], &cipher).unwrap().is_empty());
    let narrow = FileHeader::new(PathBuf::from("e"), "e".to_string(), 1, 12);
    assert!(matches!(seal_file(&narrow, &[1], &cipher), Err(TransferError::InvalidChunkSize)));
}

#[test]
fn key_agreement_messages_have_their_sizes() {
    let pair = KeyPair::generate_pair();
    assert_eq!(pair.serialize().len(), 1 + 1568);
    let secret = Secret::from(EncapsulationKey::deserialize(&pair.serialize()).unwrap());
    assert_eq!(secret.serialize().len(), 1 + 1568);
}

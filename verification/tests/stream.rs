use backuptool::crypto::{encrypt, Cipher, NONCE_LEN, TAG_LEN};
use backuptool::error::BackupError;
use backuptool::stream::{
    chunk_ad, chunk_count, chunk_span, record_span, decrypt_blob, open_chunk, seal_chunk, starts_chunked, stream_magic,
    CHUNK_LEN, MAGIC_LEN, RECORD_LEN,
};

fn chunked(cipher: Cipher, key: &[u8; 32], data: &[u8]) -> Vec<u8> {
    let size = data.len() as u64;
    let mut blob = stream_magic();
    let mut pos = 0usize;
    for i in 0..chunk_count(size) {
        let (len, last) = chunk_span(size, i);
        blob.extend(seal_chunk(cipher, key, i, last, &data[pos..pos + len]).unwrap());
        pos += len;
    }
    blob
}

#[test]
fn associated_data_names_index_and_end() {
    assert_eq!(chunk_ad(1, true), vec![1, 0, 0, 0, 0, 0, 0, 0, 1]);
    assert_eq!(chunk_ad(0x0102, false), vec![2, 1, 0, 0, 0, 0, 0, 0, 0]);
    assert_eq!(stream_magic(), b"BKTSTRM1".to_vec());
    assert_eq!(MAGIC_LEN, 8);
    assert_eq!(RECORD_LEN, NONCE_LEN + CHUNK_LEN + TAG_LEN);
}

#[test]
fn chunk_counts_and_spans() {
    assert_eq!(chunk_count(0), 1);
    assert_eq!(chunk_count(1), 1);
    assert_eq!(chunk_count(CHUNK_LEN as u64), 1);
    assert_eq!(chunk_count(CHUNK_LEN as u64 + 1), 2);
    assert_eq!(chunk_span(0, 0), (0, true));
    assert_eq!(chunk_span(CHUNK_LEN as u64 + 5, 0), (CHUNK_LEN, false));
    assert_eq!(chunk_span(CHUNK_LEN as u64 + 5, 1), (5, true));
}

#[test]
fn chunk_opens_only_in_its_place() {
    let key = [3u8; 32];
    let rec = seal_chunk(Cipher::Aes256Gcm, &key, 4, false, b"chunk").unwrap();
    assert_eq!(rec.len(), NONCE_LEN + 5 + TAG_LEN);
    assert_eq!(open_chunk(Cipher::Aes256Gcm, &key, 4, false, &rec).unwrap(), b"chunk");
    assert!(matches!(open_chunk(Cipher::Aes256Gcm, &key, 5, false, &rec), Err(BackupError::DecryptFailed)));
    assert!(matches!(open_chunk(Cipher::Aes256Gcm, &key, 4, true, &rec), Err(BackupError::DecryptFailed)));
    assert!(matches!(seal_chunk(Cipher::Plain, &key, 0, true, b"x"), Err(BackupError::EncryptNoCipher)));
}

#[test]
fn chunked_blob_roundtrip() {
    let key = [5u8; 32];
    let data: Vec<u8> = (0..(2 * CHUNK_LEN + 10)).map(|i| (i % 251) as u8).collect();
    for cipher in [Cipher::Aes256Gcm, Cipher::ChaCha20Poly1305] {
        let blob = chunked(cipher, &key, &data);
        assert!(starts_chunked(&blob));
        assert_eq!(blob.len(), MAGIC_LEN + 2 * RECORD_LEN + NONCE_LEN + 10 + TAG_LEN);
        assert_eq!(decrypt_blob(cipher, &key, &blob).unwrap(), data);
        let empty = chunked(cipher, &key, b"");
        assert_eq!(empty.len(), MAGIC_LEN + NONCE_LEN + TAG_LEN);
        assert_eq!(decrypt_blob(cipher, &key, &empty).unwrap(), Vec::<u8>::new());
    }
}

#[test]
fn cut_or_reordered_blob_is_refused() {
    let key = [6u8; 32];
    let data: Vec<u8> = vec![7u8; 2 * CHUNK_LEN];
    let blob = chunked(Cipher::Aes256Gcm, &key, &data);
    let cut = &blob[..MAGIC_LEN + RECORD_LEN];
    assert!(matches!(decrypt_blob(Cipher::Aes256Gcm, &key, cut), Err(BackupError::DecryptFailed)));
    let mut swapped = stream_magic();
    swapped.extend_from_slice(&blob[MAGIC_LEN + RECORD_LEN..]);
    swapped.extend_from_slice(&blob[MAGIC_LEN..MAGIC_LEN + RECORD_LEN]);
    assert!(matches!(decrypt_blob(Cipher::Aes256Gcm, &key, &swapped), Err(BackupError::DecryptFailed)));
}

#[test]
fn whole_file_blob_still_opens() {
    let key = [8u8; 32];
    let old = encrypt(Cipher::ChaCha20Poly1305, &key, b"older set").unwrap();
    assert!(!starts_chunked(&old));
    assert_eq!(decrypt_blob(Cipher::ChaCha20Poly1305, &key, &old).unwrap(), b"older set");
    assert!(!starts_chunked(b"BKTSTR"));
}

#[test]
fn records_are_split_as_written() {
    assert_eq!(record_span(0), (0, true));
    assert_eq!(record_span(40), (40, true));
    assert_eq!(record_span(RECORD_LEN as u64), (RECORD_LEN, true));
    assert_eq!(record_span(RECORD_LEN as u64 + 28), (RECORD_LEN, false));
    let key = [4u8; 32];
    let data: Vec<u8> = vec![1u8; CHUNK_LEN + 3];
    let blob = chunked(Cipher::Aes256Gcm, &key, &data);
    let mut rest = (blob.len() - MAGIC_LEN) as u64;
    let mut pos = MAGIC_LEN;
    let mut out = Vec::new();
    let mut index = 0u64;
    loop {
        let (len, last) = record_span(rest);
        out.extend(open_chunk(Cipher::Aes256Gcm, &key, index, last, &blob[pos..pos + len]).unwrap());
        if last {
            break;
        }
        pos += len;
        rest -= len as u64;
        index += 1;
    }
    assert_eq!(out, data);
}

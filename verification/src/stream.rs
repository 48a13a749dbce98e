//! Chunked encryption of file contents, so that a file is sealed and opened
//! one mebibyte at a time instead of whole.
//!
//! A chunked blob is the magic header `BKTSTRM1` followed by one record per
//! chunk: `[nonce (12 bytes)] ++ [ciphertext ++ tag]`. Chunk `i` is sealed
//! with the associated data `i` (8 bytes, little-endian) followed by a byte
//! that is 1 for the last chunk and 0 otherwise, so that records cannot be
//! reordered, dropped or cut off unnoticed. Every chunk but the last holds
//! exactly `CHUNK_LEN` bytes; an empty file is one empty last chunk. A blob
//! without the header is a whole-file blob of earlier versions.
use vstd::prelude::*;

use crate::crypto::{
    decrypt, decrypt_ad_spec, decrypt_len_ok, decrypt_spec, decrypt_with_ad, encrypt_with_ad, Cipher, NONCE_LEN,
    TAG_LEN,
};
use crate::error::BackupError;
use vstd::slice::slice_subrange;

verus! {

/// Plaintext bytes per chunk (1 MiB).
pub const CHUNK_LEN: usize = 1_048_576;

/// Bytes of a full record: nonce, a full chunk and the tag.
pub const RECORD_LEN: usize = 1_048_604;

/// Length of the magic header.
pub const MAGIC_LEN: usize = 8;

/// The magic header of a chunked blob: `BKTSTRM1`.
pub open spec fn stream_magic_spec() -> Seq<u8> {
    seq![0x42u8, 0x4bu8, 0x54u8, 0x53u8, 0x54u8, 0x52u8, 0x4du8, 0x31u8]
}

/// The magic header of a chunked blob.
pub fn stream_magic() -> (r: Vec<u8>)
    ensures
        r@ == stream_magic_spec(),
{
    let r: Vec<u8> = vec![0x42u8, 0x4bu8, 0x54u8, 0x53u8, 0x54u8, 0x52u8, 0x4du8, 0x31u8];
    assert(r@ =~= stream_magic_spec());
    r
}

/// The `n` low bytes of `x`, least significant first.
pub open spec fn le_bytes(x: nat, n: nat) -> Seq<u8>
    decreases n,
{
    if n == 0 {
        Seq::empty()
    } else {
        seq![(x % 256) as u8] + le_bytes(x / 256, (n - 1) as nat)
    }
}

proof fn lemma_le_bytes_len(x: nat, n: nat)
    ensures
        le_bytes(x, n).len() == n,
    decreases n,
{
    if n > 0 {
        lemma_le_bytes_len(x / 256, (n - 1) as nat);
    }
}

/// The associated data of chunk `index`: the index in 8 little-endian bytes,
/// then 1 for the last chunk and 0 otherwise.
pub open spec fn chunk_ad_spec(index: u64, last: bool) -> Seq<u8> {
    le_bytes(index as nat, 8) + seq![if last { 1u8 } else { 0u8 }]
}

/// The associated data of chunk `index`.
pub fn chunk_ad(index: u64, last: bool) -> (r: Vec<u8>)
    ensures
        r@ == chunk_ad_spec(index, last),
        r@.len() == 9,
{
    proof {
        lemma_le_bytes_len(index as nat, 8);
    }
    let mut out: Vec<u8> = Vec::new();
    let mut x: u64 = index;
    let mut k: usize = 0;
    while k < 8
        invariant
            k <= 8,
            out@ + le_bytes(x as nat, (8 - k) as nat) == le_bytes(index as nat, 8),
        decreases 8 - k,
    {
        let ghost before = out@;
        out.push((x % 256) as u8);
        proof {
            assert(le_bytes(x as nat, (8 - k) as nat) == seq![(x % 256) as u8] + le_bytes(x as nat / 256, (8 - k - 1) as nat));
            assert(out@ + le_bytes(x as nat / 256, (8 - k - 1) as nat) =~= before + le_bytes(x as nat, (8 - k) as nat));
        }
        x = x / 256;
        k = k + 1;
    }
    assert(out@ + le_bytes(x as nat, 0) =~= out@);
    out.push(if last { 1u8 } else { 0u8 });
    out
}

/// What opening record `index` gives.
pub open spec fn open_chunk_spec(cipher: Cipher, key: Seq<u8>, index: u64, last: bool, record: Seq<u8>) -> Result<Seq<u8>, BackupError> {
    decrypt_ad_spec(cipher, key, chunk_ad_spec(index, last), record)
}

/// Seals chunk `index` of a file under a fresh random nonce; it fails only
/// when no nonce can be drawn.
pub fn seal_chunk(cipher: Cipher, key: &[u8; 32], index: u64, last: bool, chunk: &[u8]) -> (r: Result<Vec<u8>, BackupError>)
    requires
        chunk@.len() <= CHUNK_LEN,
    ensures
        cipher == Cipher::Plain ==> r matches Err(BackupError::EncryptNoCipher),
        cipher != Cipher::Plain ==> r is Ok || r->Err_0 is Random,
        r matches Ok(rec) ==> rec@.len() == NONCE_LEN + chunk@.len() + TAG_LEN
            && open_chunk_spec(cipher, key@, index, last, rec@) == Ok::<Seq<u8>, BackupError>(chunk@),
{
    let ad = chunk_ad(index, last);
    encrypt_with_ad(cipher, key, ad.as_slice(), chunk)
}

/// Opens record `index` of a chunked blob.
pub fn open_chunk(cipher: Cipher, key: &[u8; 32], index: u64, last: bool, record: &[u8]) -> (r: Result<Vec<u8>, BackupError>)
    requires
        record@.len() <= RECORD_LEN,
    ensures
        match open_chunk_spec(cipher, key@, index, last, record@) {
            Ok(p) => r matches Ok(v) && v@ == p,
            Err(e) => r matches Err(e2) && e2 == e,
        },
{
    let ad = chunk_ad(index, last);
    decrypt_with_ad(cipher, key, ad.as_slice(), record)
}

/// The number of chunks of a file of `size` bytes (an empty file has one).
pub open spec fn chunk_count_spec(size: nat) -> nat {
    if size == 0 {
        1
    } else {
        ((size + CHUNK_LEN - 1) / (CHUNK_LEN as int)) as nat
    }
}

/// The number of chunks of a file of `size` bytes.
pub fn chunk_count(size: u64) -> (n: u64)
    ensures
        n == chunk_count_spec(size as nat),
        n >= 1,
{
    if size == 0 {
        1
    } else {
        size / 1_048_576 + if size % 1_048_576 == 0 { 0 } else { 1 }
    }
}

/// The length of chunk `index` of a file of `size` bytes, and whether it is
/// the last one.
pub open spec fn chunk_span_spec(size: nat, index: nat) -> (nat, bool) {
    let start = index * CHUNK_LEN;
    (if size - start >= CHUNK_LEN { CHUNK_LEN as nat } else { (size - start) as nat }, index + 1 == chunk_count_spec(size))
}

/// The length of chunk `index` of a file of `size` bytes, and whether it is
/// the last one.
pub fn chunk_span(size: u64, index: u64) -> (r: (usize, bool))
    requires
        index < chunk_count_spec(size as nat),
    ensures
        (r.0 as nat, r.1) == chunk_span_spec(size as nat, index as nat),
        r.0 <= CHUNK_LEN,
{
    let count = chunk_count(size);
    proof {
        assert(index * CHUNK_LEN <= size) by (nonlinear_arith)
            requires
                index < count,
                count == (if size == 0 { 1 } else { (size + CHUNK_LEN - 1) / (CHUNK_LEN as int) }),
                CHUNK_LEN == 1_048_576,
        ;
    }
    let start = index * 1_048_576;
    let rest = size - start;
    let len: usize = if rest >= 1_048_576 { 1_048_576 } else { rest as usize };
    (len, index + 1 == count)
}

/// What the records of a chunked blob, from record `index` on, open to.
pub open spec fn open_records(cipher: Cipher, key: Seq<u8>, body: Seq<u8>, index: u64) -> Result<Seq<u8>, BackupError>
    decreases body.len(),
{
    if body.len() <= RECORD_LEN {
        open_chunk_spec(cipher, key, index, true, body)
    } else {
        match open_chunk_spec(cipher, key, index, false, body.take(RECORD_LEN as int)) {
            Err(e) => Err(e),
            Ok(p) => match open_records(cipher, key, body.skip(RECORD_LEN as int), (index + 1) as u64) {
                Ok(q) => Ok(p + q),
                Err(e) => Err(e),
            },
        }
    }
}

/// The length of the next record of a chunked blob when `rest` bytes of its
/// body remain, and whether that record is the last: the last record is
/// whatever remains once no more than a full record does.
pub open spec fn record_span_spec(rest: nat) -> (nat, bool) {
    if rest <= RECORD_LEN {
        (rest, true)
    } else {
        (RECORD_LEN as nat, false)
    }
}

/// The length of the next record when `rest` bytes of a chunked blob's body
/// remain, and whether it is the last.
pub fn record_span(rest: u64) -> (r: (usize, bool))
    ensures
        (r.0 as nat, r.1) == record_span_spec(rest as nat),
        r.0 <= RECORD_LEN,
{
    if rest <= 1_048_604 {
        (rest as usize, true)
    } else {
        (RECORD_LEN, false)
    }
}

/// Reading a chunked blob record by record, as `record_span` splits it,
/// gives what `open_records` gives: the next record is opened as record
/// `index` (flagged last when it is), and the rest from record `index + 1`.
pub proof fn lemma_open_records_step(cipher: Cipher, key: Seq<u8>, body: Seq<u8>, index: u64)
    ensures
        ({
            let (len, last) = record_span_spec(body.len());
            open_records(cipher, key, body, index) == if last {
                open_chunk_spec(cipher, key, index, true, body.take(len as int))
            } else {
                prepend(
                    match open_chunk_spec(cipher, key, index, false, body.take(len as int)) {
                        Ok(p) => p,
                        Err(_) => Seq::empty(),
                    },
                    match open_chunk_spec(cipher, key, index, false, body.take(len as int)) {
                        Ok(_) => open_records(cipher, key, body.skip(len as int), (index + 1) as u64),
                        Err(e) => Err(e),
                    },
                )
            }
        }),
{
    if body.len() <= RECORD_LEN {
        assert(body.take(body.len() as int) =~= body);
    }
}

/// Whether a blob is chunked: it starts with the magic header.
pub open spec fn is_chunked(blob: Seq<u8>) -> bool {
    blob.len() >= MAGIC_LEN && blob.take(MAGIC_LEN as int) == stream_magic_spec()
}

/// What a stored blob decrypts to: a chunked blob record by record, any
/// other as a whole-file blob.
pub open spec fn decrypt_blob_spec(cipher: Cipher, key: Seq<u8>, blob: Seq<u8>) -> Result<Seq<u8>, BackupError> {
    if is_chunked(blob) {
        open_records(cipher, key, blob.skip(MAGIC_LEN as int), 0)
    } else {
        decrypt_spec(cipher, key, blob)
    }
}

/// Whether a blob starts with the magic header of a chunked blob.
pub fn starts_chunked(blob: &[u8]) -> (r: bool)
    ensures
        r == is_chunked(blob@),
{
    if blob.len() < MAGIC_LEN {
        return false;
    }
    let m = stream_magic();
    let mut i: usize = 0;
    while i < MAGIC_LEN
        invariant
            i <= MAGIC_LEN,
            blob@.len() >= MAGIC_LEN,
            m@ == stream_magic_spec(),
            forall|j: int| 0 <= j < i ==> blob@[j] == m@[j],
        decreases MAGIC_LEN - i,
    {
        if blob[i] != m[i] {
            assert(blob@.take(MAGIC_LEN as int)[i as int] != stream_magic_spec()[i as int]);
            return false;
        }
        i = i + 1;
    }
    assert(blob@.take(MAGIC_LEN as int) =~= stream_magic_spec());
    true
}

/// The result of joining opened bytes in front of the rest's result.
pub open spec fn prepend(p: Seq<u8>, rest: Result<Seq<u8>, BackupError>) -> Result<Seq<u8>, BackupError> {
    match rest {
        Ok(q) => Ok(p + q),
        Err(e) => Err(e),
    }
}

/// Decrypts a stored blob: a chunked blob record by record, any other as a
/// whole-file blob.
pub fn decrypt_blob(cipher: Cipher, key: &[u8; 32], blob: &[u8]) -> (r: Result<Vec<u8>, BackupError>)
    requires
        is_chunked(blob@) || decrypt_len_ok(cipher, blob@.len() as int),
    ensures
        match decrypt_blob_spec(cipher, key@, blob@) {
            Ok(p) => r matches Ok(v) && v@ == p,
            Err(e) => r matches Err(e2) && e2 == e,
        },
{
    if !starts_chunked(blob) {
        return decrypt(cipher, key, blob);
    }
    let n = blob.len();
    let ghost body = blob@.skip(MAGIC_LEN as int);
    let mut out: Vec<u8> = Vec::new();
    let mut pos: usize = MAGIC_LEN;
    let mut index: u64 = 0;
    loop
        invariant
            n == blob@.len(),
            is_chunked(blob@),
            MAGIC_LEN <= pos <= n,
            body == blob@.skip(MAGIC_LEN as int),
            pos == MAGIC_LEN + index * RECORD_LEN,
            open_records(cipher, key@, body, 0) == prepend(out@, open_records(cipher, key@, blob@.skip(pos as int), index)),
        decreases n - pos,
    {
        let rest = n - pos;
        if rest <= RECORD_LEN {
            let rec = slice_subrange(blob, pos, n);
            assert(rec@ =~= blob@.skip(pos as int));
            assert(open_records(cipher, key@, blob@.skip(pos as int), index) == open_chunk_spec(cipher, key@, index, true, rec@));
            let p = match open_chunk(cipher, key, index, true, rec) {
                Ok(p) => p,
                Err(e) => {
                    return Err(e);
                },
            };
            let mut i: usize = 0;
            let ghost before = out@;
            while i < p.len()
                invariant
                    i <= p@.len(),
                    out@ == before + p@.take(i as int),
                decreases p@.len() - i,
            {
                out.push(p[i]);
                assert(p@.take(i + 1) =~= p@.take(i as int).push(p@[i as int]));
                i = i + 1;
            }
            assert(p@.take(p@.len() as int) =~= p@);
            assert(before + p@ =~= out@);
            return Ok(out);
        }
        let rec = slice_subrange(blob, pos, pos + RECORD_LEN);
        proof {
            assert(rec@ =~= blob@.skip(pos as int).take(RECORD_LEN as int));
            assert(blob@.skip(pos as int).skip(RECORD_LEN as int) =~= blob@.skip(pos + RECORD_LEN));
            assert(index * RECORD_LEN <= n);
            assert(index < 0xFFFF_FFFF_FFFF_FFFF) by (nonlinear_arith)
                requires
                    index * 1_048_604 <= n,
                    n <= usize::MAX,
                    usize::MAX <= 0xFFFF_FFFF_FFFF_FFFF,
            ;
        }
        let p = match open_chunk(cipher, key, index, false, rec) {
            Ok(p) => p,
            Err(e) => {
                return Err(e);
            },
        };
        let mut i: usize = 0;
        let ghost before = out@;
        while i < p.len()
            invariant
                i <= p@.len(),
                out@ == before + p@.take(i as int),
            decreases p@.len() - i,
        {
            out.push(p[i]);
            assert(p@.take(i + 1) =~= p@.take(i as int).push(p@[i as int]));
            i = i + 1;
        }
        proof {
            assert(p@.take(p@.len() as int) =~= p@);
            let r2 = open_records(cipher, key@, blob@.skip(pos + RECORD_LEN), (index + 1) as u64);
            assert(prepend(before, prepend(p@, r2)) == prepend(out@, r2)) by {
                match r2 {
                    Ok(q) => {
                        assert(before + (p@ + q) =~= out@ + q);
                    },
                    Err(_) => {},
                }
            }
        }
        pos = pos + RECORD_LEN;
        index = index + 1;
    }
}

/// The records of a chunked blob of `chunks`: each record opens, as chunk
/// `i` (the last one flagged), to its chunk; every chunk but the last is
/// full, and each record is its chunk's length plus the nonce and tag.
pub open spec fn records_of(cipher: Cipher, key: Seq<u8>, chunks: Seq<Seq<u8>>, records: Seq<Seq<u8>>) -> bool {
    &&& chunks.len() >= 1
    &&& records.len() == chunks.len()
    &&& chunks.len() <= 0xFFFF_FFFF_FFFF_FFFF
    &&& forall|i: int| 0 <= i < chunks.len() ==> {
        &&& (#[trigger] chunks[i]).len() <= CHUNK_LEN
        &&& (i < chunks.len() - 1 ==> chunks[i].len() == CHUNK_LEN)
        &&& records[i].len() == NONCE_LEN + chunks[i].len() + TAG_LEN
        &&& open_chunk_spec(cipher, key, i as u64, i == chunks.len() - 1, records[i]) == Ok::<Seq<u8>, BackupError>(chunks[i])
    }
}

proof fn lemma_records_from(cipher: Cipher, key: Seq<u8>, chunks: Seq<Seq<u8>>, records: Seq<Seq<u8>>, k: int)
    requires
        records_of(cipher, key, chunks, records),
        0 <= k < chunks.len(),
    ensures
        open_records(cipher, key, records.skip(k).flatten(), k as u64) == Ok::<Seq<u8>, BackupError>(chunks.skip(k).flatten()),
    decreases chunks.len() - k,
{
    let n = chunks.len();
    let rs = records.skip(k);
    let cs = chunks.skip(k);
    assert(rs.first() == records[k]);
    assert(cs.first() == chunks[k]);
    assert(rs.drop_first() =~= records.skip(k + 1));
    assert(cs.drop_first() =~= chunks.skip(k + 1));
    assert(chunks[k] == cs[0]);
    if k == n - 1 {
        assert(records.skip(k + 1) =~= Seq::<Seq<u8>>::empty());
        assert(chunks.skip(k + 1) =~= Seq::<Seq<u8>>::empty());
        assert(rs.flatten() =~= records[k]) by {
            assert(rs.drop_first().flatten() =~= Seq::<u8>::empty());
        }
        assert(cs.flatten() =~= chunks[k]) by {
            assert(cs.drop_first().flatten() =~= Seq::<u8>::empty());
        }
    } else {
        lemma_records_from(cipher, key, chunks, records, k + 1);
        let rest = records.skip(k + 1).flatten();
        assert(rs.flatten() == records[k] + rest);
        assert(cs.flatten() == chunks[k] + chunks.skip(k + 1).flatten());
        lemma_flatten_len_at_least(records.skip(k + 1));
        assert(records.skip(k + 1)[0] == records[k + 1]);
        assert(rest.len() >= records[k + 1].len());
        assert((records[k] + rest).take(RECORD_LEN as int) =~= records[k]);
        assert((records[k] + rest).skip(RECORD_LEN as int) =~= rest);
        assert(((k + 1) as u64) == ((k as u64) + 1) as u64);
    }
}

proof fn lemma_flatten_len_at_least(s: Seq<Seq<u8>>)
    requires
        s.len() > 0,
    ensures
        s.flatten().len() >= s[0].len(),
    decreases s.len(),
{
    assert(s.flatten() == s.first() + s.drop_first().flatten());
}

/// A chunked blob opens to the file it was sealed from: the magic header
/// followed by the records of a file's chunks, sealed in order with the last
/// one flagged, decrypts to the chunks joined.
pub proof fn lemma_chunked_roundtrip(cipher: Cipher, key: Seq<u8>, chunks: Seq<Seq<u8>>, records: Seq<Seq<u8>>)
    requires
        records_of(cipher, key, chunks, records),
    ensures
        decrypt_blob_spec(cipher, key, stream_magic_spec() + records.flatten()) == Ok::<Seq<u8>, BackupError>(chunks.flatten()),
{
    let blob = stream_magic_spec() + records.flatten();
    assert(blob.take(MAGIC_LEN as int) =~= stream_magic_spec());
    assert(blob.skip(MAGIC_LEN as int) =~= records.flatten());
    assert(records.skip(0) =~= records);
    assert(chunks.skip(0) =~= chunks);
    lemma_records_from(cipher, key, chunks, records, 0);
}

} // verus!

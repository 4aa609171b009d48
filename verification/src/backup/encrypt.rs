//! Key derivation, key records and chunked authenticated encryption.

use vstd::prelude::*;
use vstd::string::*;
use vstd::utf8::*;
use vstd::slice::slice_subrange;
use chacha20poly1305::{
    aead::{Aead, KeyInit, OsRng},
    AeadCore, Key, XChaCha20Poly1305, XNonce,
};
use hkdf::Hkdf;
use sha3::Sha3_512;
use crate::backup::errors::BackupError;
use crate::configuration::{Args, DEFAULT_BUFFER_SIZE};
use crate::backup::structures::BackupMetadata;
use crate::hash::{sha3, sha3_256_digest, spec_sha3};
use crate::text::{all_ascii, ascii_chars, hex_decode, hex_lower, lemma_ascii_encode, lemma_hex_roundtrip, to_hex_lower};

verus! {

broadcast use vstd::utf8::group_utf8_lib;

/// The `len` bytes of HKDF-SHA3-512 output for `salt`, input key material `ikm`
/// and context `info`, as the `hkdf` crate computes them.
pub uninterp spec fn hkdf_sha3_512(salt: Seq<u8>, ikm: Seq<u8>, info: Seq<u8>, len: nat) -> Seq<u8>;

/// XChaCha20-Poly1305 encryption of `plaintext` under `key` and `nonce`, as the
/// `chacha20poly1305` crate computes it.
pub uninterp spec fn xchacha20poly1305_seal(key: Seq<u8>, nonce: Seq<u8>, plaintext: Seq<u8>) -> Seq<u8>;

/// XChaCha20-Poly1305 decryption of `ciphertext` under `key` and `nonce`: the
/// plaintext, or nothing when the ciphertext does not authenticate.
pub uninterp spec fn xchacha20poly1305_open(key: Seq<u8>, nonce: Seq<u8>, ciphertext: Seq<u8>) -> Option<Seq<u8>>;

/// `Hkdf::<Sha3_512>::new` then `expand`: fails only when more than 255 blocks of
/// 64 bytes are asked for.
#[verifier::external_body]
fn hkdf_expand(salt: &[u8], ikm: &[u8], info: &[u8], okm_len: usize) -> (res: Result<Vec<u8>, String>)
    ensures
        res is Ok <==> okm_len <= 255 * 64,
        res matches Ok(okm) ==> okm@ == hkdf_sha3_512(salt@, ikm@, info@, okm_len as nat)
            && okm@.len() == okm_len,
{
    let hk = Hkdf::<Sha3_512>::new(Some(salt), ikm);
    let mut okm = vec![0u8; okm_len];
    hk.expand(info, &mut okm).map(|_| okm).map_err(|e| e.to_string())
}

/// `XChaCha20Poly1305::generate_nonce` with the operating system's random
/// source: 24 random bytes.
#[verifier::external_body]
fn generate_nonce() -> (res: Vec<u8>)
    ensures
        res@.len() == 24,
{
    XChaCha20Poly1305::generate_nonce(&mut OsRng).to_vec()
}

/// `XChaCha20Poly1305::encrypt`: fails only when the plaintext has 2^32 - 1
/// blocks of 64 bytes or more; the ciphertext carries a 16-byte tag, and
/// decrypting it under the same key and nonce gives the plaintext back.
#[verifier::external_body]
fn seal(key: &[u8; 32], nonce: &[u8], plaintext: &[u8]) -> (res: Result<Vec<u8>, String>)
    requires
        nonce@.len() == 24,
    ensures
        res is Ok <==> plaintext@.len() / 64 < u32::MAX,
        res matches Ok(c) ==> c@ == xchacha20poly1305_seal(key@, nonce@, plaintext@) && c@.len()
            == plaintext@.len() + 16 && xchacha20poly1305_open(key@, nonce@, c@) == Some(plaintext@),
{
    XChaCha20Poly1305::new(Key::from_slice(key.as_slice()))
        .encrypt(XNonce::from_slice(nonce), plaintext)
        .map_err(|e| e.to_string())
}

/// `XChaCha20Poly1305::decrypt`: the plaintext when the ciphertext authenticates.
#[verifier::external_body]
fn open(key: &[u8; 32], nonce: &[u8], ciphertext: &[u8]) -> (res: Result<Vec<u8>, String>)
    requires
        nonce@.len() == 24,
    ensures
        res is Ok <==> xchacha20poly1305_open(key@, nonce@, ciphertext@) is Some,
        res matches Ok(p) ==> xchacha20poly1305_open(key@, nonce@, ciphertext@) == Some(p@),
{
    XChaCha20Poly1305::new(Key::from_slice(key.as_slice()))
        .decrypt(XNonce::from_slice(nonce), ciphertext)
        .map_err(|e| e.to_string())
}

/// The context bytes of key derivation: `gitup`.
pub open spec fn key_info() -> Seq<u8> {
    seq![103u8, 105u8, 116u8, 117u8, 112u8]
}

/// The 32-byte key derived from the password bytes `password` and `salt`.
pub open spec fn spec_derived_key(salt: Seq<u8>, password: Seq<u8>) -> Seq<u8> {
    hkdf_sha3_512(salt, password, key_info(), 32)
}

/// Derives a key from the given key and salt: HKDF over SHA3-512 with context
/// `gitup`, 32 bytes. Without a salt a random 24-byte one is used.
pub fn derive_key(key: &str, salt: Option<&[u8]>) -> (res: Result<[u8; 32], BackupError>)
    ensures
        salt matches Some(s) ==> (res matches Ok(k) && k@ == spec_derived_key(s@, key.spec_bytes())),
        salt is None ==> (res matches Ok(k) && exists|s: Seq<u8>|
            s.len() == 24 && k@ == spec_derived_key(s, key.spec_bytes())),
{
    let fresh;
    let salt: &[u8] = match salt {
        Some(s) => s,
        None => {
            fresh = generate_nonce();
            fresh.as_slice()
        },
    };
    let info: [u8; 5] = [103, 105, 116, 117, 112];
    assert(info@ =~= key_info());
    let okm = match hkdf_expand(salt, key.as_bytes(), info.as_slice(), 32) {
        Ok(okm) => okm,
        Err(e) => return Err(BackupError::GeneralError(e)),
    };
    let mut out: [u8; 32] = [0u8; 32];
    let mut i: usize = 0;
    while i < 32
        invariant
            i <= 32,
            okm@.len() == 32,
            forall|j: int| 0 <= j < i ==> out@[j] == okm@[j],
        decreases 32 - i,
    {
        out[i] = okm[i];
        i = i + 1;
    }
    assert(out@ =~= okm@);
    Ok(out)
}

/// The record of a key: the SHA3-256 hex of the key followed by the salt,
/// then the hex of the salt.
pub open spec fn spec_key_record(key: Seq<u8>, salt: Seq<u8>) -> Seq<char> {
    spec_sha3(key + salt) + ascii_chars(hex_lower(salt))
}

/// Builds the record under which a derived key is stored in a snapshot.
pub fn key_record(key: &[u8; 32], salt: &[u8]) -> (res: String)
    requires
        2 * salt@.len() <= usize::MAX,
    ensures
        res@ == spec_key_record(key@, salt@),
        sha3_256_digest(key@ + salt@).len() == 32,
{
    let mut hash_data: Vec<u8> = Vec::new();
    let mut i: usize = 0;
    while i < 32
        invariant
            i <= 32,
            hash_data@ =~= key@.take(i as int),
        decreases 32 - i,
    {
        hash_data.push(key[i]);
        i = i + 1;
    }
    let mut j: usize = 0;
    while j < salt.len()
        invariant
            j <= salt@.len(),
            hash_data@ =~= key@ + salt@.take(j as int),
        decreases salt@.len() - j,
    {
        hash_data.push(salt[j]);
        j = j + 1;
    }
    assert(salt@.take(salt@.len() as int) =~= salt@);
    let mut record = sha3(hash_data.as_slice());
    record.append(to_hex_lower(salt).as_str());
    record
}

/// Law: the record built for a password and a salt can be read back, and
/// checking the same password against it gives the key that encryption used.
/// (Every SHA3-256 digest is 32 bytes long.)
pub proof fn law_key_record_accepts_its_password(password: Seq<u8>, salt: Seq<u8>)
    requires
        sha3_256_digest(spec_derived_key(salt, password) + salt).len() == 32,
    ensures
        readable_record(encode_utf8(spec_key_record(spec_derived_key(salt, password), salt))),
        spec_checked_key(password, encode_utf8(spec_key_record(spec_derived_key(salt, password), salt)))
            == Some(spec_derived_key(salt, password)),
{
    let k = spec_derived_key(salt, password);
    let digest_hex = hex_lower(sha3_256_digest(k + salt));
    let salt_hex = hex_lower(salt);
    lemma_hex_roundtrip(sha3_256_digest(k + salt));
    lemma_hex_roundtrip(salt);
    let b = digest_hex + salt_hex;
    assert(all_ascii(b));
    assert(ascii_chars(b) =~= spec_key_record(k, salt));
    lemma_ascii_encode(b);
    let rb = encode_utf8(spec_key_record(k, salt));
    assert(rb == b);
    assert(rb.skip(64) =~= salt_hex);
    assert(rb.take(64) =~= digest_hex);
    lemma_ascii_encode(digest_hex);
    assert(decode_utf8(rb.take(64)) == ascii_chars(digest_hex));
    if rb.len() > 64 {
        assert(!is_continuation_byte(rb[64]));
    }
}

/// Prepares encryption with the given password: draws a random 24-byte salt,
/// derives the key from it and builds the key's record.
pub fn prepare_encryption_key(key: &str) -> (res: Result<([u8; 32], String), BackupError>)
    ensures
        res matches Ok((k, record)) && exists|s: Seq<u8>|
            s.len() == 24 && k@ == spec_derived_key(s, key.spec_bytes()) && record@ == spec_key_record(
                k@,
                s,
            ) && readable_record(encode_utf8(record@)) && spec_checked_key(
                key.spec_bytes(),
                encode_utf8(record@),
            ) == Some(k@),
{
    let salt = generate_nonce();
    let derived = derive_key(key, Some(salt.as_slice()))?;
    let record = key_record(&derived, salt.as_slice());
    proof {
        law_key_record_accepts_its_password(key.spec_bytes(), salt@);
    }
    Ok((derived, record))
}

/// The parts of a key record: the text of its first 64 bytes and the bytes its
/// remaining hexadecimal text stands for.
pub fn key_parts_from_string(hashed_key: &str) -> (res: (String, Vec<u8>))
    requires
        hashed_key.spec_bytes().len() >= 64,
        is_char_boundary(hashed_key.spec_bytes(), 64),
        hex_decode(hashed_key.spec_bytes().skip(64)) is Some,
    ensures
        encode_utf8(res.0@) == hashed_key.spec_bytes().take(64),
        res.0@ == decode_utf8(hashed_key.spec_bytes().take(64)),
        res.1@ == hex_decode(hashed_key.spec_bytes().skip(64)).unwrap(),
{
    let (key, salt) = hashed_key.split_at(64);
    assert(salt.spec_bytes() =~= hashed_key.spec_bytes().skip(64));
    assert(key.spec_bytes() =~= hashed_key.spec_bytes().take(64));
    let salt = match hex_decode_bytes(salt.as_bytes()) {
        Some(s) => s,
        None => Vec::new(),
    };
    let owned = key.to_owned();
    proof {
        encode_utf8_decode_utf8(owned@);
    }
    (owned, salt)
}

/// Law: a record laid out as 64 ASCII characters followed by the hexadecimal
/// text of a salt can be read, and its parts are those characters and that
/// salt.
pub proof fn law_key_parts_undo_the_record(hash: Seq<u8>, salt: Seq<u8>)
    requires
        hash.len() == 64,
        all_ascii(hash),
    ensures
        readable_record(encode_utf8(ascii_chars(hash + hex_lower(salt)))),
        decode_utf8(encode_utf8(ascii_chars(hash + hex_lower(salt))).take(64)) == ascii_chars(hash),
        hex_decode(encode_utf8(ascii_chars(hash + hex_lower(salt))).skip(64)) == Some(salt),
{
    lemma_hex_roundtrip(salt);
    let b = hash + hex_lower(salt);
    assert(all_ascii(b));
    lemma_ascii_encode(b);
    lemma_ascii_encode(hash);
    let rb = encode_utf8(ascii_chars(b));
    assert(rb == b);
    assert(rb.take(64) =~= hash);
    assert(rb.skip(64) =~= hex_lower(salt));
    encode_utf8_decode_utf8(ascii_chars(hash));
    if rb.len() > 64 {
        assert(!is_continuation_byte(rb[64]));
    }
}

/// `hex::decode`: the bytes that hexadecimal text stands for.
#[verifier::external_body]
fn hex_decode_bytes(data: &[u8]) -> (res: Option<Vec<u8>>)
    ensures
        res is Some <==> hex_decode(data@) is Some,
        res matches Some(v) ==> v@ == hex_decode(data@).unwrap(),
{
    hex::decode(data).ok()
}

/// What checking a password against a key record gives: the derived key when
/// the record's hash matches, nothing otherwise.
pub open spec fn spec_checked_key(password: Seq<u8>, record: Seq<u8>) -> Option<Seq<u8>> {
    let salt = hex_decode(record.skip(64)).unwrap();
    let k = spec_derived_key(salt, password);
    if spec_sha3(k + salt) == decode_utf8(record.take(64)) {
        Some(k)
    } else {
        None
    }
}

/// A record that key checking can read: long enough, split on a character
/// boundary and holding hexadecimal salt text.
pub open spec fn readable_record(record: Seq<u8>) -> bool {
    &&& record.len() >= 64
    &&& is_char_boundary(record, 64)
    &&& hex_decode(record.skip(64)) is Some
}

/// Recovers and verifies the key given in the arguments against the snapshot's
/// key record. No key given is an error only for an encrypted backup; without a
/// key record there is nothing to check a given key against.
pub fn get_key_if_any(args: &Args, metadata: &BackupMetadata) -> (res: Result<Option<[u8; 32]>, BackupError>)
    requires
        args.key is Some && metadata.key is Some ==> readable_record(encode_utf8(metadata.key.unwrap()@)),
    ensures
        args.key is None && metadata.encrypted ==> res matches Err(BackupError::NoKeyProvided),
        args.key is None && !metadata.encrypted ==> res matches Ok(None),
        args.key is Some && metadata.key is None ==> res matches Ok(None),
        args.key matches Some(pk) ==> metadata.key is Some ==> (match spec_checked_key(
            encode_utf8(pk@),
            encode_utf8(metadata.key.unwrap()@),
        ) {
            Some(k) => res matches Ok(Some(x)) && x@ == k,
            None => res matches Err(BackupError::InvalidKey),
        }),
{
    match &args.key {
        None => {
            if metadata.encrypted {
                Err(BackupError::NoKeyProvided)
            } else {
                Ok(None)
            }
        },
        Some(provided_key) => {
            let snapshot_key = match &metadata.key {
                Some(k) => k,
                None => return Ok(None),
            };
            let parts = key_parts_from_string(snapshot_key.as_str());
            let real_key = derive_key(provided_key.as_str(), Some(parts.1.as_slice()))?;
            let mut hash_vector: Vec<u8> = Vec::new();
            let mut i: usize = 0;
            while i < 32
                invariant
                    i <= 32,
                    hash_vector@ =~= real_key@.take(i as int),
                decreases 32 - i,
            {
                hash_vector.push(real_key[i]);
                i = i + 1;
            }
            let mut j: usize = 0;
            while j < parts.1.len()
                invariant
                    j <= parts.1@.len(),
                    hash_vector@ =~= real_key@ + parts.1@.take(j as int),
                decreases parts.1@.len() - j,
            {
                hash_vector.push(parts.1[j]);
                j = j + 1;
            }
            assert(parts.1@.take(parts.1@.len() as int) =~= parts.1@);
            let hash = sha3(hash_vector.as_slice());
            proof {
                decode_utf8_encode_utf8(encode_utf8(parts.0@));
                encode_utf8_decode_utf8(parts.0@);
            }
            if hash != parts.0 {
                return Err(BackupError::InvalidKey);
            }
            Ok(Some(real_key))
        },
    }
}

/// The largest number of ciphertext bytes read after each nonce: a buffer of
/// plaintext with its 16-byte tag.
pub open spec fn chunk_limit() -> nat {
    (DEFAULT_BUFFER_SIZE + 16) as nat
}

/// How many ciphertext bytes follow a nonce when `rest` bytes remain after it.
pub open spec fn chunk_len(rest: nat) -> nat {
    if rest < chunk_limit() {
        rest
    } else {
        chunk_limit()
    }
}

/// Encrypted data lays out as chunks of a 24-byte nonce followed by the
/// ciphertext, each ciphertext at most a buffer long.
pub open spec fn decryptable_layout(d: Seq<u8>) -> bool
    decreases d.len(),
{
    if d.len() == 0 {
        true
    } else if d.len() < 24 {
        false
    } else {
        decryptable_layout(d.skip(24 + chunk_len((d.len() - 24) as nat) as int))
    }
}

/// The plaintext of encrypted data: each chunk decrypted under its nonce and
/// the plaintexts joined; nothing when some chunk does not authenticate.
pub open spec fn spec_decrypt(key: Seq<u8>, d: Seq<u8>) -> Option<Seq<u8>>
    decreases d.len(),
{
    if d.len() < 24 {
        Some(Seq::<u8>::empty())
    } else {
        let n: int = chunk_len((d.len() - 24) as nat) as int;
        match xchacha20poly1305_open(key, d.take(24), d.subrange(24, 24 + n)) {
            None => None,
            Some(p) => match spec_decrypt(key, d.skip(24 + n)) {
                Some(q) => Some(p + q),
                None => None,
            },
        }
    }
}

/// Decrypts data made of chunks of a nonce and up to a buffer of ciphertext.
pub fn decrypt(data: &[u8], key: [u8; 32]) -> (res: Result<Vec<u8>, BackupError>)
    requires
        decryptable_layout(data@),
    ensures
        res is Ok <==> spec_decrypt(key@, data@) is Some,
        res matches Ok(p) ==> spec_decrypt(key@, data@) == Some(p@),
        res is Err ==> res matches Err(BackupError::CannotDecrypt(_)),
{
    let mut raw_data: Vec<u8> = Vec::new();
    let mut pos: usize = 0;
    let len = data.len();
    let limit = DEFAULT_BUFFER_SIZE as usize + 16;
    assert(data@.skip(0) =~= data@);
    assert(forall|q: Seq<u8>| raw_data@ + q =~= q);
    while pos < len
        invariant
            len == data@.len(),
            pos <= len,
            limit == chunk_limit(),
            decryptable_layout(data@.skip(pos as int)),
            spec_decrypt(key@, data@) == (match spec_decrypt(key@, data@.skip(pos as int)) {
                Some(q) => Some(raw_data@ + q),
                None => None::<Seq<u8>>,
            }),
        decreases len - pos,
    {
        let ghost d = data@.skip(pos as int);
        assert(d.len() >= 24);
        let nonce = slice_subrange(data, pos, pos + 24);
        let remaining = len - pos - 24;
        let upper = if remaining < limit {
            remaining
        } else {
            limit
        };
        let ciphertext = slice_subrange(data, pos + 24, pos + 24 + upper);
        assert(nonce@ =~= d.take(24));
        assert(ciphertext@ =~= d.subrange(24, 24 + upper as int));
        assert(data@.skip((pos + 24 + upper) as int) =~= d.skip(24 + upper as int));
        let mut plaintext = match open(&key, nonce, ciphertext) {
            Ok(p) => p,
            Err(e) => return Err(BackupError::CannotDecrypt(e)),
        };
        let ghost before = raw_data@;
        raw_data.append(&mut plaintext);
        assert(forall|q: Seq<u8>| before + (xchacha20poly1305_open(key@, d.take(24), d.subrange(24, 24 + upper as int)).unwrap() + q) =~= raw_data@ + q);
        pos = pos + 24 + upper;
    }
    assert(data@.skip(pos as int).len() == 0);
    assert(raw_data@ + Seq::<u8>::empty() =~= raw_data@);
    Ok(raw_data)
}

/// Law: encrypting data fragment by fragment, as archives are encrypted (every
/// fragment a full buffer but the last, which is at most one), and joining the
/// chunks gives data that decrypts to the joined fragments.
pub proof fn law_decrypt_inverts_chunks(key: Seq<u8>, chunks: Seq<Seq<u8>>, plaintexts: Seq<Seq<u8>>)
    requires
        chunks.len() == plaintexts.len(),
        forall|i: int| 0 <= i < chunks.len() ==> sealed_chunk(key, #[trigger] chunks[i], plaintexts[i]),
        forall|i: int| 0 <= i < plaintexts.len() - 1 ==> (#[trigger] plaintexts[i]).len() == DEFAULT_BUFFER_SIZE,
        plaintexts.len() > 0 ==> plaintexts.last().len() <= DEFAULT_BUFFER_SIZE,
    ensures
        decryptable_layout(chunks.flatten()),
        spec_decrypt(key, chunks.flatten()) == Some(plaintexts.flatten()),
    decreases chunks.len(),
{
    if chunks.len() > 0 {
        let c = chunks[0];
        let rest = chunks.drop_first().flatten();
        let d = chunks.flatten();
        assert(d == c + rest);
        assert(sealed_chunk(key, chunks[0], plaintexts[0]));
        if chunks.len() > 1 {
            assert(plaintexts[0].len() == DEFAULT_BUFFER_SIZE);
            assert(chunks[0].len() == chunk_limit() + 24);
        }
        assert(forall|i: int| 0 <= i < plaintexts.drop_first().len() - 1 ==> #[trigger] plaintexts.drop_first()[i] == plaintexts[i + 1]);
        law_decrypt_inverts_chunks(key, chunks.drop_first(), plaintexts.drop_first());
        if chunks.len() == 1 {
            assert(rest =~= Seq::<u8>::empty());
        }
        let n: int = chunk_len((d.len() - 24) as nat) as int;
        assert(n == c.len() - 24);
        assert(d.take(24) =~= c.take(24));
        assert(d.subrange(24, 24 + n) =~= c.skip(24));
        assert(d.skip(24 + n) =~= rest);
        assert(plaintexts.flatten() == plaintexts[0] + plaintexts.drop_first().flatten());
    }
}

/// `chunk` is a nonce followed by the encryption of `p` under `key` and that nonce.
pub open spec fn sealed_chunk(key: Seq<u8>, chunk: Seq<u8>, p: Seq<u8>) -> bool {
    &&& chunk.len() == p.len() + 40
    &&& xchacha20poly1305_open(key, chunk.take(24), chunk.skip(24)) == Some(p)
}

/// Encrypts one buffer of data under a fresh random nonce: the nonce followed
/// by the ciphertext. A buffer small enough to fit a chunk with its tag
/// decrypts back to itself.
pub fn encrypt_chunk(key: &[u8; 32], plaintext: &[u8]) -> (res: Result<Vec<u8>, BackupError>)
    ensures
        res is Ok <==> plaintext@.len() / 64 < u32::MAX,
        res matches Ok(out) ==> sealed_chunk(key@, out@, plaintext@) && exists|n: Seq<u8>|
            n.len() == 24 && out@ == n + xchacha20poly1305_seal(key@, n, plaintext@),
        res matches Ok(out) ==> plaintext@.len() <= DEFAULT_BUFFER_SIZE ==> decryptable_layout(out@)
            && spec_decrypt(key@, out@) == Some(plaintext@),
        res is Err ==> res matches Err(BackupError::CannotEncrypt(_)),
{
    let mut nonce = generate_nonce();
    let mut ciphertext = match seal(key, nonce.as_slice(), plaintext) {
        Ok(c) => c,
        Err(e) => return Err(BackupError::CannotEncrypt(e)),
    };
    let ghost n = nonce@;
    let ghost c = ciphertext@;
    nonce.append(&mut ciphertext);
    proof {
        let out = n + c;
        assert(nonce@ == out);
        assert(out.take(24) =~= n);
        assert(out.skip(24) =~= c);
        if plaintext@.len() <= DEFAULT_BUFFER_SIZE {
            assert(out.subrange(24, 24 + c.len() as int) =~= c);
            assert(out.skip(24 + c.len() as int) =~= Seq::<u8>::empty());
            assert(decryptable_layout(out.skip(24 + c.len() as int)));
            assert(spec_decrypt(key@, out.skip(24 + c.len() as int)) == Some(Seq::<u8>::empty()));
            assert(plaintext@ + Seq::<u8>::empty() =~= plaintext@);
        }
    }
    Ok(nonce)
}

} // verus!

use vstd::prelude::*;

use crate::error::Error;

verus! {

/// Byte `i` of the AES-256-CTR keystream that `aes_gcm_stream` derives from
/// a key and nonce.  The stream is a function of the key and nonce alone:
/// the encryptor and the decryptor of that crate compute the very same
/// stream, which is what makes decryption undo encryption.
pub uninterp spec fn keystream_byte(key: Seq<u8>, nonce: Seq<u8>, i: int) -> u8;

/// The 16-byte GCM authentication tag that `aes_gcm_stream` computes over a
/// whole ciphertext under a key and nonce (no associated data).
pub uninterp spec fn gcm_tag_of(key: Seq<u8>, nonce: Seq<u8>, ct: Seq<u8>) -> Seq<u8>;

/// Longest stream one (key, nonce) pair may carry: the cipher's 32-bit
/// block counter covers no more than 2^32 - 2 blocks of 16 bytes, and
/// running past it would reuse counter values instead of failing.  Staying
/// within it is a precondition of the engine.
pub const MAX_STREAM_LEN: u64 = 68719476704;

/// XOR of a byte sequence with the keystream, position by position: applied
/// to plaintext it yields the ciphertext, applied to the ciphertext it
/// yields the plaintext back.
pub open spec fn cipher_stream(key: Seq<u8>, nonce: Seq<u8>, data: Seq<u8>) -> Seq<u8> {
    Seq::new(data.len(), |i: int| data[i] ^ keystream_byte(key, nonce, i))
}

/// How many bytes the streaming encryptor has emitted after being fed `n`
/// bytes in all: every complete 16-byte block; the remainder stays buffered
/// until `finalize`.
pub open spec fn enc_emitted(n: nat) -> nat {
    (n / 16) * 16
}

/// How many bytes the streaming decryptor has emitted after being fed `n`
/// bytes in all: it always holds back at least one block's worth, since the
/// last 16 bytes of the stream are the tag, not ciphertext.
pub open spec fn dec_emitted(n: nat) -> nat {
    if n < 32 {
        0
    } else {
        (((n / 16) - 1) * 16) as nat
    }
}

/// Applying the keystream twice gives the data back.
pub proof fn lemma_cipher_involution(key: Seq<u8>, nonce: Seq<u8>, data: Seq<u8>)
    ensures
        cipher_stream(key, nonce, cipher_stream(key, nonce, data)) == data,
{
    let once = cipher_stream(key, nonce, data);
    let twice = cipher_stream(key, nonce, once);
    assert forall|i: int| 0 <= i < data.len() implies twice[i] == data[i] by {
        let d = data[i];
        let k = keystream_byte(key, nonce, i);
        assert((d ^ k) ^ k == d) by (bit_vector);
    }
    assert(twice =~= data);
}

/// The keystream applies position by position, so ciphering a prefix is a
/// prefix of the ciphering.
pub proof fn lemma_cipher_stream_prefix(key: Seq<u8>, nonce: Seq<u8>, data: Seq<u8>, j: int)
    requires
        0 <= j <= data.len(),
    ensures
        cipher_stream(key, nonce, data.take(j)) == cipher_stream(key, nonce, data).take(j),
{
    assert(cipher_stream(key, nonce, data.take(j)) =~= cipher_stream(key, nonce, data).take(j));
}

#[verifier::external_type_specification]
#[verifier::external_body]
pub struct ExAes256GcmStreamEncryptor(aes_gcm_stream::Aes256GcmStreamEncryptor);

#[verifier::external_type_specification]
#[verifier::external_body]
pub struct ExAes256GcmStreamDecryptor(aes_gcm_stream::Aes256GcmStreamDecryptor);

/// The key a streaming encryptor was bound to.
pub uninterp spec fn enc_key(e: aes_gcm_stream::Aes256GcmStreamEncryptor) -> Seq<u8>;

/// The nonce a streaming encryptor was bound to.
pub uninterp spec fn enc_nonce(e: aes_gcm_stream::Aes256GcmStreamEncryptor) -> Seq<u8>;

/// All plaintext a streaming encryptor has been fed so far.
pub uninterp spec fn enc_fed(e: aes_gcm_stream::Aes256GcmStreamEncryptor) -> Seq<u8>;

/// The key a streaming decryptor was bound to.
pub uninterp spec fn dec_key(d: aes_gcm_stream::Aes256GcmStreamDecryptor) -> Seq<u8>;

/// The nonce a streaming decryptor was bound to.
pub uninterp spec fn dec_nonce(d: aes_gcm_stream::Aes256GcmStreamDecryptor) -> Seq<u8>;

/// All bytes a streaming decryptor has been fed so far, the trailing tag
/// included once the stream is complete.
pub uninterp spec fn dec_fed(d: aes_gcm_stream::Aes256GcmStreamDecryptor) -> Seq<u8>;

/// Incremental authenticated encryption of one stream under one (key,
/// nonce) pair.  Feed plaintext chunks with [`Self::update`]; close with
/// [`Self::finalize`], which flushes the buffered partial block and emits
/// the tag.  A pair must never be reused for a second stream.
pub struct Encryptor {
    pub inner: aes_gcm_stream::Aes256GcmStreamEncryptor,
}

impl Encryptor {
    /// The key this stream was bound to.
    pub open spec fn key_view(&self) -> Seq<u8> {
        enc_key(self.inner)
    }

    /// The nonce this stream was bound to.
    pub open spec fn nonce_view(&self) -> Seq<u8> {
        enc_nonce(self.inner)
    }

    /// All plaintext fed so far.
    pub open spec fn fed_view(&self) -> Seq<u8> {
        enc_fed(self.inner)
    }

    /// Relies on `Aes256GcmStreamEncryptor::new`: binds a fresh cipher
    /// instance to the key and nonce.
    #[verifier::external_body]
    pub fn new(key: &[u8], nonce: &[u8]) -> (s: Self)
        requires
            key@.len() == 32,
            nonce@.len() == 12,
        ensures
            enc_key(s.inner) == key@,
            enc_nonce(s.inner) == nonce@,
            enc_fed(s.inner) == Seq::<u8>::empty(),
    {
        let mut k = [0u8; 32];
        k.copy_from_slice(key);
        Encryptor { inner: aes_gcm_stream::Aes256GcmStreamEncryptor::new(k, nonce) }
    }

    /// Relies on `Aes256GcmStreamEncryptor::update`: XORs the fed bytes
    /// with the keystream and returns every newly completed 16-byte block,
    /// buffering the remainder.  One stream may carry at most
    /// [`MAX_STREAM_LEN`] bytes; past that the counter would wrap.
    #[verifier::external_body]
    pub fn update(&mut self, chunk: &[u8]) -> (ct: Vec<u8>)
        requires
            enc_fed(old(self).inner).len() + chunk@.len() <= MAX_STREAM_LEN,
        ensures
            enc_key(final(self).inner) == enc_key(old(self).inner),
            enc_nonce(final(self).inner) == enc_nonce(old(self).inner),
            enc_fed(final(self).inner) == enc_fed(old(self).inner) + chunk@,
            ct@.len() == enc_emitted(enc_fed(final(self).inner).len()) - enc_emitted(
                enc_fed(old(self).inner).len(),
            ),
            forall|j: int|
                0 <= j < ct@.len() ==> ct@[j] == (enc_fed(final(self).inner)[j + enc_emitted(
                    enc_fed(old(self).inner).len(),
                )] ^ keystream_byte(
                    enc_key(old(self).inner),
                    enc_nonce(old(self).inner),
                    j + enc_emitted(enc_fed(old(self).inner).len()),
                )),
    {
        self.inner.update(chunk)
    }

    /// Relies on `Aes256GcmStreamEncryptor::finalize`: emits the ciphertext
    /// of the buffered partial block and the 16-byte tag over the whole
    /// ciphertext.  The stream is spent afterwards.
    #[verifier::external_body]
    pub fn finalize(&mut self) -> (r: (Vec<u8>, Vec<u8>))
        ensures
            r.0@ == cipher_stream(
                enc_key(old(self).inner),
                enc_nonce(old(self).inner),
                enc_fed(old(self).inner),
            ).skip(enc_emitted(enc_fed(old(self).inner).len()) as int),
            r.1@ == gcm_tag_of(
                enc_key(old(self).inner),
                enc_nonce(old(self).inner),
                cipher_stream(
                    enc_key(old(self).inner),
                    enc_nonce(old(self).inner),
                    enc_fed(old(self).inner),
                ),
            ),
            r.1@.len() == 16,
    {
        self.inner.finalize()
    }
}

/// Incremental authenticated decryption of one stream under one (key,
/// nonce) pair.  It is fed ciphertext followed by the 16-byte tag; each
/// [`Self::update`] releases plaintext for the blocks that can no longer be
/// the tag, and [`Self::finalize`] checks the tag.  Plaintext is thus
/// released before authenticity is established: only a successful
/// `finalize` vouches for it.
pub struct Decryptor {
    pub inner: aes_gcm_stream::Aes256GcmStreamDecryptor,
}

impl Decryptor {
    /// The key this stream was bound to.
    pub open spec fn key_view(&self) -> Seq<u8> {
        dec_key(self.inner)
    }

    /// The nonce this stream was bound to.
    pub open spec fn nonce_view(&self) -> Seq<u8> {
        dec_nonce(self.inner)
    }

    /// All bytes fed so far.
    pub open spec fn fed_view(&self) -> Seq<u8> {
        dec_fed(self.inner)
    }

    /// Relies on `Aes256GcmStreamDecryptor::new`: binds a fresh cipher
    /// instance to the key and nonce.
    #[verifier::external_body]
    pub fn new(key: &[u8], nonce: &[u8]) -> (s: Self)
        requires
            key@.len() == 32,
            nonce@.len() == 12,
        ensures
            dec_key(s.inner) == key@,
            dec_nonce(s.inner) == nonce@,
            dec_fed(s.inner) == Seq::<u8>::empty(),
    {
        let mut k = [0u8; 32];
        k.copy_from_slice(key);
        Decryptor { inner: aes_gcm_stream::Aes256GcmStreamDecryptor::new(k, nonce) }
    }

    /// Relies on `Aes256GcmStreamDecryptor::update`: XORs the fed bytes
    /// with the same keystream the encryptor used and returns the plaintext
    /// of every block that cannot be part of the trailing tag.  One stream
    /// may carry at most [`MAX_STREAM_LEN`] ciphertext bytes plus the tag.
    #[verifier::external_body]
    pub fn update(&mut self, chunk: &[u8]) -> (pt: Vec<u8>)
        requires
            dec_fed(old(self).inner).len() + chunk@.len() <= MAX_STREAM_LEN + 16,
        ensures
            dec_key(final(self).inner) == dec_key(old(self).inner),
            dec_nonce(final(self).inner) == dec_nonce(old(self).inner),
            dec_fed(final(self).inner) == dec_fed(old(self).inner) + chunk@,
            pt@ == cipher_stream(
                dec_key(old(self).inner),
                dec_nonce(old(self).inner),
                dec_fed(final(self).inner),
            ).subrange(
                dec_emitted(dec_fed(old(self).inner).len()) as int,
                dec_emitted(dec_fed(final(self).inner).len()) as int,
            ),
    {
        self.inner.update(chunk)
    }

    /// Relies on `Aes256GcmStreamDecryptor::finalize`: takes the last 16
    /// fed bytes as the tag, recomputes the tag over everything before
    /// them, and succeeds with the remaining plaintext exactly when the two
    /// agree.  Fewer than 16 fed bytes would make that crate panic, so the
    /// contract keeps such streams out.  The stream is spent afterwards.
    #[verifier::external_body]
    pub fn finalize(&mut self) -> (r: Result<Vec<u8>, String>)
        requires
            dec_fed(old(self).inner).len() >= 16,
        ensures
            ({
                let key = dec_key(old(self).inner);
                let nonce = dec_nonce(old(self).inner);
                let fed = dec_fed(old(self).inner);
                let ct = fed.take(fed.len() - 16);
                let tag = fed.skip(fed.len() - 16);
                match r {
                    Ok(pt) => tag == gcm_tag_of(key, nonce, ct) && pt@ == cipher_stream(
                        key,
                        nonce,
                        ct,
                    ).skip(dec_emitted(fed.len()) as int),
                    Err(_) => tag != gcm_tag_of(key, nonce, ct),
                }
            }),
    {
        self.inner.finalize()
    }
}

/// Chunk size the streaming drivers hand to the cipher: large enough to
/// keep call overhead negligible, small enough to bound the working set.
pub const CHUNK_SIZE: usize = 1048576;

/// Encrypts `plaintext` under `key` and `nonce`, streaming it through the
/// cipher chunk by chunk, and returns the ciphertext (same length as the
/// plaintext) and the 16-byte authentication tag over it.  The plaintext
/// must stay within the single-nonce counter range.
pub fn encrypt_bytes(key: &[u8], nonce: &[u8], plaintext: &[u8]) -> (r: (Vec<u8>, Vec<u8>))
    requires
        key@.len() == 32,
        nonce@.len() == 12,
        plaintext@.len() <= MAX_STREAM_LEN,
    ensures
        r.0@ == cipher_stream(key@, nonce@, plaintext@),
        r.0@.len() == plaintext@.len(),
        r.1@ == gcm_tag_of(key@, nonce@, r.0@),
        r.1@.len() == 16,
{
    let mut enc = Encryptor::new(key, nonce);
    let mut out: Vec<u8> = Vec::new();
    let n = plaintext.len();
    let mut i: usize = 0;
    while i < n
        invariant
            0 <= i <= n,
            n == plaintext@.len(),
            n <= MAX_STREAM_LEN,
            key@.len() == 32,
            nonce@.len() == 12,
            enc.key_view() == key@,
            enc.nonce_view() == nonce@,
            enc.fed_view() == plaintext@.take(i as int),
            out@ == cipher_stream(key@, nonce@, plaintext@).take(enc_emitted(i as nat) as int),
            enc_emitted(i as nat) <= i,
        decreases n - i,
    {
        let end = if n - i < CHUNK_SIZE {
            n
        } else {
            i + CHUNK_SIZE
        };
        let chunk = vstd::slice::slice_subrange(plaintext, i, end);
        let mut ct = enc.update(chunk);
        proof {
            lemma_emitted_le(end as nat);
            assert(plaintext@.take(i as int) + chunk@ =~= plaintext@.take(end as int));
            assert(ct@ =~= cipher_stream(key@, nonce@, plaintext@).subrange(
                enc_emitted(i as nat) as int,
                enc_emitted(end as nat) as int,
            ));
            assert(out@ + ct@ =~= cipher_stream(key@, nonce@, plaintext@).take(
                enc_emitted(end as nat) as int,
            ));
        }
        out.append(&mut ct);
        i = end;
    }
    proof {
        assert(plaintext@.take(n as int) =~= plaintext@);
    }
    let (mut last, tag) = enc.finalize();
    proof {
        assert(out@ + last@ =~= cipher_stream(key@, nonce@, plaintext@));
    }
    out.append(&mut last);
    (out, tag)
}

/// Decrypts `data`, whose last 16 bytes are the tag, streaming it through
/// the cipher chunk by chunk.  Returns the plaintext of everything before
/// the tag exactly when the tag over that ciphertext checks out, and
/// `InvalidAuthenticationTag` otherwise.
pub fn decrypt_bytes(key: &[u8], nonce: &[u8], data: &[u8]) -> (r: Result<Vec<u8>, Error>)
    requires
        key@.len() == 32,
        nonce@.len() == 12,
        data@.len() >= 16,
        data@.len() <= MAX_STREAM_LEN + 16,
    ensures
        ({
            let ct = data@.take(data@.len() - 16);
            let tag = data@.skip(data@.len() - 16);
            match r {
                Ok(pt) => tag == gcm_tag_of(key@, nonce@, ct) && pt@ == cipher_stream(
                    key@,
                    nonce@,
                    ct,
                ),
                Err(e) => tag != gcm_tag_of(key@, nonce@, ct) && e
                    == Error::InvalidAuthenticationTag,
            }
        }),
{
    let ghost ct_g = data@.take(data@.len() - 16);
    let mut dec = Decryptor::new(key, nonce);
    let mut out: Vec<u8> = Vec::new();
    let n = data.len();
    let mut i: usize = 0;
    while i < n
        invariant
            0 <= i <= n,
            n == data@.len(),
            n >= 16,
            n <= MAX_STREAM_LEN + 16,
            key@.len() == 32,
            nonce@.len() == 12,
            dec.key_view() == key@,
            dec.nonce_view() == nonce@,
            dec.fed_view() == data@.take(i as int),
            ct_g == data@.take(n - 16),
            out@ == cipher_stream(key@, nonce@, ct_g).take(dec_emitted(i as nat) as int),
        decreases n - i,
    {
        let end = if n - i < CHUNK_SIZE {
            n
        } else {
            i + CHUNK_SIZE
        };
        let chunk = vstd::slice::slice_subrange(data, i, end);
        let mut pt = dec.update(chunk);
        proof {
            lemma_dec_emitted_le(end as nat);
            assert(data@.take(i as int) + chunk@ =~= data@.take(end as int));
            lemma_cipher_stream_prefix(key@, nonce@, data@, end as int);
            lemma_cipher_stream_prefix(key@, nonce@, data@, n - 16);
            assert(cipher_stream(key@, nonce@, data@.take(end as int)).subrange(
                dec_emitted(i as nat) as int,
                dec_emitted(end as nat) as int,
            ) =~= cipher_stream(key@, nonce@, ct_g).subrange(
                dec_emitted(i as nat) as int,
                dec_emitted(end as nat) as int,
            ));
            assert(out@ + pt@ =~= cipher_stream(key@, nonce@, ct_g).take(
                dec_emitted(end as nat) as int,
            ));
        }
        out.append(&mut pt);
        i = end;
    }
    proof {
        assert(data@.take(n as int) =~= data@);
    }
    match dec.finalize() {
        Ok(mut last) => {
            proof {
                lemma_cipher_stream_prefix(key@, nonce@, data@, n - 16);
                assert(out@ + last@ =~= cipher_stream(key@, nonce@, ct_g));
            }
            out.append(&mut last);
            Ok(out)
        },
        Err(_) => Err(Error::InvalidAuthenticationTag),
    }
}

/// The encryptor never emits more than it was fed.
proof fn lemma_emitted_le(n: nat)
    ensures
        enc_emitted(n) <= n,
{
    assert((n / 16) * 16 <= n) by (nonlinear_arith);
}

/// The decryptor always stays a full block behind what it was fed.
proof fn lemma_dec_emitted_le(n: nat)
    ensures
        n < 16 ==> dec_emitted(n) == 0,
        n >= 16 ==> dec_emitted(n) <= n - 16,
{
    if n >= 32 {
        assert(((n / 16) - 1) * 16 <= n - 16) by (nonlinear_arith);
    }
}

} // verus!

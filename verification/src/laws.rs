use vstd::prelude::*;
use vstd::utf8::encode_utf8;

use crate::container::{SafeHeaderView, ShareFileView};
use crate::format::{
    spec_header_body, spec_magic, spec_read_header, spec_share_body, spec_decode_share,
    spec_decode_share_struct, lemma_header_round_trip, lemma_header_body_round_trip,
    lemma_share_round_trip, lemma_share_struct_round_trip, HeaderParse, ShareParse,
    HEADER_CEILING,
};
use crate::hash::sha256_of;
use crate::ops::{safe_encoding_with, split_encoding_with, tag_matches};
use crate::shamir::{
    shares_for_key, shares_encode_payloads, payloads_split_key, payloads_of, named_bytes,
    seq_views, distinct_x, is_selection_of, selection_by, sss_accepts, sss_secret_of,
    share_is_good, share_payload, reconstruct_accepts, lemma_first_bad_share_none,
};
use crate::stream_aes::{cipher_stream, lemma_cipher_involution};
use crate::VERSION;
use vstd::bytes::{spec_u32_to_le_bytes, spec_u64_to_le_bytes, lemma_auto_spec_u32_to_from_le_bytes, lemma_auto_spec_u64_to_from_le_bytes};

verus! {

/// Round trip of the container and the cipher: a safe file built for
/// `plaintext` under a key and nonce parses back to the very header it was
/// built from, its trailing region carries a matching tag, and applying
/// the keystream to its ciphertext region gives `plaintext` back.  So any
/// caller that recovers the key — such as one holding a threshold of the
/// shares — decrypts the file to the original bytes.
pub proof fn lemma_safe_file_round_trip(
    file: Seq<u8>,
    timestamp: u64,
    label: Seq<char>,
    plaintext: Seq<u8>,
    key: Seq<u8>,
    nonce: Seq<u8>,
)
    requires
        safe_encoding_with(file, timestamp, label, plaintext, key, nonce),
        plaintext.len() <= u64::MAX,
        37 + encode_utf8(label).len() <= HEADER_CEILING,
    ensures
        ({
            let hv = SafeHeaderView {
                version: VERSION,
                timestamp,
                label,
                nonce,
                ciphertext_len: plaintext.len() as u64,
            };
            let data = file.skip(8 + spec_header_body(hv).len() as int);
            &&& spec_read_header(file) == HeaderParse::Good(
                hv,
                spec_header_body(hv).len() as u32,
            )
            &&& data.len() == plaintext.len() + 16
            &&& tag_matches(key, nonce, data)
            &&& cipher_stream(key, nonce, data.take(data.len() - 16)) == plaintext
        }),
{
    lemma_auto_spec_u32_to_from_le_bytes();
    lemma_auto_spec_u64_to_from_le_bytes();
    let hv = SafeHeaderView {
        version: VERSION,
        timestamp,
        label,
        nonce,
        ciphertext_len: plaintext.len() as u64,
    };
    let body = spec_header_body(hv);
    let ct = cipher_stream(key, nonce, plaintext);
    let tag = crate::stream_aes::gcm_tag_of(key, nonce, ct);
    let rest = ct + tag;
    assert(file =~= spec_magic() + spec_u32_to_le_bytes(body.len() as u32) + body + rest);
    lemma_header_round_trip(hv, rest);
    let data = file.skip(8 + body.len() as int);
    assert(data =~= rest);
    assert(data.take(data.len() - 16) =~= ct);
    assert(data.skip(data.len() - 16) =~= tag);
    lemma_cipher_involution(key, nonce, plaintext);
}

/// Format gating: a header whose version byte is anything but the
/// engine's parses as `WrongVersion`, never as a good header, whatever
/// follows it in the file.
pub proof fn lemma_version_gate(hv: SafeHeaderView, rest: Seq<u8>)
    requires
        hv.wf(),
        hv.version != VERSION,
        encode_utf8(hv.label).len() + 37 <= HEADER_CEILING,
    ensures
        spec_read_header(
            spec_magic() + spec_u32_to_le_bytes(spec_header_body(hv).len() as u32)
                + spec_header_body(hv) + rest,
        ) == HeaderParse::WrongVersion(hv.version),
{
    lemma_auto_spec_u32_to_from_le_bytes();
    lemma_auto_spec_u64_to_from_le_bytes();
    let body = spec_header_body(hv);
    let all = spec_magic() + spec_u32_to_le_bytes(body.len() as u32) + body + rest;
    assert(all.subrange(0, 4) =~= spec_magic());
    assert(all.subrange(4, 8) =~= spec_u32_to_le_bytes(body.len() as u32));
    assert(all.subrange(8, 8 + body.len() as int) =~= body);
    lemma_header_body_round_trip(hv);
}

/// Format gating for share records: a record whose version byte is
/// anything but the engine's decodes as `WrongVersion`, before its
/// checksum is even considered.
pub proof fn lemma_share_version_gate(sv: ShareFileView)
    requires
        sv.wf(),
        sv.version != VERSION,
        encode_utf8(sv.label).len() <= u64::MAX,
        sv.share.len() <= u64::MAX,
    ensures
        spec_decode_share(spec_share_body(sv)) == ShareParse::WrongVersion(sv.version),
{
    lemma_share_struct_round_trip(sv);
}

/// Tag tampering is detected: flipping any byte in the 16-byte tag region
/// of a stream whose tag checked out leaves a stream whose tag no longer
/// does, so decryption fails with an authentication error.
pub proof fn lemma_tag_tamper_detected(
    key: Seq<u8>,
    nonce: Seq<u8>,
    data: Seq<u8>,
    tampered: Seq<u8>,
    i: int,
)
    requires
        data.len() >= 16,
        tampered.len() == data.len(),
        data.len() - 16 <= i < data.len(),
        tampered[i] != data[i],
        forall|j: int| 0 <= j < data.len() && j != i ==> tampered[j] == data[j],
        tag_matches(key, nonce, data),
    ensures
        !tag_matches(key, nonce, tampered),
{
    let n = data.len() as int;
    assert(tampered.take(n - 16) =~= data.take(n - 16));
    assert(tampered.skip(n - 16)[i - (n - 16)] != data.skip(n - 16)[i - (n - 16)]);
}

/// Checksum tampering is detected: flipping any byte in the 32-byte
/// checksum region of a sound share record leaves a record that decodes
/// structurally but fails the checksum gate, so it is refused before
/// reconstruction with a `ShareChecksumMismatch`.
pub proof fn lemma_share_checksum_tamper_detected(sv: ShareFileView, tampered: Seq<u8>, i: int)
    requires
        sv.wf(),
        sv.version == VERSION,
        sv.checksum == sha256_of(sv.share),
        encode_utf8(sv.label).len() <= u64::MAX,
        sv.share.len() <= u64::MAX,
        tampered.len() == spec_share_body(sv).len(),
        spec_share_body(sv).len() - 32 <= i < spec_share_body(sv).len(),
        tampered[i] != spec_share_body(sv)[i],
        forall|j: int|
            0 <= j < spec_share_body(sv).len() && j != i ==> tampered[j] == spec_share_body(
                sv,
            )[j],
    ensures
        spec_decode_share(tampered) matches ShareParse::ChecksumMismatch(_),
{
    lemma_auto_spec_u64_to_from_le_bytes();
    let file = spec_share_body(sv);
    let lab = encode_utf8(sv.label);
    let ll = lab.len() as int;
    let sl = sv.share.len() as int;
    let n = file.len() as int;
    assert(n == 57 + ll + sl);
    let sv2 = ShareFileView { checksum: tampered.subrange(25 + ll + sl, 57 + ll + sl), ..sv };
    vstd::utf8::encode_utf8_valid_utf8(sv.label);
    vstd::utf8::encode_utf8_decode_utf8(sv.label);
    assert(tampered.subrange(1, 9) =~= spec_u64_to_le_bytes(sv.timestamp));
    assert(tampered.subrange(9, 17) =~= spec_u64_to_le_bytes(lab.len() as u64));
    assert(tampered.subrange(17, 17 + ll) =~= lab);
    assert(tampered.subrange(17 + ll, 25 + ll) =~= spec_u64_to_le_bytes(sv.share.len() as u64));
    assert(tampered.subrange(25 + ll, 25 + ll + sl) =~= sv.share);
    assert(tampered[0] == sv.version);
    assert(spec_decode_share_struct(tampered) == Option::Some(sv2));
    assert(sv2.checksum[i - (25 + ll + sl)] != sv.checksum[i - (25 + ll + sl)]);
    assert(sv2.checksum != sha256_of(sv2.share));
}

/// Inspection is idempotent: what it reports is a function of the file's
/// bytes alone, so two readings of the same bytes — before or after any
/// failed decryption, which borrows the bytes immutably and cannot change
/// them — agree in every field.
pub proof fn lemma_inspect_idempotent(
    bytes: Seq<u8>,
    hv1: SafeHeaderView,
    l1: u32,
    hv2: SafeHeaderView,
    l2: u32,
)
    requires
        spec_read_header(bytes) == HeaderParse::Good(hv1, l1),
        spec_read_header(bytes) == HeaderParse::Good(hv2, l2),
    ensures
        hv1 == hv2,
        l1 == l2,
{
}

/// Threshold reconstruction: present any `threshold` or more of a split's
/// share records, under any names, in any order and without repetition —
/// every one decodes and passes the checksum gate, their x-coordinates
/// are pairwise distinct, and the scheme accepts their payloads and
/// returns the split's very key.  Under `reconstruct_key`'s contract such
/// a set can therefore only reconstruct that key.
pub proof fn lemma_threshold_subset_reconstructs(
    records: Seq<Vec<u8>>,
    named: Seq<(String, Vec<u8>)>,
    timestamp: u64,
    label: Seq<char>,
    threshold: u8,
    key: Seq<u8>,
)
    requires
        shares_for_key(records, timestamp, label, threshold, key),
        encode_utf8(label).len() <= u64::MAX,
        key.len() + 65 <= u64::MAX,
        1 <= threshold,
        named.len() >= threshold,
        is_selection_of(named_bytes(named), seq_views(records)),
    ensures
        reconstruct_accepts(named),
        distinct_x(payloads_of(named)),
        sss_accepts(payloads_of(named)),
        sss_secret_of(payloads_of(named)) == key,
        forall|k: int|
            0 <= k < named.len() ==> share_payload(#[trigger] named[k]).len() == key.len() + 65,
{
    let ps = choose|ps: Seq<Seq<u8>>|
        shares_encode_payloads(records, timestamp, label, ps) && payloads_split_key(
            ps,
            threshold,
            key,
        );
    let idx = choose|idx: Seq<int>| selection_by(idx, named_bytes(named), seq_views(records));
    assert forall|k: int| 0 <= k < named.len() implies share_is_good(#[trigger] named[k])
        && share_payload(named[k]) == ps[idx[k]] by {
        assert(named_bytes(named)[k] == (named[k].1)@);
        assert(seq_views(records)[idx[k]] == records[idx[k]]@);
        let sv = ShareFileView {
            version: VERSION,
            timestamp,
            label,
            share: ps[idx[k]],
            checksum: sha256_of(ps[idx[k]]),
        };
        lemma_share_round_trip(sv);
        assert((named[k].1)@ == spec_share_body(sv));
    }
    lemma_first_bad_share_none(named);
    assert forall|k: int|
        0 <= k < idx.len() implies 0 <= #[trigger] idx[k] < ps.len() && payloads_of(named)[k]
        == ps[idx[k]] by {}
    assert(selection_by(idx, payloads_of(named), ps));
    assert(is_selection_of(payloads_of(named), ps));
    assert(sss_accepts(payloads_of(named)) && sss_secret_of(payloads_of(named)) == key);
    let got = payloads_of(named);
    assert forall|i: int, j: int|
        #![trigger got[i], got[j]]
        0 <= i < j < named.len() implies got[i][0] != got[j][0] by {
        if idx[i] < idx[j] {
            assert(ps[idx[i]][0] != ps[idx[j]][0]);
        } else {
            assert(ps[idx[j]][0] != ps[idx[i]][0]);
        }
    }
    assert(distinct_x(got));
}

/// The whole round trip, the provable core of the first stated property:
/// take one split's safe file and ANY selection of at least `threshold`
/// of its share records, in any order.  The records reconstruct exactly
/// the split's key; the safe file parses back to its header, its size
/// matches, its tag checks out under that key, and the keystream applied
/// to its ciphertext region is the original plaintext.  These are
/// precisely the conditions under which `decrypt_and_reconstruct`'s
/// contract owes success with that plaintext.
pub proof fn lemma_pipeline_round_trip(
    file: Seq<u8>,
    records: Seq<Vec<u8>>,
    named: Seq<(String, Vec<u8>)>,
    timestamp: u64,
    label: Seq<char>,
    plaintext: Seq<u8>,
    threshold: u8,
    key: Seq<u8>,
    nonce: Seq<u8>,
)
    requires
        split_encoding_with(file, records, timestamp, label, plaintext, threshold, key, nonce),
        plaintext.len() <= crate::stream_aes::MAX_STREAM_LEN,
        37 + encode_utf8(label).len() <= HEADER_CEILING,
        1 <= threshold,
        named.len() >= threshold,
        is_selection_of(named_bytes(named), seq_views(records)),
    ensures
        reconstruct_accepts(named),
        distinct_x(payloads_of(named)),
        sss_accepts(payloads_of(named)),
        sss_secret_of(payloads_of(named)) == key,
        share_payload(named[0]).len() == 97,
        ({
            let hv = SafeHeaderView {
                version: VERSION,
                timestamp,
                label,
                nonce,
                ciphertext_len: plaintext.len() as u64,
            };
            let data = file.skip(8 + spec_header_body(hv).len() as int);
            &&& spec_read_header(file) == HeaderParse::Good(
                hv,
                spec_header_body(hv).len() as u32,
            )
            &&& data.len() == plaintext.len() + 16
            &&& hv.ciphertext_len <= crate::stream_aes::MAX_STREAM_LEN
            &&& tag_matches(key, nonce, data)
            &&& cipher_stream(key, nonce, data.take(data.len() - 16)) == plaintext
        }),
{
    lemma_threshold_subset_reconstructs(records, named, timestamp, label, threshold, key);
    lemma_safe_file_round_trip(file, timestamp, label, plaintext, key, nonce);
}

} // verus!

use vstd::prelude::*;
use vstd::string::StringExecFns;
use zeroize::Zeroize;
use sss_rs::wrapped_sharing::Error as WrappedSharingError;

use crate::container::{ShareFile, ShareFileView};
use crate::error::Error;
use crate::format::{spec_share_body, spec_decode_share, encode_share, decode_share, ShareParse};
use crate::hash::{sha256, sha256_of};
use crate::VERSION;

verus! {

#[verifier::external_type_specification]
#[verifier::external_body]
pub struct ExSssError(WrappedSharingError);

/// Whether the sharing scheme accepts a sequence of share payloads.
/// Reconstruction is deterministic — per-byte interpolation and a check of
/// the embedded consistency hash, with no randomness — so acceptance is a
/// function of the payloads alone.
pub uninterp spec fn sss_accepts(payloads: Seq<Seq<u8>>) -> bool;

/// The secret the sharing scheme reconstructs from a sequence of share
/// payloads it accepts.
pub uninterp spec fn sss_secret_of(payloads: Seq<Seq<u8>>) -> Seq<u8>;

/// The abstract bytes of each buffer in a list.
pub open spec fn seq_views(bufs: Seq<Vec<u8>>) -> Seq<Seq<u8>> {
    Seq::new(bufs.len(), |i: int| bufs[i]@)
}

/// No two payloads open with the same x-coordinate byte.  Interpolation
/// divides by differences of x-coordinates, so the scheme is only ever
/// handed payloads for which this holds.
pub open spec fn distinct_x(ps: Seq<Seq<u8>>) -> bool {
    forall|i: int, j: int|
        #![trigger ps[i], ps[j]]
        0 <= i < j < ps.len() ==> ps[i][0] != ps[j][0]
}

/// `idx` names, for each entry of `chosen`, a distinct position in `all`
/// holding that entry.
pub open spec fn selection_by(idx: Seq<int>, chosen: Seq<Seq<u8>>, all: Seq<Seq<u8>>) -> bool {
    &&& idx.len() == chosen.len()
    &&& forall|k: int|
        0 <= k < idx.len() ==> 0 <= #[trigger] idx[k] < all.len() && chosen[k] == all[idx[k]]
    &&& forall|k: int, l: int|
        #![trigger idx[k], idx[l]]
        0 <= k < l < idx.len() ==> idx[k] != idx[l]
}

/// `chosen` picks entries of `all` at pairwise-distinct positions, in any
/// order.
pub open spec fn is_selection_of(chosen: Seq<Seq<u8>>, all: Seq<Seq<u8>>) -> bool {
    exists|idx: Seq<int>| selection_by(idx, chosen, all)
}

/// The payloads are one split of `key`: each is the key plus the scheme's
/// 65 bytes of x-coordinate and consistency hash, their x-coordinates are
/// pairwise distinct, and every non-empty selection of at least
/// `threshold` of them is accepted by the scheme and reconstructs exactly
/// `key`.
pub open spec fn payloads_split_key(ps: Seq<Seq<u8>>, threshold: u8, key: Seq<u8>) -> bool {
    &&& forall|i: int| 0 <= i < ps.len() ==> (#[trigger] ps[i]).len() == key.len() + 65
    &&& distinct_x(ps)
    &&& forall|chosen: Seq<Seq<u8>>|
        chosen.len() >= threshold && chosen.len() >= 1 && #[trigger] is_selection_of(chosen, ps)
            ==> sss_accepts(chosen) && sss_secret_of(chosen) == key
}

/// Each listed record is the encoding of the matching payload with this
/// split's timestamp and label and a checksum freshly computed over the
/// payload.
pub open spec fn shares_encode_payloads(
    files: Seq<Vec<u8>>,
    timestamp: u64,
    label: Seq<char>,
    ps: Seq<Seq<u8>>,
) -> bool {
    &&& ps.len() == files.len()
    &&& forall|i: int| 0 <= i < ps.len() ==> sha256_of(#[trigger] ps[i]).len() == 32
    &&& forall|i: int|
        0 <= i < files.len() ==> (#[trigger] files[i])@ == spec_share_body(
            ShareFileView {
                version: VERSION,
                timestamp,
                label,
                share: ps[i],
                checksum: sha256_of(ps[i]),
            },
        )
}

/// The records are one split of `key`: they encode payloads of which any
/// `threshold` reconstruct it.
pub open spec fn shares_for_key(
    files: Seq<Vec<u8>>,
    timestamp: u64,
    label: Seq<char>,
    threshold: u8,
    key: Seq<u8>,
) -> bool {
    exists|ps: Seq<Seq<u8>>|
        #![trigger shares_encode_payloads(files, timestamp, label, ps)]
        shares_encode_payloads(files, timestamp, label, ps) && payloads_split_key(
            ps,
            threshold,
            key,
        )
}

/// Why the sharing scheme refused a reconstruction.
pub enum ReconstructFailure {
    /// The scheme-level consistency check failed: the recovered secret is
    /// not self-consistent, as when shares of different splits are mixed
    /// or fewer than the threshold are supplied.
    Verification { expected: String, calculated: String },
    /// The supplied share payloads do not all have the same length.
    Inconsistent,
    /// Any other refusal, described in words.
    Other { details: String },
}

/// Relies on `sss_rs::wrapped_sharing::share` with verification enabled:
/// splits `secret` into `total` random share payloads.  Their number and
/// length (the secret, a 64-byte consistency hash, a one-byte
/// x-coordinate) are fixed; the x-coordinates are drawn without
/// replacement, so they are pairwise distinct; and, as that crate
/// documents, any `threshold` or more of the payloads — in any order —
/// reconstruct exactly `secret`, which the `payloads_split_key` clause
/// states over the reconstruction names.  It refuses only fewer than two
/// shares in all, or a threshold above the share count.
#[verifier::external_body]
fn sss_share(secret: &[u8], threshold: u8, total: u8) -> (r: Result<
    Vec<Vec<u8>>,
    sss_rs::wrapped_sharing::Error,
>)
    ensures
        match r {
            Ok(shares) => {
                &&& 2 <= total
                &&& threshold <= total
                &&& shares@.len() == total as int
                &&& payloads_split_key(seq_views(shares@), threshold, secret@)
            },
            Err(_) => total < 2 || threshold > total,
        },
{
    sss_rs::wrapped_sharing::share(secret, threshold, total, true)
}

/// Relies on `sss_rs::wrapped_sharing::reconstruct` with verification
/// enabled: a deterministic function of the payloads, named here by
/// `sss_accepts` and `sss_secret_of` — it succeeds exactly when the
/// scheme accepts the payloads, and then returns the named secret, 65
/// bytes shorter than one payload.  Empty inputs, and two payloads
/// opening with the same x-coordinate (a zero divisor in the
/// interpolation), would make that crate panic, so the contract keeps
/// both out.
#[verifier::external_body]
fn sss_reconstruct(shares: &Vec<Vec<u8>>) -> (r: Result<Vec<u8>, ReconstructFailure>)
    requires
        shares@.len() >= 1,
        forall|i: int| 0 <= i < shares@.len() ==> (#[trigger] shares@[i])@.len() >= 1,
        distinct_x(seq_views(shares@)),
    ensures
        match r {
            Ok(secret) => {
                &&& sss_accepts(seq_views(shares@))
                &&& secret@ == sss_secret_of(seq_views(shares@))
                &&& (shares@[0])@.len() >= 65
                &&& secret@.len() == (shares@[0])@.len() - 65
            },
            Err(_) => !sss_accepts(seq_views(shares@)),
        },
{
    match sss_rs::wrapped_sharing::reconstruct(shares, true) {
        Ok(secret) => Ok(secret),
        Err(sss_rs::wrapped_sharing::Error::VerificationFailure(expected, calculated)) => Err(
            ReconstructFailure::Verification { expected, calculated },
        ),
        Err(sss_rs::wrapped_sharing::Error::InconsistentSourceLength(_)) => Err(
            ReconstructFailure::Inconsistent,
        ),
        Err(other) => Err(ReconstructFailure::Other { details: format!("{}", other) }),
    }
}

/// Relies on `zeroize::Zeroize` for `Vec<u8>`: overwrites the buffer's
/// whole allocation with zeros and empties it.
#[verifier::external_body]
pub fn zeroize_vec(v: &mut Vec<u8>)
    ensures
        final(v)@.len() == 0,
{
    v.zeroize()
}

/// Zeroes every buffer in the list.
fn zeroize_all(bufs: &mut Vec<Vec<u8>>)
    ensures
        final(bufs)@.len() == old(bufs)@.len(),
{
    let mut k: usize = 0;
    while k < bufs.len()
        invariant
            bufs@.len() == old(bufs)@.len(),
        decreases bufs@.len() - k,
    {
        let p = &mut bufs[k];
        zeroize_vec(p);
        k = k + 1;
    }
}

/// One persisted share record: encodes `payload` with the split's shared
/// timestamp and label and a fresh hash of the payload as checksum.
pub open spec fn is_share_encoding(
    file: Seq<u8>,
    timestamp: u64,
    label: Seq<char>,
    payload_len: int,
) -> bool {
    exists|p: Seq<u8>|
        p.len() == payload_len && file == spec_share_body(
            ShareFileView {
                version: VERSION,
                timestamp,
                label,
                share: p,
                checksum: sha256_of(p),
            },
        )
}

/// Splits `key` into `shares` share payloads, any `threshold` of which
/// reconstruct it, and returns one encoded share record per payload, each
/// carrying the split's timestamp and label and a checksum over its
/// payload; `shares_for_key` in the contract ties the records to the very
/// key.  The raw payload buffers are zeroed before returning.
///
/// Fails with `SharingFailed` exactly when the scheme refuses the counts:
/// fewer than two shares in all, or a threshold above the share count.
pub fn create_shares(key: &[u8], threshold: u8, shares: u8, label: &String, timestamp: u64) -> (r:
    Result<Vec<Vec<u8>>, Error>)
    ensures
        match r {
            Ok(files) => {
                &&& 2 <= shares
                &&& threshold <= shares
                &&& files@.len() == shares as int
                &&& shares_for_key(files@, timestamp, label@, threshold, key@)
                &&& forall|i: int|
                    0 <= i < files@.len() ==> is_share_encoding(
                        (#[trigger] files@[i])@,
                        timestamp,
                        label@,
                        key@.len() as int + 65,
                    )
            },
            Err(e) => (shares < 2 || threshold > shares) && e.is_sharing_failed(),
        },
{
    let mut payloads = match sss_share(key, threshold, shares) {
        Ok(p) => p,
        Err(e) => {
            return Err(Error::SharingFailed { details: e.to_string() });
        },
    };
    let mut files: Vec<Vec<u8>> = Vec::new();
    let mut i: usize = 0;
    while i < payloads.len()
        invariant
            0 <= i <= payloads@.len(),
            payloads@.len() == shares as int,
            payloads_split_key(seq_views(payloads@), threshold, key@),
            files@.len() == i,
            forall|j: int|
                0 <= j < i ==> sha256_of((#[trigger] payloads@[j])@).len() == 32,
            forall|j: int|
                0 <= j < i ==> (#[trigger] files@[j])@ == spec_share_body(
                    ShareFileView {
                        version: VERSION,
                        timestamp,
                        label: label@,
                        share: (payloads@[j])@,
                        checksum: sha256_of((payloads@[j])@),
                    },
                ),
        decreases payloads@.len() - i,
    {
        let payload_ref = &payloads[i];
        let checksum = sha256(payload_ref.as_slice());
        let sf = ShareFile {
            version: VERSION,
            timestamp,
            label: label.clone(),
            share: payload_ref.clone(),
            checksum,
        };
        let encoded = encode_share(&sf);
        files.push(encoded);
        i = i + 1;
    }
    proof {
        let ps = seq_views(payloads@);
        assert(shares_encode_payloads(files@, timestamp, label@, ps));
        assert(shares_for_key(files@, timestamp, label@, threshold, key@));
        assert forall|j: int| 0 <= j < files@.len() implies is_share_encoding(
            (#[trigger] files@[j])@,
            timestamp,
            label@,
            key@.len() as int + 65,
        ) by {
            assert((files@[j])@ == spec_share_body(
                ShareFileView {
                    version: VERSION,
                    timestamp,
                    label: label@,
                    share: ps[j],
                    checksum: sha256_of(ps[j]),
                },
            ));
        }
    }
    zeroize_all(&mut payloads);
    Ok(files)
}

/// The name a share with the given 1-based index is persisted under.
pub open spec fn spec_share_file_name(n: nat) -> Seq<char> {
    seq!['s', 'h', 'a', 'r', 'e', '_'] + crate::utils::spec_padded3(n) + seq!['.', 'b', 'i', 'n']
}

/// The name a share with the given 1-based index is persisted under, as in
/// `share_001.bin`.
pub fn share_file_name(index: u64) -> (s: String)
    ensures
        s@ == spec_share_file_name(index as nat),
{
    proof {
        reveal_strlit("share_");
        reveal_strlit(".bin");
    }
    let mut s = String::new();
    s.append("share_");
    let mid = crate::utils::padded3_string(index);
    s.append(mid.as_str());
    s.append(".bin");
    proof {
        assert(s@ =~= spec_share_file_name(index as nat));
    }
    s
}

/// The smallest index of a share file that fails decoding, the checksum
/// gate, or has an empty payload; the list's length when every file is
/// sound.
pub open spec fn first_bad_share(files: Seq<(String, Vec<u8>)>) -> int
    decreases files.len(),
{
    if files.len() == 0 {
        0
    } else if !share_is_good(files[0]) {
        0
    } else {
        1 + first_bad_share(files.skip(1))
    }
}

/// A share file decodes, passes the checksum gate, and has a non-empty
/// payload.
pub open spec fn share_is_good(file: (String, Vec<u8>)) -> bool {
    match spec_decode_share(file.1@) {
        ShareParse::Good(sv) => sv.share.len() >= 1,
        _ => false,
    }
}

/// The error a bad share file earns, naming that file's path.
pub open spec fn share_error(file: (String, Vec<u8>)) -> Error {
    match spec_decode_share(file.1@) {
        ShareParse::Malformed => Error::ShareCorrupted { path: file.0 },
        ShareParse::WrongVersion(v) => Error::UnsupportedVersion { path: file.0, version: v },
        ShareParse::ChecksumMismatch(_) => Error::ShareChecksumMismatch { path: file.0 },
        ShareParse::Good(_) => Error::ShareCorrupted { path: file.0 },
    }
}

/// Every file passes the codec and checksum gate and has a payload.
pub open spec fn reconstruct_accepts(files: Seq<(String, Vec<u8>)>) -> bool {
    files.len() >= 1 && first_bad_share(files) == files.len()
}

/// The decoded payload of each share file in a list.
pub open spec fn payloads_of(files: Seq<(String, Vec<u8>)>) -> Seq<Seq<u8>> {
    Seq::new(files.len(), |i: int| share_payload(files[i]))
}

/// The raw bytes of each named share file in a list.
pub open spec fn named_bytes(files: Seq<(String, Vec<u8>)>) -> Seq<Seq<u8>> {
    Seq::new(files.len(), |i: int| (files[i].1)@)
}

/// What reconstruction reports of a share set it refuses: nothing to work
/// with; the first unsound file's own error; a repeated x-coordinate
/// (duplicate shares, or colliding shares of different splits); or the
/// scheme's refusal of a sound, distinct set — which happens exactly when
/// the scheme does not accept the payloads.
pub open spec fn reconstruct_refusal(files: Seq<(String, Vec<u8>)>, e: Error) -> bool {
    if files.len() == 0 {
        e == (Error::NotEnoughShares { provided: 0, required: 1 })
    } else if first_bad_share(files) < files.len() {
        e == share_error(files[first_bad_share(files)])
    } else if !distinct_x(payloads_of(files)) {
        e matches Error::OtherShareReconstructionError { details: _ }
    } else {
        &&& !sss_accepts(payloads_of(files))
        &&& (e.is_share_verification_failed() || e matches Error::OtherShareReconstructionError {
            details: _,
        })
    }
}

/// The payload of a share file that decodes.
pub open spec fn share_payload(file: (String, Vec<u8>)) -> Seq<u8> {
    match spec_decode_share(file.1@) {
        ShareParse::Good(sv) => sv.share,
        _ => Seq::empty(),
    }
}

/// Reconstructs the key from share files, each given as its path (for
/// error reporting) and its raw bytes.
///
/// Every file passes the codec and checksum gate first, in order: the
/// first file that fails decoding, the checksum, or has an empty payload
/// decides the error, and reconstruction is never attempted on such a
/// set.  An empty list fails with `NotEnoughShares`; two shares carrying
/// the same x-coordinate are refused before the scheme sees them.  On a
/// sound, distinct set, success comes exactly when the scheme accepts the
/// payloads — so on any selection that `shares_for_key` covers — and the
/// returned key is the scheme's reconstruction of them; refusals surface
/// as `ShareVerificationFailed` or `OtherShareReconstructionError`.  The
/// payload buffers are zeroed on every path.
pub fn reconstruct_key(share_files: &Vec<(String, Vec<u8>)>) -> (r: Result<Vec<u8>, Error>)
    ensures
        ({
            let files = share_files@;
            let ps = payloads_of(files);
            match r {
                Ok(key) => {
                    &&& reconstruct_accepts(files)
                    &&& distinct_x(ps)
                    &&& sss_accepts(ps)
                    &&& key@ == sss_secret_of(ps)
                    &&& share_payload(files[0]).len() >= 65
                    &&& key@.len() == share_payload(files[0]).len() - 65
                },
                Err(e) => reconstruct_refusal(files, e),
            }
        }),
{
    if share_files.len() == 0 {
        return Err(Error::NotEnoughShares { provided: 0, required: 1 });
    }
    let mut payloads: Vec<Vec<u8>> = Vec::new();
    let n = share_files.len();
    let mut i: usize = 0;
    while i < n
        invariant
            0 <= i <= n,
            n == share_files@.len(),
            payloads@.len() == i,
            forall|j: int| 0 <= j < i ==> share_is_good(#[trigger] share_files@[j]),
            forall|j: int|
                0 <= j < i ==> (#[trigger] payloads@[j])@ == share_payload(share_files@[j]),
            forall|j: int| 0 <= j < i ==> (#[trigger] payloads@[j])@.len() >= 1,
        decreases n - i,
    {
        let entry = &share_files[i];
        let sf = match decode_share(entry.1.as_slice(), &entry.0) {
            Ok(sf) => sf,
            Err(e) => {
                proof {
                    lemma_first_bad_share_at(share_files@, i as int);
                }
                zeroize_all(&mut payloads);
                return Err(e);
            },
        };
        if sf.share.len() == 0 {
            proof {
                lemma_first_bad_share_at(share_files@, i as int);
            }
            zeroize_all(&mut payloads);
            return Err(Error::ShareCorrupted { path: entry.0.clone() });
        }
        payloads.push(sf.share);
        i = i + 1;
    }
    proof {
        lemma_first_bad_share_none(share_files@);
        assert(seq_views(payloads@) =~= payloads_of(share_files@));
    }
    let m = payloads.len();
    let mut a: usize = 1;
    while a < m
        invariant
            1 <= a <= m || m == 0,
            1 <= m,
            m == payloads@.len(),
            m == share_files@.len(),
            first_bad_share(share_files@) == share_files@.len(),
            forall|j: int|
                0 <= j < m ==> (#[trigger] payloads@[j])@ == share_payload(share_files@[j]),
            forall|j: int| 0 <= j < m ==> (#[trigger] payloads@[j])@.len() >= 1,
            forall|x: int, y: int|
                #![trigger payloads@[x], payloads@[y]]
                0 <= x < y < a ==> (payloads@[x])@[0] != (payloads@[y])@[0],
        decreases m - a,
    {
        let xa = payloads[a][0];
        let mut b: usize = 0;
        while b < a
            invariant
                0 <= b <= a < m,
                m == payloads@.len(),
                m == share_files@.len(),
                first_bad_share(share_files@) == share_files@.len(),
                forall|j: int|
                    0 <= j < m ==> (#[trigger] payloads@[j])@ == share_payload(share_files@[j]),
                forall|j: int| 0 <= j < m ==> (#[trigger] payloads@[j])@.len() >= 1,
                xa == (payloads@[a as int])@[0],
                forall|x: int, y: int|
                    #![trigger payloads@[x], payloads@[y]]
                    0 <= x < y < a ==> (payloads@[x])@[0] != (payloads@[y])@[0],
                forall|x: int| 0 <= x < b ==> (#[trigger] payloads@[x])@[0] != xa,
            decreases a - b,
        {
            if payloads[b][0] == xa {
                proof {
                    let ps = payloads_of(share_files@);
                    assert(ps[b as int] == (payloads@[b as int])@);
                    assert(ps[a as int] == (payloads@[a as int])@);
                    assert(ps[b as int][0] == ps[a as int][0]);
                    assert(!distinct_x(ps));
                }
                zeroize_all(&mut payloads);
                return Err(
                    Error::OtherShareReconstructionError {
                        details: "two shares carry the same x-coordinate".to_owned(),
                    },
                );
            }
            b = b + 1;
        }
        a = a + 1;
    }
    proof {
        let sv = seq_views(payloads@);
        assert(sv =~= payloads_of(share_files@));
        assert forall|x: int, y: int| 0 <= x < y < sv.len() implies sv[x][0] != sv[y][0] by {
            assert(sv[x] == (payloads@[x])@);
            assert(sv[y] == (payloads@[y])@);
        }
        assert(distinct_x(sv));
    }
    let result = sss_reconstruct(&payloads);
    zeroize_all(&mut payloads);
    match result {
        Ok(key) => Ok(key),
        Err(ReconstructFailure::Verification { expected: _, calculated: _ }) => Err(
            Error::ShareVerificationFailed { details: "share verification failed".to_owned() },
        ),
        Err(ReconstructFailure::Inconsistent) => Err(
            Error::OtherShareReconstructionError {
                details: "share files have inconsistent lengths".to_owned(),
            },
        ),
        Err(ReconstructFailure::Other { details }) => Err(
            Error::OtherShareReconstructionError { details },
        ),
    }
}

/// When the first `i` files are sound and file `i` is not, `i` is the
/// first bad index.
proof fn lemma_first_bad_share_at(files: Seq<(String, Vec<u8>)>, i: int)
    requires
        0 <= i < files.len(),
        forall|j: int| 0 <= j < i ==> share_is_good(#[trigger] files[j]),
        !share_is_good(files[i]),
    ensures
        first_bad_share(files) == i,
    decreases files.len(),
{
    if i > 0 {
        lemma_first_bad_share_at(files.skip(1), i - 1);
    }
}

/// When every file is sound, the first bad index is the length.
pub proof fn lemma_first_bad_share_none(files: Seq<(String, Vec<u8>)>)
    requires
        forall|j: int| 0 <= j < files.len() ==> share_is_good(#[trigger] files[j]),
    ensures
        first_bad_share(files) == files.len(),
    decreases files.len(),
{
    if files.len() > 0 {
        lemma_first_bad_share_none(files.skip(1));
    }
}

} // verus!

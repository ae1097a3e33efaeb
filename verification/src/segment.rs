use vstd::prelude::*;
use vstd::string::StrSliceExecFns;
use vstd::string::StringSliceAdditionalSpecFns;
use aes::cipher::KeyIvInit;
use aes::cipher::BlockDecryptMut;
use crate::errors::DownloadError;
use crate::manifest::CipherMaterial;

verus! {

/// How one segment ended. `Persisted` and `SkippedAlreadyPresent` carry
/// the byte count that feeds the progress accounting; a corrupted segment
/// contributes nothing and is never retried within the session.
#[derive(Clone, Copy, Debug, PartialEq, Eq, Structural)]
pub enum SegmentOutcome {
    Persisted(u64),
    Corrupted,
    SkippedAlreadyPresent(u64),
}

/// The decision before any network work on a segment.
#[derive(Clone, Copy, Debug, PartialEq, Eq, Structural)]
pub enum SegmentPlan {
    /// A file of this size already sits at the segment's path: the
    /// outcome is `SkippedAlreadyPresent` and no request is issued.
    SkipExisting(u64),
    /// Nothing persisted yet: the segment must be fetched.
    Fetch,
}

/// What to do about a segment whose file may already exist: an existing
/// file of size `n` is skipped with `SkippedAlreadyPresent(n)` and issues
/// zero network calls; otherwise the segment is fetched.
pub fn plan_segment(existing_size: Option<u64>) -> (r: SegmentPlan)
    ensures
        r == match existing_size {
            Some(n) => SegmentPlan::SkipExisting(n),
            None => SegmentPlan::Fetch,
        },
{
    match existing_size {
        Some(n) => SegmentPlan::SkipExisting(n),
        None => SegmentPlan::Fetch,
    }
}

/// The decision on a segment response status.
#[derive(Clone, Copy, Debug, PartialEq, Eq, Structural)]
pub enum ResponseAction {
    /// An upstream transcoding glitch: write an empty placeholder file,
    /// record the segment as `Corrupted`, and continue the session.
    WritePlaceholder,
    /// A success: decrypt the body and persist the plaintext.
    Decrypt,
    /// Any other status is fatal for the whole video.
    Fail,
}

/// Classifies a segment response: 502 and 504 are the host's transcoding
/// glitches and degrade to a placeholder, 200 proceeds to decryption, and
/// every other status is fatal.
pub fn response_action(status: u16) -> (r: ResponseAction)
    ensures
        r == if status == 502 || status == 504 {
            ResponseAction::WritePlaceholder
        } else if status == 200 {
            ResponseAction::Decrypt
        } else {
            ResponseAction::Fail
        },
{
    if status == 502 || status == 504 {
        ResponseAction::WritePlaceholder
    } else if status == 200 {
        ResponseAction::Decrypt
    } else {
        ResponseAction::Fail
    }
}

/// What AES-128-CBC decryption with PKCS#7 unpadding yields: the
/// plaintext when the body is whole blocks with sound padding, nothing
/// otherwise.
pub uninterp spec fn aes_cbc_open(key: Seq<u8>, iv: Seq<u8>, data: Seq<u8>) -> Option<Seq<u8>>;

/// Relies on cbc::Decryptor::<aes::Aes128>::new_from_slices and
/// cipher::BlockDecryptMut::decrypt_padded_mut with PKCS#7: the plaintext
/// depends on key, IV and body alone; a body that is not whole blocks or
/// unpads wrongly is rejected.
#[verifier::external_body]
fn aes_cbc_decrypt(key: &Vec<u8>, iv: &Vec<u8>, data: &Vec<u8>) -> (r: Option<Vec<u8>>)
    requires
        key@.len() == 16,
        iv@.len() == 16,
    ensures
        match r {
            Some(p) => aes_cbc_open(key@, iv@, data@) == Some(p@),
            None => aes_cbc_open(key@, iv@, data@) is None,
        },
{
    let dec: cbc::Decryptor<aes::Aes128> = match cbc::Decryptor::new_from_slices(
        key.as_slice(),
        iv.as_slice(),
    ) {
        Ok(d) => d,
        Err(_) => return None,
    };
    let mut buf = data.clone();
    match dec.decrypt_padded_mut::<aes::cipher::block_padding::Pkcs7>(&mut buf) {
        Ok(p) => Some(p.to_vec()),
        Err(_) => None,
    }
}

/// Decrypts one fetched segment body with the rendition's shared material.
pub fn decrypt_segment(material: &CipherMaterial, body: &Vec<u8>) -> (r: Result<
    Vec<u8>,
    DownloadError,
>)
    requires
        material.wf(),
    ensures
        match r {
            Ok(p) => aes_cbc_open(material.key@, material.iv@, body@) == Some(p@),
            Err(e) => e == DownloadError::SegmentDecryptFailed && aes_cbc_open(
                material.key@,
                material.iv@,
                body@,
            ) is None,
        },
{
    match aes_cbc_decrypt(&material.key, &material.iv, body) {
        Some(p) => Ok(p),
        None => Err(DownloadError::SegmentDecryptFailed),
    }
}

/// The decimal digits of `n`, most significant first.
pub open spec fn spec_digits(n: nat) -> Seq<u8>
    decreases n,
{
    if n < 10 {
        seq![(48 + n) as u8]
    } else {
        spec_digits(n / 10).push((48 + n % 10) as u8)
    }
}

/// The decimal digits of `n`, left-padded with zeros to at least `w`.
pub open spec fn spec_padded(n: nat, w: nat) -> Seq<u8> {
    let d = spec_digits(n);
    if d.len() >= w {
        d
    } else {
        Seq::new((w - d.len()) as nat, |i: int| 48u8) + d
    }
}

/// The deterministic file name of a segment, namespaced by ordinal and
/// quality index so concurrent writers never collide.
pub open spec fn spec_part_name(ordinal: nat, quality: nat) -> Seq<u8> {
    ("Vpart-").spec_bytes() + spec_padded(ordinal, 10) + ("-").spec_bytes() + spec_padded(
        quality,
        2,
    ) + (".ts").spec_bytes()
}

/// Appends all of `src` to `dst`.
fn push_all(dst: &mut Vec<u8>, src: &Vec<u8>)
    ensures
        final(dst)@ == old(dst)@ + src@,
{
    let mut i: usize = 0;
    while i < src.len()
        invariant
            0 <= i <= src@.len(),
            dst@ == old(dst)@ + src@.take(i as int),
        decreases src@.len() - i,
    {
        dst.push(src[i]);
        proof {
            assert(old(dst)@ + src@.take(i + 1) =~= (old(dst)@ + src@.take(i as int)).push(
                src@[i as int],
            ));
        }
        i = i + 1;
    }
    proof {
        assert(src@.take(src@.len() as int) =~= src@);
    }
}

/// The decimal form of `n`, left-padded with zeros to at least `width`.
fn pad_decimal(n: usize, width: usize) -> (r: Vec<u8>)
    ensures
        r@ == spec_padded(n as nat, width as nat),
{
    let mut rev: Vec<u8> = Vec::new();
    let mut m: usize = n;
    let d0: u8 = (m % 10) as u8;
    rev.push(48 + d0);
    m = m / 10;
    proof {
        if m == 0 {
            assert(spec_digits(n as nat) =~= rev@.reverse());
        } else {
            assert(spec_digits(n as nat) =~= spec_digits(m as nat) + rev@.reverse());
        }
    }
    while m > 0
        invariant
            rev@.len() >= 1,
            if m > 0 {
                spec_digits(n as nat) == spec_digits(m as nat) + rev@.reverse()
            } else {
                spec_digits(n as nat) == rev@.reverse()
            },
        decreases m,
    {
        let d: u8 = (m % 10) as u8;
        let ghost rev_old = rev@;
        let ghost m_old = m as nat;
        rev.push(48 + d);
        m = m / 10;
        proof {
            assert(rev@.reverse() =~= seq![(48 + m_old % 10) as u8] + rev_old.reverse());
            if m == 0 {
                assert(spec_digits(m_old) =~= seq![(48 + m_old % 10) as u8]);
                assert(spec_digits(n as nat) =~= rev@.reverse());
            } else {
                assert(spec_digits(m_old) =~= spec_digits(m as nat).push(
                    (48 + m_old % 10) as u8,
                ));
                assert(spec_digits(m as nat) + rev@.reverse() =~= (spec_digits(m as nat).push(
                    (48 + m_old % 10) as u8,
                )) + rev_old.reverse());
                assert(spec_digits(n as nat) =~= spec_digits(m as nat) + rev@.reverse());
            }
        }
    }
    let dig_len = rev.len();
    let mut r: Vec<u8> = Vec::new();
    let mut pad: usize = 0;
    while dig_len < width && pad < width - dig_len
        invariant
            0 <= pad,
            dig_len == rev@.len(),
            dig_len < width ==> pad <= width - dig_len,
            dig_len >= width ==> pad == 0,
            r@ == Seq::new(pad as nat, |i: int| 48u8),
        decreases width - dig_len - pad,
    {
        r.push(48);
        proof {
            assert(r@ =~= Seq::new((pad + 1) as nat, |i: int| 48u8));
        }
        pad = pad + 1;
    }
    let mut idx: usize = 0;
    let ghost pad_part = r@;
    while idx < dig_len
        invariant
            0 <= idx <= dig_len,
            dig_len == rev@.len(),
            r@ == pad_part + rev@.reverse().take(idx as int),
        decreases dig_len - idx,
    {
        r.push(rev[dig_len - 1 - idx]);
        proof {
            assert(rev@.reverse()[idx as int] == rev@[dig_len - 1 - idx]);
            assert(pad_part + rev@.reverse().take(idx + 1) =~= (pad_part
                + rev@.reverse().take(idx as int)).push(rev@[dig_len - 1 - idx]));
        }
        idx = idx + 1;
    }
    proof {
        assert(rev@.reverse().take(dig_len as int) =~= rev@.reverse());
        if dig_len >= width {
            assert(pad_part =~= Seq::<u8>::empty());
            assert(r@ =~= spec_padded(n as nat, width as nat));
        } else {
            assert(r@ =~= spec_padded(n as nat, width as nat));
        }
    }
    r
}

/// The file name for a segment: `Vpart-` then the ordinal padded to ten
/// digits, `-`, the quality index padded to two digits, and `.ts`.
pub fn part_name(ordinal: usize, quality_index: usize) -> (r: Vec<u8>)
    ensures
        r@ == spec_part_name(ordinal as nat, quality_index as nat),
{
    let mut r = ("Vpart-").as_bytes_vec();
    let ord = pad_decimal(ordinal, 10);
    push_all(&mut r, &ord);
    let dash = ("-").as_bytes_vec();
    push_all(&mut r, &dash);
    let q = pad_decimal(quality_index, 2);
    push_all(&mut r, &q);
    let ext = (".ts").as_bytes_vec();
    push_all(&mut r, &ext);
    proof {
        assert(r@ =~= spec_part_name(ordinal as nat, quality_index as nat));
    }
    r
}

} // verus!

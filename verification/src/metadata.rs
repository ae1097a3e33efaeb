use vstd::prelude::*;
use vstd::string::StrSliceExecFns;
use vstd::string::StringExecFns;
use vstd::string::StringSliceAdditionalSpecFns;
use crate::errors::DownloadError;
use crate::cipher::b64_decoded;

verus! {

/// One entry of the embed metadata's quality list: a label such as `720p`
/// and the rendition's total byte size, as the page carries it.
#[derive(Debug)]
pub struct VideoQuality {
    pub name: String,
    pub size: String,
}

/// The per-video embed metadata: title, master manifest name, per-video
/// secret and the ordered quality list.
#[derive(Debug)]
pub struct VideoData {
    pub title: String,
    pub playlist: String,
    pub msgn: String,
    pub download: Vec<VideoQuality>,
}

/// What the embed page's script matches against: the `n`-th (0-based,
/// non-overlapping, leftmost-first) match of `pattern` in `text`, as the
/// matched bytes. The value depends on the three arguments alone.
pub uninterp spec fn regex_nth_match(pattern: Seq<char>, text: Seq<u8>, n: int) -> Option<Seq<u8>>;

/// Relies on regex::Regex: `new(pattern)` then `find_iter(text).nth(n)`;
/// matches are non-overlapping and leftmost-first, so the result depends
/// on the pattern, the text and the index alone.
#[verifier::external_body]
fn nth_match(pattern: &str, text: &str, n: usize) -> (r: Option<Vec<u8>>)
    ensures
        match r {
            Some(m) => regex_nth_match(pattern@, text.spec_bytes(), n as int) == Some(m@),
            None => regex_nth_match(pattern@, text.spec_bytes(), n as int) is None,
        },
{
    let re = match regex::Regex::new(pattern) {
        Ok(re) => re,
        Err(_) => return None,
    };
    let found = re.find_iter(text).nth(n).map(|m| m.as_str().as_bytes().to_vec());
    found
}

/// Where the metadata payload sits in the embed page: the 25th
/// single-quoted literal.
pub open spec fn spec_embed_payload(body: Seq<u8>) -> Result<Seq<u8>, DownloadError> {
    match regex_nth_match("'.*?'"@, body, 24) {
        None => Err(DownloadError::MetadataNotFound),
        Some(m) => if m.len() < 2 {
            Err(DownloadError::MetadataNotFound)
        } else {
            match b64_decoded(m.subrange(1, m.len() - 1)) {
                Some(payload) => Ok(payload),
                None => Err(DownloadError::InvalidMetadata),
            }
        },
    }
}

/// Scans the embed page body for the 25th single-quoted literal — a fixed
/// structural offset into the host's script — strips the quotes and
/// base64-decodes it into the raw metadata document.
pub fn extract_embed_payload(body: &str) -> (r: Result<Vec<u8>, DownloadError>)
    ensures
        match r {
            Ok(v) => spec_embed_payload(body.spec_bytes()) == Ok::<Seq<u8>, DownloadError>(v@),
            Err(e) => spec_embed_payload(body.spec_bytes()) == Err::<Seq<u8>, DownloadError>(e),
        },
{
    let m = match nth_match("'.*?'", body, 24) {
        Some(m) => m,
        None => {
            return Err(DownloadError::MetadataNotFound);
        },
    };
    if m.len() < 2 {
        return Err(DownloadError::MetadataNotFound);
    }
    let inner = crate::bytes::subvec(&m, 1, m.len() - 1);
    match crate::cipher::b64_decode(&inner) {
        Some(payload) => Ok(payload),
        None => Err(DownloadError::InvalidMetadata),
    }
}

/// What the JSON decoder reads out of the metadata document: the title,
/// the master manifest name, the per-video secret, and the quality list
/// as (label, size) pairs — or nothing, when the bytes are not a JSON
/// object of that shape. A function of the bytes alone.
pub uninterp spec fn metadata_of(payload: Seq<u8>) -> Option<
    (Seq<char>, Seq<char>, Seq<char>, Seq<(Seq<char>, Seq<char>)>),
>;

/// Relies on serde_json::from_slice and Value::{get, as_str, as_array},
/// all functions of the bytes alone: the string fields `title`,
/// `playlist` and `msgn`, and the `download` array of objects with
/// string fields `name` and `size`, in array order.
#[verifier::external_body]
fn decode_metadata(payload: &Vec<u8>) -> (r: Option<(String, String, String, Vec<(String, String)>)>)
    ensures
        match r {
            Some(t) => metadata_of(payload@) == Some(
                (t.0@, t.1@, t.2@, Seq::new(t.3@.len(), |i: int| (t.3@[i].0@, t.3@[i].1@))),
            ),
            None => metadata_of(payload@) is None,
        },
{
    let v: serde_json::Value = serde_json::from_slice(payload.as_slice()).ok()?;
    let title = v.get("title")?.as_str()?.to_string();
    let playlist = v.get("playlist")?.as_str()?.to_string();
    let msgn = v.get("msgn")?.as_str()?.to_string();
    let mut qualities = Vec::new();
    for q in v.get("download")?.as_array()? {
        qualities.push((q.get("name")?.as_str()?.to_string(), q.get("size")?.as_str()?.to_string()));
    }
    Some((title, playlist, msgn, qualities))
}

/// Decodes the raw metadata document into the embed metadata: exactly
/// the fields the JSON decoder reads, or `InvalidMetadata` when the
/// document does not have that shape.
pub fn parse_metadata(payload: &Vec<u8>) -> (r: Result<VideoData, DownloadError>)
    ensures
        match r {
            Ok(d) => metadata_of(payload@) matches Some(m) && d.title@ == m.0 && d.playlist@
                == m.1 && d.msgn@ == m.2 && d.download@.len() == m.3.len() && (forall|i: int|
                0 <= i < m.3.len() ==> (#[trigger] d.download@[i]).name@ == m.3[i].0
                    && d.download@[i].size@ == m.3[i].1),
            Err(e) => e == DownloadError::InvalidMetadata && metadata_of(payload@) is None,
        },
{
    let decoded = match decode_metadata(payload) {
        Some(t) => t,
        None => {
            return Err(DownloadError::InvalidMetadata);
        },
    };
    let (title, playlist, msgn, entries) = decoded;
    let mut download: Vec<VideoQuality> = Vec::new();
    let mut i: usize = 0;
    while i < entries.len()
        invariant
            0 <= i <= entries@.len(),
            download@.len() == i,
            forall|t: int|
                0 <= t < i ==> (#[trigger] download@[t]).name@ == entries@[t].0@
                    && download@[t].size@ == entries@[t].1@,
        decreases entries@.len() - i,
    {
        let name = entries[i].0.clone();
        let size = entries[i].1.clone();
        download.push(VideoQuality { name, size });
        i = i + 1;
    }
    Ok(VideoData { title, playlist, msgn, download })
}

/// The characters a title may not carry into a file name.
pub open spec fn forbidden_in_name(b: u8) -> bool {
    b == 92 || b == 47 || b == 58 || b == 42 || b == 63 || b == 34 || b == 60 || b == 62 || b == 124
}

fn is_forbidden_in_name(b: u8) -> (r: bool)
    ensures
        r == forbidden_in_name(b),
{
    b == 92 || b == 47 || b == 58 || b == 42 || b == 63 || b == 34 || b == 60 || b == 62 || b == 124
}

/// A title with every byte of `\ / : * ? " < > |` replaced by `-`. The
/// replaced bytes are ASCII, so the replacement is exact on the UTF-8
/// encoding as well.
pub open spec fn spec_sanitize(title: Seq<u8>) -> Seq<u8> {
    title.map_values(|b: u8| if forbidden_in_name(b) { 45u8 } else { b })
}

/// The file-system-safe form of a video title, as bytes.
pub fn sanitize_title(title: &str) -> (r: Vec<u8>)
    ensures
        r@ == spec_sanitize(title.spec_bytes()),
{
    let bytes = title.as_bytes_vec();
    let mut r: Vec<u8> = Vec::new();
    let mut i: usize = 0;
    while i < bytes.len()
        invariant
            0 <= i <= bytes@.len(),
            r@ == spec_sanitize(bytes@.take(i as int)),
        decreases bytes@.len() - i,
    {
        let b = bytes[i];
        if is_forbidden_in_name(b) {
            r.push(45);
        } else {
            r.push(b);
        }
        proof {
            assert(r@ =~= spec_sanitize(bytes@.take(i + 1)));
        }
        i = i + 1;
    }
    proof {
        assert(bytes@.take(bytes@.len() as int) =~= bytes@);
    }
    r
}

/// A decimal digit.
pub open spec fn is_digit(b: u8) -> bool {
    48 <= b && b <= 57
}

/// The value of a string of decimal digits, most significant first.
pub open spec fn digits_val(s: Seq<u8>) -> int
    decreases s.len(),
{
    if s.len() == 0 {
        0
    } else {
        digits_val(s.drop_last()) * 10 + (s.last() - 48)
    }
}

/// A quality's declared byte size: a non-empty string of decimal digits
/// whose value fits the progress counter.
pub open spec fn spec_parse_size(s: Seq<u8>) -> Option<u64> {
    if s.len() == 0 || (exists|i: int| 0 <= i < s.len() && !is_digit(s[i])) {
        None
    } else if digits_val(s) > u64::MAX {
        None
    } else {
        Some(digits_val(s) as u64)
    }
}

proof fn lemma_digits_val_prefix_le(s: Seq<u8>, i: int, j: int)
    requires
        0 <= i <= j <= s.len(),
        forall|k: int| 0 <= k < s.len() ==> is_digit(s[k]),
    ensures
        digits_val(s.take(i)) <= digits_val(s.take(j)),
    decreases j - i,
{
    if i < j {
        lemma_digits_val_prefix_le(s, i, j - 1);
        assert(s.take(j).drop_last() =~= s.take(j - 1));
        assert(s.take(j).last() == s[j - 1]);
        assert(is_digit(s[j - 1]));
        assert(digits_val(s.take(j)) == digits_val(s.take(j - 1)) * 10 + (s[j - 1] - 48));
        assert(digits_val(s.take(i)) >= 0) by {
            lemma_digits_val_nonneg(s.take(i));
        }
        assert(digits_val(s.take(j - 1)) >= 0) by {
            lemma_digits_val_nonneg(s.take(j - 1));
        }
    }
}

proof fn lemma_digits_val_nonneg(s: Seq<u8>)
    requires
        forall|k: int| 0 <= k < s.len() ==> is_digit(s[k]),
    ensures
        digits_val(s) >= 0,
    decreases s.len(),
{
    if s.len() > 0 {
        assert(forall|k: int| 0 <= k < s.drop_last().len() ==> s.drop_last()[k] == s[k]);
        lemma_digits_val_nonneg(s.drop_last());
    }
}

/// Reads a quality's declared size. `Some` exactly when the string is
/// non-empty, all digits, and the value fits in 64 bits.
pub fn parse_size(s: &str) -> (r: Option<u64>)
    ensures
        r == spec_parse_size(s.spec_bytes()),
{
    let bytes = s.as_bytes_vec();
    if bytes.len() == 0 {
        return None;
    }
    let mut acc: u64 = 0;
    let mut i: usize = 0;
    while i < bytes.len()
        invariant
            bytes@ == s.spec_bytes(),
            0 < bytes@.len(),
            0 <= i <= bytes@.len(),
            forall|j: int| 0 <= j < i ==> is_digit(bytes@[j]),
            acc == digits_val(bytes@.take(i as int)),
        decreases bytes@.len() - i,
    {
        let b = bytes[i];
        if b < 48 || b > 57 {
            proof {
                assert(bytes@ == s.spec_bytes());
                assert(0 <= i < s.spec_bytes().len() && !is_digit(s.spec_bytes()[i as int]));
                assert(spec_parse_size(s.spec_bytes()) is None);
            }
            return None;
        }
        let d = (b - 48) as u64;
        proof {
            assert(bytes@.take(i + 1).drop_last() =~= bytes@.take(i as int));
            assert(bytes@.take(i + 1).last() == bytes@[i as int]);
        }
        if acc > (u64::MAX - d) / 10 {
            proof {
                vstd::arithmetic::div_mod::lemma_fundamental_div_mod((u64::MAX - d) as int, 10);
                assert(acc * 10 + d > u64::MAX);
                assert(digits_val(bytes@.take(i + 1)) > u64::MAX);
                assert(bytes@ == s.spec_bytes());
                if forall|k: int| 0 <= k < bytes@.len() ==> is_digit(#[trigger] bytes@[k]) {
                    lemma_digits_val_prefix_le(bytes@, i + 1, bytes@.len() as int);
                    assert(bytes@.take(bytes@.len() as int) =~= bytes@);
                    assert(digits_val(s.spec_bytes()) > u64::MAX);
                } else {
                    let k = choose|k: int| 0 <= k < bytes@.len() && !is_digit(#[trigger] bytes@[k]);
                    assert(!is_digit(s.spec_bytes()[k]));
                }
                assert(spec_parse_size(s.spec_bytes()) is None);
            }
            return None;
        }
        proof {
            vstd::arithmetic::div_mod::lemma_fundamental_div_mod((u64::MAX - d) as int, 10);
            assert(acc * 10 + d <= u64::MAX);
        }
        acc = acc * 10 + d;
        i = i + 1;
    }
    proof {
        assert(bytes@.take(bytes@.len() as int) =~= bytes@);
    }
    Some(acc)
}

/// The name of the final output artifact: the sanitized title with the
/// target container extension.
pub fn output_file_name(title: &str) -> (r: Vec<u8>)
    ensures
        r@ == spec_sanitize(title.spec_bytes()) + (".mp4").spec_bytes(),
{
    let mut r = sanitize_title(title);
    let ext = (".mp4").as_bytes_vec();
    let mut i: usize = 0;
    while i < ext.len()
        invariant
            0 <= i <= ext@.len(),
            r@ == spec_sanitize(title.spec_bytes()) + ext@.take(i as int),
        decreases ext@.len() - i,
    {
        r.push(ext[i]);
        proof {
            assert(spec_sanitize(title.spec_bytes()) + ext@.take(i + 1) =~= (spec_sanitize(
                title.spec_bytes(),
            ) + ext@.take(i as int)).push(ext@[i as int]));
        }
        i = i + 1;
    }
    proof {
        assert(spec_sanitize(title.spec_bytes()) + ext@.take(0) =~= spec_sanitize(
            title.spec_bytes(),
        ));
        assert(ext@.take(ext@.len() as int) =~= ext@);
    }
    r
}

/// The first quality whose label is exactly the desired label followed by
/// `p`, and its position in the list.
pub fn find_quality_index(qualities: &Vec<VideoQuality>, desired: &str) -> (r: Option<usize>)
    ensures
        match r {
            Some(i) => i < qualities@.len() && qualities@[i as int].name@ == desired@ + "p"@
                && forall|j: int| 0 <= j < i ==> qualities@[j].name@ != desired@ + "p"@,
            None => forall|j: int|
                0 <= j < qualities@.len() ==> qualities@[j].name@ != desired@ + "p"@,
        },
{
    let mut target = desired.to_owned();
    target.append("p");
    let mut i: usize = 0;
    while i < qualities.len()
        invariant
            0 <= i <= qualities@.len(),
            target@ == desired@ + "p"@,
            forall|j: int| 0 <= j < i ==> qualities@[j].name@ != desired@ + "p"@,
        decreases qualities@.len() - i,
    {
        if qualities[i].name == target {
            return Some(i);
        }
        i = i + 1;
    }
    None
}

} // verus!

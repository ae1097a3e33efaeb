use vstd::prelude::*;
use vstd::string::StrSliceExecFns;
use vstd::string::StringSliceAdditionalSpecFns;
use crate::errors::DownloadError;
use crate::bytes::{split_seq, split_bytes, subvec, has_prefix, has_prefix_spec, match_at,
    find_last_match};
use crate::cipher::{spec_hex_decode, hex_decode};
use crate::metadata::VideoQuality;

verus! {

/// The symmetric material shared by every segment of a rendition:
/// an AES-128 key and its IV, 16 bytes each.
#[derive(Debug)]
pub struct CipherMaterial {
    pub key: Vec<u8>,
    pub iv: Vec<u8>,
}

impl CipherMaterial {
    pub open spec fn wf(&self) -> bool {
        self.key@.len() == 16 && self.iv@.len() == 16
    }

    /// Accepts the fetched key bytes and the manifest's IV exactly when
    /// both have the block length.
    pub fn new(key: Vec<u8>, iv: Vec<u8>) -> (r: Result<CipherMaterial, DownloadError>)
        ensures
            match r {
                Ok(m) => key@.len() == 16 && iv@.len() == 16 && m.key@ == key@ && m.iv@ == iv@
                    && m.wf(),
                Err(e) => e == DownloadError::KeyMaterialMissing && !(key@.len() == 16
                    && iv@.len() == 16),
            },
    {
        if key.len() == 16 && iv.len() == 16 {
            Ok(CipherMaterial { key, iv })
        } else {
            Err(DownloadError::KeyMaterialMissing)
        }
    }
}

/// One segment of the chosen rendition: its dense 0-based position and
/// its URI, a line of the rendition manifest.
#[derive(Debug)]
pub struct SegmentRef {
    pub ordinal: usize,
    pub uri: Vec<u8>,
}

/// What the rendition manifest yields: the segment list in file order,
/// the hex-decoded IV, and the URI the key must be fetched from.
#[derive(Debug)]
pub struct RenditionManifest {
    pub segments: Vec<SegmentRef>,
    pub iv: Vec<u8>,
    pub key_uri: Vec<u8>,
}

/// A line that names a segment: it begins with the URL scheme prefix.
pub open spec fn is_segment_line(l: Seq<u8>) -> bool {
    has_prefix_spec(l, ("https://").spec_bytes())
}

/// A line that carries key material: it begins with the key tag.
pub open spec fn is_key_line(l: Seq<u8>) -> bool {
    has_prefix_spec(l, ("#EXT-X-KEY").spec_bytes())
}

/// The segment lines of a manifest, in file order.
pub open spec fn seg_lines(lines: Seq<Seq<u8>>) -> Seq<Seq<u8>>
    decreases lines.len(),
{
    if lines.len() == 0 {
        Seq::empty()
    } else if is_segment_line(lines.last()) {
        seg_lines(lines.drop_last()).push(lines.last())
    } else {
        seg_lines(lines.drop_last())
    }
}

/// The bytes of the token that announces an IV on a key line: `IV=`.
pub open spec fn iv_token() -> Seq<u8> {
    seq![73u8, 86u8, 61u8]
}

/// `k` is the position of the last key line.
pub open spec fn last_key_line(lines: Seq<Seq<u8>>, k: int) -> bool {
    &&& 0 <= k < lines.len()
    &&& is_key_line(lines[k])
    &&& forall|j: int| k < j < lines.len() ==> !is_key_line(lines[j])
}

/// `part` is what follows the last occurrence of the IV token on the
/// line, or the whole line when the token is absent.
pub open spec fn iv_source(l: Seq<u8>, part: Seq<u8>) -> bool {
    let pat = iv_token();
    ||| exists|i: int|
        #[trigger] match_at(l, pat, i) && part == l.skip(i + pat.len()) && (forall|j: int|
            j > i ==> !match_at(l, pat, j))
    ||| (forall|j: int| !match_at(l, pat, j)) && part == l
}

/// The key line hands out this IV and key URI: the IV is the hex decode
/// of the IV source with its two-character prefix stripped, and the key
/// URI is the text inside the line's first pair of double quotes.
pub open spec fn key_line_gives(l: Seq<u8>, iv: Seq<u8>, uri: Seq<u8>) -> bool {
    &&& exists|part: Seq<u8>|
        #[trigger] iv_source(l, part) && part.len() >= 2 && spec_hex_decode(part.skip(2))
            == Some(iv)
    &&& split_seq(l, 34).len() >= 2
    &&& uri == split_seq(l, 34)[1]
}

/// The key line parses at all.
pub open spec fn key_line_ok(l: Seq<u8>) -> bool {
    exists|iv: Seq<u8>, uri: Seq<u8>| key_line_gives(l, iv, uri)
}

/// The IV source of a line is unique.
proof fn lemma_iv_source_unique(l: Seq<u8>, p1: Seq<u8>, p2: Seq<u8>)
    requires
        iv_source(l, p1),
        iv_source(l, p2),
    ensures
        p1 == p2,
{
    let pat = iv_token();
    if exists|i: int|
        #[trigger] match_at(l, pat, i) && p1 == l.skip(i + pat.len()) && (forall|j: int|
            j > i ==> !match_at(l, pat, j)) {
        let i1 = choose|i: int|
            #[trigger] match_at(l, pat, i) && p1 == l.skip(i + pat.len()) && (forall|j: int|
                j > i ==> !match_at(l, pat, j));
        if exists|i: int|
            #[trigger] match_at(l, pat, i) && p2 == l.skip(i + pat.len()) && (forall|j: int|
                j > i ==> !match_at(l, pat, j)) {
            let i2 = choose|i: int|
                #[trigger] match_at(l, pat, i) && p2 == l.skip(i + pat.len()) && (forall|j: int|
                    j > i ==> !match_at(l, pat, j));
            if i1 < i2 {
                assert(!match_at(l, pat, i2));
            }
            if i2 < i1 {
                assert(!match_at(l, pat, i1));
            }
        } else {
            assert(!match_at(l, pat, i1));
        }
    } else {
        assert(p1 == l);
        if exists|i: int|
            #[trigger] match_at(l, pat, i) && p2 == l.skip(i + pat.len()) && (forall|j: int|
                j > i ==> !match_at(l, pat, j)) {
            let i2 = choose|i: int|
                #[trigger] match_at(l, pat, i) && p2 == l.skip(i + pat.len()) && (forall|j: int|
                    j > i ==> !match_at(l, pat, j));
            assert(!match_at(l, pat, i2));
        }
    }
}

/// Parses the decrypted rendition manifest. Every line beginning with the
/// scheme prefix is a segment URI, collected in file order under dense
/// 0-based ordinals; the last line beginning with the key tag supplies the
/// IV (hex, after the `IV=` token, two-character prefix stripped) and the
/// key URI (inside the first double quotes). A manifest without a usable
/// key line is refused: key and IV must be known before segment work.
pub fn parse_rendition_manifest(text: &str) -> (r: Result<RenditionManifest, DownloadError>)
    ensures
        ({
            let lines = split_seq(text.spec_bytes(), 10);
            match r {
                Ok(m) => {
                    &&& exists|k: int|
                        #[trigger] last_key_line(lines, k) && key_line_gives(
                            lines[k],
                            m.iv@,
                            m.key_uri@,
                        )
                    &&& m.segments@.len() == seg_lines(lines).len()
                    &&& forall|t: int|
                        0 <= t < m.segments@.len() ==> (#[trigger] m.segments@[t]).ordinal == t
                            && m.segments@[t].uri@ == seg_lines(lines)[t]
                },
                Err(e) => {
                    &&& e == DownloadError::KeyMaterialMissing
                    &&& ((forall|k: int| 0 <= k < lines.len() ==> !is_key_line(lines[k])) || (
                    exists|k: int| #[trigger] last_key_line(lines, k) && !key_line_ok(lines[k])))
                },
            }
        }),
{
    let bytes = text.as_bytes_vec();
    let lines = split_bytes(&bytes, 10);
    let key_tag = ("#EXT-X-KEY").as_bytes_vec();
    let https = ("https://").as_bytes_vec();
    let ghost lv = lines.deep_view();
    let mut segments: Vec<SegmentRef> = Vec::new();
    let mut key_idx: Option<usize> = None;
    let mut i: usize = 0;
    proof {
        assert(lv.take(0) =~= Seq::<Seq<u8>>::empty());
    }
    while i < lines.len()
        invariant
            lv == lines.deep_view(),
            lv == split_seq(text.spec_bytes(), 10),
            lines@.len() == lv.len(),
            key_tag@ == ("#EXT-X-KEY").spec_bytes(),
            https@ == ("https://").spec_bytes(),
            0 <= i <= lv.len(),
            segments@.len() == seg_lines(lv.take(i as int)).len(),
            forall|t: int|
                0 <= t < segments@.len() ==> (#[trigger] segments@[t]).ordinal == t
                    && segments@[t].uri@ == seg_lines(lv.take(i as int))[t],
            match key_idx {
                Some(k) => 0 <= k < i && is_key_line(lv[k as int]) && forall|j: int|
                    k < j < i ==> !is_key_line(lv[j]),
                None => forall|j: int| 0 <= j < i ==> !is_key_line(lv[j]),
            },
        decreases lv.len() - i,
    {
        proof {
            assert(lv[i as int] == lines@[i as int]@);
            assert(lv.take(i + 1).drop_last() =~= lv.take(i as int));
            assert(lv.take(i + 1).last() == lv[i as int]);
        }
        if has_prefix(&lines[i], &key_tag) {
            key_idx = Some(i);
        }
        let is_seg = has_prefix(&lines[i], &https);
        proof {
            assert(seg_lines(lv.take(i + 1)) == (if is_segment_line(lv[i as int]) {
                seg_lines(lv.take(i as int)).push(lv[i as int])
            } else {
                seg_lines(lv.take(i as int))
            }));
        }
        if is_seg {
            let ordinal = segments.len();
            let uri = subvec(&lines[i], 0, lines[i].len());
            proof {
                assert(uri@ =~= lv[i as int]);
            }
            segments.push(SegmentRef { ordinal, uri });
        }
        i = i + 1;
    }
    proof {
        assert(lv.take(lv.len() as int) =~= lv);
    }
    let k = match key_idx {
        Some(k) => k,
        None => {
            return Err(DownloadError::KeyMaterialMissing);
        },
    };
    let ghost kl = lv[k as int];
    proof {
        assert(kl == lines@[k as int]@);
        assert(last_key_line(lv, k as int));
    }
    let mut iv_pat: Vec<u8> = Vec::new();
    iv_pat.push(73);
    iv_pat.push(86);
    iv_pat.push(61);
    proof {
        assert(iv_pat@ =~= iv_token());
    }
    let kl_len = lines[k].len();
    let part = match find_last_match(&lines[k], &iv_pat) {
        Some(p) => {
            proof {
                assert(p + iv_pat@.len() <= kl_len);
            }
            let r = subvec(&lines[k], p + iv_pat.len(), kl_len);
            proof {
                assert(r@ =~= kl.skip(p + iv_pat@.len()));
            }
            r
        },
        None => {
            let r = subvec(&lines[k], 0, kl_len);
            proof {
                assert(r@ =~= kl);
            }
            r
        },
    };
    proof {
        assert(iv_source(kl, part@));
    }
    if part.len() < 2 {
        proof {
            assert(!key_line_ok(kl)) by {
                if key_line_ok(kl) {
                    let (iv, uri) = choose|iv: Seq<u8>, uri: Seq<u8>| key_line_gives(kl, iv, uri);
                    let part2 = choose|p: Seq<u8>|
                        #[trigger] iv_source(kl, p) && p.len() >= 2 && spec_hex_decode(p.skip(2))
                            == Some(iv);
                    lemma_iv_source_unique(kl, part@, part2);
                }
            }
        }
        return Err(DownloadError::KeyMaterialMissing);
    }
    let iv_hex = subvec(&part, 2, part.len());
    proof {
        assert(iv_hex@ =~= part@.skip(2));
    }
    let iv = match hex_decode(&iv_hex) {
        Some(v) => v,
        None => {
            proof {
                assert(!key_line_ok(kl)) by {
                    if key_line_ok(kl) {
                        let (iv, uri) = choose|iv: Seq<u8>, uri: Seq<u8>|
                            key_line_gives(kl, iv, uri);
                        let part2 = choose|p: Seq<u8>|
                            #[trigger] iv_source(kl, p) && p.len() >= 2 && spec_hex_decode(
                                p.skip(2),
                            ) == Some(iv);
                        lemma_iv_source_unique(kl, part@, part2);
                    }
                }
            }
            return Err(DownloadError::KeyMaterialMissing);
        },
    };
    let quote_parts = split_bytes(&lines[k], 34);
    proof {
        assert(quote_parts.deep_view() == split_seq(kl, 34));
    }
    if quote_parts.len() < 2 {
        return Err(DownloadError::KeyMaterialMissing);
    }
    let key_uri = subvec(&quote_parts[1], 0, quote_parts[1].len());
    proof {
        assert(key_uri@ =~= quote_parts.deep_view()[1]);
    }
    let m = RenditionManifest { segments, iv, key_uri };
    proof {
        assert(key_line_gives(kl, m.iv@, m.key_uri@));
    }
    Ok(m)
}

/// How many fields a split can have: one more than the separators.
pub proof fn lemma_split_len_bound(s: Seq<u8>, sep: u8)
    ensures
        split_seq(s, sep).len() <= s.len() + 1,
    decreases s.len(),
{
    if s.len() > 0 {
        lemma_split_len_bound(s.drop_first(), sep);
    }
}

/// The line of the master manifest at 0-based position `n`, if the
/// manifest has that many lines.
pub fn select_line(text: &str, n: usize) -> (r: Option<Vec<u8>>)
    ensures
        ({
            let lines = split_seq(text.spec_bytes(), 10);
            match r {
                Some(l) => n < lines.len() && l@ == lines[n as int],
                None => n >= lines.len(),
            }
        }),
{
    let bytes = text.as_bytes_vec();
    let lines = split_bytes(&bytes, 10);
    if n < lines.len() {
        proof {
            assert(lines.deep_view()[n as int] == lines@[n as int]@);
        }
        Some(subvec(&lines[n], 0, lines[n].len()))
    } else {
        None
    }
}

/// Resolves a desired quality label against the quality list and the
/// decrypted master manifest: the label matched exactly against
/// `label + "p"` gives the index, and the rendition URI stands at line
/// `(index + 1) * 2` — each quality holds two lines, a descriptor and a
/// URI. A missing label is `QualityUnavailable`; a master manifest too
/// short for the line is `IndexOutOfRange`.
pub fn resolve_master_line(qualities: &Vec<VideoQuality>, desired: &str, master_text: &str) -> (r:
    Result<(usize, Vec<u8>), DownloadError>)
    ensures
        ({
            let lines = split_seq(master_text.spec_bytes(), 10);
            let target = desired@ + "p"@;
            match r {
                Ok((i, line)) => {
                    &&& i < qualities@.len()
                    &&& qualities@[i as int].name@ == target
                    &&& forall|j: int| 0 <= j < i ==> qualities@[j].name@ != target
                    &&& 2 * i + 2 < lines.len()
                    &&& line@ == lines[2 * i + 2]
                },
                Err(e) => {
                    ||| (e == DownloadError::QualityUnavailable && forall|j: int|
                        0 <= j < qualities@.len() ==> qualities@[j].name@ != target)
                    ||| (e == DownloadError::IndexOutOfRange && exists|i: int|
                        0 <= i < qualities@.len() && (#[trigger] qualities@[i]).name@ == target
                            && (forall|j: int| 0 <= j < i ==> qualities@[j].name@ != target) && 2
                            * i + 2 >= lines.len())
                },
            }
        }),
{
    let i = match crate::metadata::find_quality_index(qualities, desired) {
        Some(i) => i,
        None => {
            return Err(DownloadError::QualityUnavailable);
        },
    };
    select_at_index(i, master_text)
}

/// The rendition line for a caller-chosen quality index: line
/// `(index + 1) * 2` of the decrypted master manifest, or
/// `IndexOutOfRange` when the manifest is too short.
pub fn select_at_index(index: usize, master_text: &str) -> (r: Result<
    (usize, Vec<u8>),
    DownloadError,
>)
    ensures
        ({
            let lines = split_seq(master_text.spec_bytes(), 10);
            match r {
                Ok((i, line)) => i == index && 2 * index + 2 < lines.len() && line@ == lines[2
                    * index + 2],
                Err(e) => e == DownloadError::IndexOutOfRange && 2 * index + 2 >= lines.len(),
            }
        }),
{
    let bytes = master_text.as_bytes_vec();
    let byte_count = bytes.len();
    let lines = split_bytes(&bytes, 10);
    if index > (usize::MAX - 2) / 2 {
        proof {
            lemma_split_len_bound(bytes@, 10);
            assert(byte_count == bytes@.len());
            assert(2 * (index as int) + 2 > usize::MAX as int);
            assert(split_seq(bytes@, 10).len() <= byte_count + 1);
        }
        return Err(DownloadError::IndexOutOfRange);
    }
    let t = index * 2 + 2;
    if t < lines.len() {
        proof {
            assert(lines.deep_view()[t as int] == lines@[t as int]@);
        }
        Ok((index, subvec(&lines[t], 0, lines[t].len())))
    } else {
        Err(DownloadError::IndexOutOfRange)
    }
}

} // verus!

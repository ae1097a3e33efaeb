use vstd::prelude::*;
use vstd::string::StrSliceExecFns;
use crate::errors::DownloadError;
use crate::timer::{TimeRange, first_index, spec_fields2, find_char};

verus! {

/// The immutable identity of one video and the per-session choices made
/// for it. Every request URL is built from the host and the id.
#[derive(Debug)]
pub struct Video {
    pub video_id: String,
    pub video_host: String,
    pub desired_quality: Option<String>,
    pub quality_index: usize,
    pub time_range: Option<TimeRange>,
}

impl Video {
    /// A fresh session: no quality chosen yet, no scheduling window.
    pub fn new(video_id: String, video_host: String, desired_quality: Option<String>) -> (r:
        Video)
        ensures
            r.video_id == video_id,
            r.video_host == video_host,
            r.desired_quality == desired_quality,
            r.quality_index == 0,
            r.time_range is None,
    {
        Video { video_id, video_host, desired_quality, quality_index: 0, time_range: None }
    }

    /// Restricts this session's work to a daily window.
    pub fn set_time_range(&mut self, time_range: TimeRange)
        ensures
            *final(self) == (Video { time_range: Some(time_range), ..*old(self) }),
    {
        self.time_range = Some(time_range);
    }

    /// Remembers which quality was selected; segment files are namespaced
    /// by it.
    pub fn set_quality_index(&mut self, quality_index: usize)
        ensures
            *final(self) == (Video { quality_index, ..*old(self) }),
    {
        self.quality_index = quality_index;
    }
}

/// The command-line surface: an optional batch file of links and an
/// optional scheduling window, only meaningful together.
#[derive(Debug)]
pub struct KavimoArgs {
    pub file: Option<String>,
    pub timer: Option<String>,
}

impl KavimoArgs {
    /// A window without a batch file is refused.
    pub fn validate(&self) -> (r: bool)
        ensures
            r == !(self.timer is Some && self.file is None),
    {
        if self.timer.is_some() {
            if self.file.is_none() {
                return false;
            }
        }
        true
    }
}

/// What the URL parser reads as the host of a link: the host name when
/// the link parses and its host is a registered domain; nothing when the
/// link does not parse, has no host, or the host is an IP literal.
pub uninterp spec fn url_domain_of(s: Seq<char>) -> Option<Seq<char>>;

/// What the URL parser reads as the path of a link, when the link parses.
pub uninterp spec fn url_path_of(s: Seq<char>) -> Option<Seq<char>>;

/// Relies on url::Url::parse, Url::host and Url::path, all functions of
/// the input string alone: the domain host and the path of the link.
#[verifier::external_body]
fn url_parts(s: &str) -> (r: Option<(String, String)>)
    ensures
        match r {
            Some(hp) => url_domain_of(s@) == Some(hp.0@) && url_path_of(s@) == Some(hp.1@),
            None => url_domain_of(s@) is None,
        },
{
    let u = match url::Url::parse(s) {
        Ok(u) => u,
        Err(_) => return None,
    };
    let host = match u.host() {
        Some(url::Host::Domain(d)) => d.to_string(),
        _ => return None,
    };
    Some((host, u.path().to_string()))
}

/// The first segment of a URL path: what stands between the leading
/// slash and the next one (or the end). A path without a leading slash
/// has no such segment.
pub open spec fn spec_first_segment(path: Seq<char>) -> Option<Seq<char>> {
    if path.len() == 0 || path[0] != '/' {
        None
    } else {
        let rest = path.skip(1);
        match first_index(rest, '/') {
            Some(j) => Some(rest.take(j)),
            None => Some(rest),
        }
    }
}

/// Reads the first path segment, exactly as `spec_first_segment` says.
pub fn first_path_segment(path: &str) -> (r: Option<String>)
    ensures
        match r {
            Some(s) => spec_first_segment(path@) == Some(s@),
            None => spec_first_segment(path@) is None,
        },
{
    let len = path.unicode_len();
    if len == 0 {
        return None;
    }
    if path.get_char(0) != '/' {
        return None;
    }
    let rest = path.substring_char(1, len);
    proof {
        assert(rest@ =~= path@.skip(1));
    }
    match find_char(rest, '/', 0) {
        Some(j) => {
            proof {
                crate::timer::lemma_first_index_at(rest@, '/', j as int);
            }
            Some(rest.substring_char(0, j).to_owned())
        },
        None => {
            proof {
                crate::timer::lemma_first_index_none(rest@, '/');
            }
            Some(rest.to_owned())
        },
    }
}

/// Parses one input line: a link, then optionally a desired quality
/// label after a space. The link must parse as a URL whose host is a
/// domain name — an IP-literal host is rejected — and the video id is
/// the first segment of the link's path. The session carries the quality
/// label exactly when the line has a second field.
pub fn parse_video(input: &str) -> (r: Result<Video, DownloadError>)
    ensures
        ({
            let (link, quality) = spec_fields2(input@, ' ');
            match r {
                Ok(v) => {
                    &&& v.quality_index == 0
                    &&& v.time_range is None
                    &&& match quality {
                        Some(q) => v.desired_quality matches Some(s) && s@ == q,
                        None => v.desired_quality is None,
                    }
                    &&& url_domain_of(link) == Some(v.video_host@)
                    &&& (url_path_of(link) matches Some(p) && spec_first_segment(p) == Some(
                        v.video_id@,
                    ))
                },
                Err(e) => {
                    &&& e == DownloadError::InvalidLink
                    &&& (url_domain_of(link) is None || (url_path_of(link) matches Some(p)
                        && spec_first_segment(p) is None))
                },
            }
        }),
{
    let len = input.unicode_len();
    let first_sep = find_char(input, ' ', 0);
    let url_text: &str;
    let quality: Option<String>;
    match first_sep {
        None => {
            proof {
                crate::timer::lemma_first_index_none(input@, ' ');
            }
            url_text = input;
            quality = None;
        },
        Some(i) => {
            proof {
                crate::timer::lemma_first_index_at(input@, ' ', i as int);
            }
            url_text = input.substring_char(0, i);
            let rest = input.substring_char(i + 1, len);
            proof {
                assert(rest@ =~= input@.skip(i as int + 1));
            }
            match find_char(rest, ' ', 0) {
                None => {
                    proof {
                        crate::timer::lemma_first_index_none(rest@, ' ');
                    }
                    quality = Some(rest.to_owned());
                },
                Some(j) => {
                    proof {
                        crate::timer::lemma_first_index_at(rest@, ' ', j as int);
                    }
                    quality = Some(rest.substring_char(0, j).to_owned());
                },
            }
        },
    }
    let (video_host, path) = match url_parts(url_text) {
        Some(hp) => hp,
        None => {
            return Err(DownloadError::InvalidLink);
        },
    };
    let video_id = match first_path_segment(path.as_str()) {
        Some(s) => s,
        None => {
            return Err(DownloadError::InvalidLink);
        },
    };
    Ok(Video::new(video_id, video_host, quality))
}

} // verus!

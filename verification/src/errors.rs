use vstd::prelude::*;

verus! {

/// Everything that can go wrong during one video session.
#[derive(Clone, Copy, Debug, PartialEq, Eq, Structural)]
pub enum DownloadError {
    /// An HTTP request returned a status other than 200.
    BadStatus,
    /// The embed page does not hold the expected quoted payload.
    MetadataNotFound,
    /// The embed payload could not be decoded into metadata.
    InvalidMetadata,
    /// A manifest blob failed a structural decode or split step.
    MalformedManifest,
    /// The authenticated decryption of a manifest rejected its tag.
    AuthenticationFailed,
    /// The rendition manifest lacks a usable key line or IV.
    KeyMaterialMissing,
    /// The desired quality label is absent from the quality list.
    QualityUnavailable,
    /// A quality index points past the end of the master manifest.
    IndexOutOfRange,
    /// The sanitized output file already exists; a clean early exit.
    AlreadyDownloaded,
    /// The scheduling window closed before or during the download.
    TimerExpired,
    /// The external converter reported failure.
    ConverterFailed,
    /// A file could not be read, written or removed.
    FilesystemError,
    /// A segment body could not be block-decrypted or unpadded.
    SegmentDecryptFailed,
    /// A scheduling window string is not `HH:MM:SS-HH:MM:SS`.
    InvalidTimer,
    /// An input line does not parse as a video link.
    InvalidLink,
}

impl DownloadError {
    /// A short description, one line, for reporting at the process edge.
    pub fn message(&self) -> (r: &'static str)
        ensures r@.len() > 0,
    {
        let r = match self {
            DownloadError::BadStatus => "endpoint returned a non-200 status",
            DownloadError::MetadataNotFound => "cannot extract embed data",
            DownloadError::InvalidMetadata => "embed metadata cannot be decoded",
            DownloadError::MalformedManifest => "manifest blob is malformed",
            DownloadError::AuthenticationFailed => "manifest decryption error",
            DownloadError::KeyMaterialMissing => "cannot find stream key or iv",
            DownloadError::QualityUnavailable => "specified quality is unavailable",
            DownloadError::IndexOutOfRange => "quality index is out of range",
            DownloadError::AlreadyDownloaded => "video already downloaded",
            DownloadError::TimerExpired => "timer went out of range",
            DownloadError::ConverterFailed => "converter reported failure",
            DownloadError::FilesystemError => "file could not be accessed",
            DownloadError::SegmentDecryptFailed => "segment decryption error",
            DownloadError::InvalidTimer => "not a valid timer",
            DownloadError::InvalidLink => "not a valid link",
        };
        proof {
            reveal_strlit("endpoint returned a non-200 status");
            reveal_strlit("cannot extract embed data");
            reveal_strlit("embed metadata cannot be decoded");
            reveal_strlit("manifest blob is malformed");
            reveal_strlit("manifest decryption error");
            reveal_strlit("cannot find stream key or iv");
            reveal_strlit("specified quality is unavailable");
            reveal_strlit("quality index is out of range");
            reveal_strlit("video already downloaded");
            reveal_strlit("timer went out of range");
            reveal_strlit("converter reported failure");
            reveal_strlit("file could not be accessed");
            reveal_strlit("segment decryption error");
            reveal_strlit("not a valid timer");
            reveal_strlit("not a valid link");
        }
        r
    }
}

} // verus!

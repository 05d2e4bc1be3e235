//! Download progress and the HTTP client the launcher's requests go through.

use vstd::prelude::*;
use crate::text::{split_char, split_on, str_eq};

verus! {

/// reqwest's asynchronous HTTP client. The library only carries it to the code that
/// sends requests; nothing is stated of what is inside.
#[verifier::external_type_specification]
#[verifier::external_body]
pub struct ExHttpClient(reqwest::Client);

/// The `User-Agent` the launcher's HTTP client sends.
pub const USER_AGENT: &'static str = "GLauncher/1.0.0 (Linux; +https://github.com/Dacraezy1/GLauncher)";

/// The seconds after which a request is given up.
pub const REQUEST_TIMEOUT_SECS: u64 = 60;

/// How far a file download has come.
pub struct DownloadProgress {
    pub downloaded: u64,
    pub total: u64,
    pub filename: String,
}

impl DownloadProgress {
    /// The progress of a download of `total` bytes (0 when unknown) into `filename`,
    /// before any byte has arrived.
    pub fn start(total: u64, filename: String) -> (r: Self)
        ensures
            r.downloaded == 0,
            r.total == total,
            r.filename == filename,
    {
        DownloadProgress { downloaded: 0, total, filename }
    }

    /// Counts a chunk of `len` more bytes.
    pub fn record_chunk(&mut self, len: u64)
        requires
            old(self).downloaded + len <= u64::MAX,
        ensures
            final(self).downloaded == old(self).downloaded + len,
            final(self).total == old(self).total,
            final(self).filename == old(self).filename,
    {
        self.downloaded = self.downloaded + len;
    }
}

/// The last path segment that names something: not empty and not `.`.
pub open spec fn last_named_segment(segs: Seq<Seq<char>>) -> Option<Seq<char>>
    decreases segs.len(),
{
    if segs.len() == 0 {
        None
    } else if segs.last() == ""@ || segs.last() == "."@ {
        last_named_segment(segs.drop_last())
    } else {
        Some(segs.last())
    }
}

/// The name a download's progress reports for a destination path: its final component
/// (trailing `/` and `.` components aside), or `unknown` when it has none or it is `..`.
pub open spec fn progress_name(dest: Seq<char>) -> Seq<char> {
    match last_named_segment(split_on(dest, '/')) {
        Some(n) => if n == ".."@ { "unknown"@ } else { n },
        None => "unknown"@,
    }
}

/// The name a download's progress reports for the destination path `dest`.
pub fn progress_file_name(dest: &str) -> (r: String)
    ensures
        r@ == progress_name(dest@),
{
    proof {
        reveal_strlit("");
        reveal_strlit(".");
        reveal_strlit("..");
        reveal_strlit("unknown");
    }
    let segs = split_char(dest, '/');
    let ghost all = segs.deep_view();
    let mut i: usize = segs.len();
    assert(all.take(i as int) =~= all);
    while i > 0
        invariant
            i <= segs@.len(),
            all.len() == segs@.len(),
            all == segs.deep_view(),
            all == split_on(dest@, '/'),
            last_named_segment(all.take(i as int)) == last_named_segment(all),
        decreases i,
    {
        let s = segs[i - 1].as_str();
        assert(all.take(i as int).last() == s@);
        assert(all.take(i as int).drop_last() =~= all.take(i - 1));
        if !str_eq(s, "") && !str_eq(s, ".") {
            if str_eq(s, "..") {
                return "unknown".to_string();
            }
            return s.to_string();
        }
        i = i - 1;
    }
    "unknown".to_string()
}

} // verus!

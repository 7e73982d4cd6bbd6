//! Per-item decisions of an attachment download.
//!
//! The network and filesystem work itself is performed by the hosting
//! application; this module fixes every decision around it: where the
//! bytes go, which discovered URLs may carry credentials, how a response
//! status is classified, and when a stream must abort on a short write.

use vstd::prelude::*;

use crate::error::ErrorBody;
use crate::error::SyncError;
use crate::error::json_parses;
use crate::error::parse_json_body;
use vstd::string::StrSliceExecFns;
use vstd::string::StringExecFns;

verus! {

/// Fixed size of one streamed chunk, in bytes.
pub const DOWNLOAD_CHUNK_SIZE: usize = 4096;

/// Fixed request timeout of the transport client, in seconds.
pub const DOWNLOAD_TIMEOUT_SECS: u64 = 30;

/// The local destination of one attachment, derived deterministically from
/// the owning user and the item; recomputed each attempt, never persisted.
pub struct FileDestination {
    pub user_id: String,
    pub note_id: String,
}

/// Whether a discovered URL still targets the home service endpoint: it
/// is the endpoint itself, or the endpoint followed directly by a path or
/// a query. A URL that merely mentions the endpoint elsewhere (say, in a
/// query parameter of a foreign host) does not target home.
pub open spec fn targets_home(url: Seq<char>, home: Seq<char>) -> bool {
    &&& url.len() >= home.len()
    &&& url.subrange(0, home.len() as int) == home
    &&& (url.len() == home.len() || url[home.len() as int] == '/' || url[home.len() as int] == '?')
}

/// Whether `p`'s characters stand at the start of `s`.
fn prefix_matches(s: &str, p: &str) -> (r: bool)
    requires
        p@.len() <= s@.len(),
    ensures
        r == (s@.subrange(0, p@.len() as int) == p@),
{
    let pl = p.unicode_len();
    let mut j: usize = 0;
    while j < pl
        invariant
            j <= pl,
            pl == p@.len(),
            pl <= s@.len(),
            forall|k: int| 0 <= k < j ==> s@[k] == p@[k],
        decreases pl - j,
    {
        let sc = s.get_char(j);
        let pc = p.get_char(j);
        if sc != pc {
            proof {
                assert(s@.subrange(0, pl as int)[j as int] == s@[j as int]);
            }
            return false;
        }
        j += 1;
    }
    proof {
        assert(s@.subrange(0, pl as int) =~= p@);
    }
    true
}

/// Whether `url` targets the home endpoint `home`.
pub fn url_targets_home(url: &str, home: &str) -> (r: bool)
    ensures
        r == targets_home(url@, home@),
{
    let ul = url.unicode_len();
    let hl = home.unicode_len();
    if ul < hl {
        return false;
    }
    if !prefix_matches(url, home) {
        return false;
    }
    if ul == hl {
        return true;
    }
    let c = url.get_char(hl);
    c == '/' || c == '?'
}

/// The metadata path an attachment's download URL is discovered at.
pub fn attachment_url_path(note_id: &String) -> (p: String)
    ensures
        p@ == "/notes/"@ + note_id@ + "/attachment"@,
{
    let mut p = String::new();
    p.append("/notes/");
    p.append(note_id.as_str());
    p.append("/attachment");
    proof {
        assert(p@ =~= "/notes/"@ + note_id@ + "/attachment"@);
    }
    p
}

/// The outgoing request for a discovered download URL: credentials are
/// attached exactly when the URL still targets the home service endpoint,
/// never leaking them to third-party hosts.
pub struct DownloadRequest {
    pub url: String,
    pub attach_auth: bool,
}

/// Decides how the discovered URL is fetched: same authentication as the
/// metadata call when the URL still targets the home endpoint (the
/// endpoint itself, or the endpoint followed by a path or query), none
/// otherwise — a foreign host that only mentions the endpoint, for
/// instance inside a query parameter, gets no credentials.
pub fn build_download_request(file_url: String, home_endpoint: &str) -> (r: DownloadRequest)
    ensures
        r.url == file_url,
        r.attach_auth == targets_home(file_url@, home_endpoint@),
{
    let attach_auth = url_targets_home(file_url.as_str(), home_endpoint);
    DownloadRequest { url: file_url, attach_auth }
}

/// Classifies a response: any status of 400 or above is an application
/// level rejection carrying the parsed body when it is JSON, the raw text
/// otherwise; anything below 400 proceeds.
pub fn classify_response(status: u16, body: String) -> (r: Result<(), SyncError>)
    ensures
        r is Ok <==> status < 400,
        status >= 400 ==> (r matches Err(SyncError::RemoteRejection { status: st, body: b })
            && st == status && ((b is Structured) <==> json_parses(body@)) && (b matches
        ErrorBody::Raw(t) ==> t@ == body@)),
{
    if status < 400 {
        Ok(())
    } else {
        match parse_json_body(&body) {
            Some(v) => Err(SyncError::RemoteRejection { status, body: ErrorBody::Structured(v) }),
            None => Err(SyncError::RemoteRejection { status, body: ErrorBody::Raw(body) }),
        }
    }
}

/// Where a streaming transfer stands.
#[derive(Clone, Copy, PartialEq, Eq, Structural, Debug)]
pub enum TransferPhase {
    /// Chunks are still being streamed.
    Streaming,
    /// A short write was detected; no further chunk may be applied.
    Aborted,
    /// The stream ended and every chunk was written in full.
    Complete,
}

/// The integrity state machine of one streaming transfer: after every
/// chunk the bytes written must equal the bytes read, and a short write
/// aborts the transfer before any further bytes are written.
pub struct Transfer {
    phase: TransferPhase,
}

impl Transfer {
    /// Where this transfer stands.
    pub closed spec fn phase(&self) -> TransferPhase {
        self.phase
    }

    /// A transfer that is about to stream its first chunk.
    pub fn begin() -> (t: Transfer)
        ensures
            t.phase() == TransferPhase::Streaming,
    {
        Transfer { phase: TransferPhase::Streaming }
    }

    /// Accounts for one chunk: `read` bytes came in, `written` were
    /// persisted. A mismatch is a fatal integrity error carrying both
    /// counts, and leaves the transfer aborted.
    pub fn apply_chunk(&mut self, read: usize, written: usize) -> (r: Result<(), SyncError>)
        requires
            old(self).phase() == TransferPhase::Streaming,
        ensures
            read == written ==> r is Ok && final(self).phase() == TransferPhase::Streaming,
            read != written ==> (r matches Err(SyncError::Integrity { read: rd, written: wr })
                && rd == read && wr == written) && final(self).phase() == TransferPhase::Aborted,
    {
        if read == written {
            Ok(())
        } else {
            self.phase = TransferPhase::Aborted;
            Err(SyncError::Integrity { read, written })
        }
    }

    /// Marks the end of the stream: every chunk was written in full.
    pub fn finish(&mut self)
        requires
            old(self).phase() == TransferPhase::Streaming,
        ensures
            final(self).phase() == TransferPhase::Complete,
    {
        self.phase = TransferPhase::Complete;
    }

    /// Whether further chunks may be applied.
    pub fn is_streaming(&self) -> (b: bool)
        ensures
            b == (self.phase() == TransferPhase::Streaming),
    {
        match self.phase {
            TransferPhase::Streaming => true,
            TransferPhase::Aborted => false,
            TransferPhase::Complete => false,
        }
    }
}

} // verus!

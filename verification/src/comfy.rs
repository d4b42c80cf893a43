//! The ComfyUI client's decisions.
//!
//! The machine running the studio needs no GPU: between the control plane
//! and the inference side there is only HTTP (health check, upload, submit,
//! poll `/history/{prompt_id}`, download). The requests themselves are made
//! around this module; here is what is sent where, what a reply means, and
//! what to do next.
//!
//! There is one entry URL. Spreading work over nodes and failing over is the
//! business of the proxy behind it; the control plane keeps no node list.
use vstd::prelude::*;
use vstd::string::StringSliceAdditionalSpecFns;
use vstd::utf8::encode_utf8;
use crate::error::StudioError;
use crate::json::{lookup, Json, Number};
use crate::text::{dec_nat, push_u64, seq_contains, str_contains, str_eq};

verus! {

broadcast use vstd::string::group_string_axioms;

// ---------------------------------------------------------------------------
// Percent-encoding of query values.

/// The bytes that stand for themselves: `A-Z a-z 0-9 - _ . ~`.
pub open spec fn is_unreserved(b: u8) -> bool {
    (65 <= b <= 90) || (97 <= b <= 122) || (48 <= b <= 57) || b == 45 || b == 95 || b == 46 || b
        == 126
}

/// An upper-case hexadecimal digit.
pub open spec fn hex_digit(d: u8) -> char {
    if d < 10 {
        (48 + d) as char
    } else {
        (55 + d) as char
    }
}

/// One byte of the encoding: itself, or `%XX`.
pub open spec fn encoded_byte(b: u8) -> Seq<char> {
    if is_unreserved(b) {
        seq![b as char]
    } else {
        seq!['%', hex_digit(b / 16), hex_digit(b % 16)]
    }
}

/// The percent-encoding of a byte string.
pub open spec fn url_encoded(bytes: Seq<u8>) -> Seq<char>
    decreases bytes.len(),
{
    if bytes.len() == 0 {
        Seq::empty()
    } else {
        url_encoded(bytes.drop_last()) + encoded_byte(bytes.last())
    }
}

/// A percent-encoding is plain ASCII: unreserved bytes, `%` and upper-case
/// hexadecimal digits only.
pub proof fn lemma_url_encoded_is_ascii(bytes: Seq<u8>)
    ensures
        forall|k: int| 0 <= k < url_encoded(bytes).len() ==> ((#[trigger] url_encoded(bytes)[k]) as u32) < 128,
    decreases bytes.len(),
{
    if bytes.len() > 0 {
        lemma_url_encoded_is_ascii(bytes.drop_last());
        let rest = url_encoded(bytes.drop_last());
        let e = encoded_byte(bytes.last());
        let b = bytes.last();
        assert(b / 16 < 16 && b % 16 < 16);
        assert forall|k: int| 0 <= k < e.len() implies ((#[trigger] e[k]) as u32) < 128 by {}
        assert forall|k: int| 0 <= k < (rest + e).len() implies ((#[trigger] (rest + e)[k]) as u32) < 128 by {
            if k < rest.len() {
                assert((rest + e)[k] == rest[k]);
            } else {
                assert((rest + e)[k] == e[k - rest.len()]);
            }
        }
    }
}

fn unreserved_str(b: u8) -> (r: &'static str)
    requires
        is_unreserved(b),
    ensures
        r@ == seq![b as char],
{
    proof {
        reveal_strlit("A");
        reveal_strlit("B");
        reveal_strlit("C");
        reveal_strlit("D");
        reveal_strlit("E");
        reveal_strlit("F");
        reveal_strlit("G");
        reveal_strlit("H");
        reveal_strlit("I");
        reveal_strlit("J");
        reveal_strlit("K");
        reveal_strlit("L");
        reveal_strlit("M");
        reveal_strlit("N");
        reveal_strlit("O");
        reveal_strlit("P");
        reveal_strlit("Q");
        reveal_strlit("R");
        reveal_strlit("S");
        reveal_strlit("T");
        reveal_strlit("U");
        reveal_strlit("V");
        reveal_strlit("W");
        reveal_strlit("X");
        reveal_strlit("Y");
        reveal_strlit("Z");
        reveal_strlit("a");
        reveal_strlit("b");
        reveal_strlit("c");
        reveal_strlit("d");
        reveal_strlit("e");
        reveal_strlit("f");
        reveal_strlit("g");
        reveal_strlit("h");
        reveal_strlit("i");
        reveal_strlit("j");
        reveal_strlit("k");
        reveal_strlit("l");
        reveal_strlit("m");
        reveal_strlit("n");
        reveal_strlit("o");
        reveal_strlit("p");
        reveal_strlit("q");
        reveal_strlit("r");
        reveal_strlit("s");
        reveal_strlit("t");
        reveal_strlit("u");
        reveal_strlit("v");
        reveal_strlit("w");
        reveal_strlit("x");
        reveal_strlit("y");
        reveal_strlit("z");
        reveal_strlit("0");
        reveal_strlit("1");
        reveal_strlit("2");
        reveal_strlit("3");
        reveal_strlit("4");
        reveal_strlit("5");
        reveal_strlit("6");
        reveal_strlit("7");
        reveal_strlit("8");
        reveal_strlit("9");
        reveal_strlit("-");
        reveal_strlit("_");
        reveal_strlit(".");
        reveal_strlit("~");
    }
    match b {
        65 => "A",
        66 => "B",
        67 => "C",
        68 => "D",
        69 => "E",
        70 => "F",
        71 => "G",
        72 => "H",
        73 => "I",
        74 => "J",
        75 => "K",
        76 => "L",
        77 => "M",
        78 => "N",
        79 => "O",
        80 => "P",
        81 => "Q",
        82 => "R",
        83 => "S",
        84 => "T",
        85 => "U",
        86 => "V",
        87 => "W",
        88 => "X",
        89 => "Y",
        90 => "Z",
        97 => "a",
        98 => "b",
        99 => "c",
        100 => "d",
        101 => "e",
        102 => "f",
        103 => "g",
        104 => "h",
        105 => "i",
        106 => "j",
        107 => "k",
        108 => "l",
        109 => "m",
        110 => "n",
        111 => "o",
        112 => "p",
        113 => "q",
        114 => "r",
        115 => "s",
        116 => "t",
        117 => "u",
        118 => "v",
        119 => "w",
        120 => "x",
        121 => "y",
        122 => "z",
        48 => "0",
        49 => "1",
        50 => "2",
        51 => "3",
        52 => "4",
        53 => "5",
        54 => "6",
        55 => "7",
        56 => "8",
        57 => "9",
        45 => "-",
        95 => "_",
        46 => ".",
        126 => "~",
        _ => "~",
    }
}

fn hex_str(d: u8) -> (r: &'static str)
    requires
        d < 16,
    ensures
        r@ == seq![hex_digit(d)],
{
    proof {
        reveal_strlit("0");
        reveal_strlit("1");
        reveal_strlit("2");
        reveal_strlit("3");
        reveal_strlit("4");
        reveal_strlit("5");
        reveal_strlit("6");
        reveal_strlit("7");
        reveal_strlit("8");
        reveal_strlit("9");
        reveal_strlit("A");
        reveal_strlit("B");
        reveal_strlit("C");
        reveal_strlit("D");
        reveal_strlit("E");
        reveal_strlit("F");
    }
    match d {
        0 => "0",
        1 => "1",
        2 => "2",
        3 => "3",
        4 => "4",
        5 => "5",
        6 => "6",
        7 => "7",
        8 => "8",
        9 => "9",
        10 => "A",
        11 => "B",
        12 => "C",
        13 => "D",
        14 => "E",
        15 => "F",
        _ => "F",
    }
}

/// Percent-encodes a query value, byte by byte over its UTF-8 encoding.
pub fn urlencode(s: &str) -> (r: String)
    ensures
        r@ == url_encoded(encode_utf8(s@)),
{
    let bytes = s.as_bytes();
    let mut out = String::new();
    let mut i: usize = 0;
    while i < bytes.len()
        invariant
            bytes@ == s.spec_bytes(),
            i <= bytes@.len(),
            out@ == url_encoded(bytes@.subrange(0, i as int)),
        decreases bytes.len() - i,
    {
        let b = bytes[i];
        assert(bytes@.subrange(0, i + 1).drop_last() =~= bytes@.subrange(0, i as int));
        if (65 <= b && b <= 90) || (97 <= b && b <= 122) || (48 <= b && b <= 57) || b == 45 || b
            == 95 || b == 46 || b == 126 {
            out.append(unreserved_str(b));
        } else {
            proof {
                reveal_strlit("%");
            }
            out.append("%");
            out.append(hex_str(b / 16));
            out.append(hex_str(b % 16));
        }
        i = i + 1;
        assert(out@ =~= url_encoded(bytes@.subrange(0, i as int)));
    }
    assert(bytes@.subrange(0, bytes@.len() as int) =~= bytes@);
    out
}


// ---------------------------------------------------------------------------
// Timeouts and retries.

/// At most this many polls in a row may fail to reach the node before the
/// wait gives up: one isolated connection timeout must not fail a render that
/// is running fine. The total `timeout` stays the upper bound.
pub const MAX_CONSECUTIVE_UNREACHABLE: u32 = 5;

/// Read timeout of the control calls (`/prompt`, `/history`, `/queue`,
/// `/object_info`): small JSON documents.
pub const CONTROL_READ_TIMEOUT_SECS: u64 = 30;

/// Read timeout of bulk transfers (uploading a reference, downloading a
/// product). It cannot be shared with the control calls: a multi-megabyte
/// upload and a JSON request of a few hundred bytes take times of different
/// orders, and an upload that times out leaves every derived view reporting
/// that its reference "has not been generated yet".
pub const BULK_READ_TIMEOUT_SECS: u64 = 300;

/// Connect timeout of every request.
pub const CONNECT_TIMEOUT_SECS: u64 = 3;

/// The pauses after a failed submission; its length is the number of attempts.
pub const SUBMIT_RETRY_BACKOFF_SECS: [u64; 3] = [2, 4, 8];

// ---------------------------------------------------------------------------
// What the client talks about.

/// The health of the entry point.
#[derive(Debug, Clone, PartialEq)]
pub struct NodeHealth {
    pub url: String,
    pub reachable: bool,
    /// Jobs in the queue (running and pending).
    pub queue_depth: usize,
    pub detail: Option<String>,
}

/// One submission.
#[derive(Debug, Clone, PartialEq)]
pub struct Submission {
    pub node: String,
    pub prompt_id: String,
}

/// Where a product lies on the ComfyUI side. `file_type` is the `type` of
/// the history record.
#[derive(Debug, Clone, PartialEq)]
pub struct RemoteFile {
    pub filename: String,
    pub subfolder: String,
    pub file_type: String,
}

/// A remote file as plain values: filename, subfolder, type.
pub type RemoteFileView = (Seq<char>, Seq<char>, Seq<char>);

impl View for RemoteFile {
    type V = RemoteFileView;

    open spec fn view(&self) -> RemoteFileView {
        (self.filename@, self.subfolder@, self.file_type@)
    }
}

pub open spec fn file_views(v: Seq<RemoteFile>) -> Seq<RemoteFileView> {
    v.map_values(|f: RemoteFile| f@)
}

/// Whether a failure is worth retrying with a backoff.
///
/// The proxy documents `503` as a passing infrastructure condition, to be
/// retried with exponential backoff; `400` / `401` / `404` mean the request
/// itself is wrong and retrying it as it is cannot help. Mixing the two
/// dresses up a request that must fail as "cannot reach the node".
#[derive(Debug, Clone, PartialEq, Eq)]
pub enum Failure {
    /// Backing off and retrying still makes sense: `503`, a connection hiccup.
    Retryable(String),
    /// Retrying cannot help: the request, the credentials or the path are wrong.
    Fatal(String),
}

impl Failure {
    pub open spec fn detail_text(self) -> Seq<char> {
        match self {
            Failure::Retryable(d) => d@,
            Failure::Fatal(d) => d@,
        }
    }

    pub fn detail(&self) -> (r: &str)
        ensures
            r@ == self.detail_text(),
    {
        match self {
            Failure::Retryable(d) => d.as_str(),
            Failure::Fatal(d) => d.as_str(),
        }
    }

    /// The proxy reports that there is no healthy node at all, rather than
    /// that every node is busy. Both are retried; they differ in what is
    /// reported once the retries run out.
    pub fn is_no_healthy_node(&self) -> (r: bool)
        ensures
            r == seq_contains(self.detail_text(), "no healthy node"@),
    {
        str_contains(self.detail(), "no healthy node")
    }
}

/// Whether an HTTP status means that the request itself is wrong.
pub open spec fn is_fatal_status(code: u16) -> bool {
    code == 400 || code == 401 || code == 403 || code == 404
}

/// `HTTP {code}：{reason}` when the proxy wrote a reason, else `HTTP {code}`.
pub open spec fn status_reason(code: u16, reason: Option<Seq<char>>) -> Seq<char> {
    match reason {
        Some(r) => "HTTP "@ + dec_nat(code as nat) + "："@ + r,
        None => "HTTP "@ + dec_nat(code as nat),
    }
}

/// `v["key"].as_str()`.
pub open spec fn str_at(v: Json, key: Seq<char>) -> Option<Seq<char>> {
    match v.field(key) {
        Some(x) => x.str_of(),
        None => None,
    }
}

/// Classifies an HTTP error status, reading the reason that the proxy writes
/// as `{"error": "<reason>"}` into its body (`body` is the body as JSON, when
/// it is JSON). Statuses that are not listed count as retryable: the safe
/// side is one more attempt, not giving up on a request that could succeed.
pub fn classify_status(code: u16, body: Option<&Json>) -> (r: Failure)
    ensures
        is_fatal_status(code) ==> r == Failure::Fatal(r->Fatal_0),
        !is_fatal_status(code) ==> r == Failure::Retryable(r->Retryable_0),
        r.detail_text() == status_reason(
            code,
            match body {
                Some(v) => str_at(*v, "error"@),
                None => None,
            },
        ),
{
    let mut reason = String::from_str("HTTP ");
    push_u64(&mut reason, code as u64);
    match body {
        Some(v) => match v.get_str("error") {
            Some(e) => {
                reason.append("：");
                reason.append(e);
            },
            None => {},
        },
        None => {},
    }
    if code == 400 || code == 401 || code == 403 || code == 404 {
        Failure::Fatal(reason)
    } else {
        Failure::Retryable(reason)
    }
}

/// A failure below HTTP (connect, DNS, reset, timeout): always retryable.
/// `detail` is the transport error as text.
pub fn transport_failure(detail: &str) -> (r: Failure)
    ensures
        r matches Failure::Retryable(d) && d@ == "连接失败："@ + detail@,
{
    let mut d = String::from_str("连接失败：");
    d.append(detail);
    Failure::Retryable(d)
}

/// What came back from one request.
pub enum Reply {
    /// The request succeeded and its body is JSON: the document, and the
    /// document written back compactly (what `{}` shows of it).
    Json(Json, String),
    /// The request succeeded but the body is not JSON: the parser's words.
    NotJson(String),
    /// The request failed.
    Failed(Failure),
}

// ---------------------------------------------------------------------------
// The client.

/// How many `/` end the text.
pub open spec fn trailing_slashes(s: Seq<char>) -> nat
    decreases s.len(),
{
    if s.len() > 0 && s.last() == '/' {
        1 + trailing_slashes(s.drop_last())
    } else {
        0
    }
}

/// `s.trim_end_matches('/')`.
pub open spec fn trim_end_slashes(s: Seq<char>) -> Seq<char> {
    s.subrange(0, s.len() - trailing_slashes(s))
}

proof fn lemma_trailing_slashes_bound(s: Seq<char>)
    ensures
        trailing_slashes(s) <= s.len(),
        forall|k: int|
            s.len() - trailing_slashes(s) <= k < s.len() ==> #[trigger] s[k] == '/',
        trailing_slashes(s) < s.len() ==> s[s.len() - trailing_slashes(s) - 1] != '/',
    decreases s.len(),
{
    if s.len() > 0 && s.last() == '/' {
        lemma_trailing_slashes_bound(s.drop_last());
        assert forall|k: int| s.len() - trailing_slashes(s) <= k < s.len() implies #[trigger] s[k]
            == '/' by {
            if k < s.len() - 1 {
                assert(s.drop_last()[k] == s[k]);
            }
        }
        if trailing_slashes(s) < s.len() {
            assert(s.drop_last()[s.len() - trailing_slashes(s) - 1] == s[s.len() - trailing_slashes(s)
                - 1]);
        }
    }
}

fn trim_end_slashes_str(s: &str) -> (r: &str)
    ensures
        r@ == trim_end_slashes(s@),
{
    let n = s.unicode_len();
    let mut k: usize = n;
    proof {
        lemma_trailing_slashes_bound(s@);
    }
    while k > 0 && s.get_char(k - 1) == '/'
        invariant
            n == s@.len(),
            k <= n,
            forall|j: int| k <= j < n ==> #[trigger] s@[j] == '/',
            n - trailing_slashes(s@) <= k,
            trailing_slashes(s@) <= n,
            trailing_slashes(s@) < n ==> s@[n - trailing_slashes(s@) - 1] != '/',
            forall|j: int| n - trailing_slashes(s@) <= j < n ==> #[trigger] s@[j] == '/',
        decreases k,
    {
        k = k - 1;
    }
    s.substring_char(0, k)
}

/// The client of one ComfyUI entry point.
pub struct Comfy {
    node: String,
    /// The proxy's bearer token; `None` when the other side needs none.
    token: Option<String>,
    timeout_secs: u64,
    poll_secs: u64,
}

impl Comfy {
    /// The entry URL, without trailing `/`.
    pub closed spec fn node_text(self) -> Seq<char> {
        self.node@
    }

    pub closed spec fn token_text(self) -> Option<Seq<char>> {
        match self.token {
            Some(t) => Some(t@),
            None => None,
        }
    }

    /// How long one shot may take, in seconds.
    pub closed spec fn timeout(self) -> u64 {
        self.timeout_secs
    }

    /// The pause between two polls, in seconds.
    pub closed spec fn poll(self) -> u64 {
        self.poll_secs
    }

    /// `node` loses its trailing `/`; the timeout is at least one second and
    /// the poll interval lies between one second and a minute.
    pub fn new(node: String, token: Option<String>, timeout_secs: u64, poll_secs: u64) -> (r: Comfy)
        ensures
            r.node_text() == trim_end_slashes(node@),
            r.token_text() == (match token {
                Some(t) => Some(t@),
                None => None::<Seq<char>>,
            }),
            r.timeout() == (if timeout_secs < 1 {
                1
            } else {
                timeout_secs
            }),
            r.poll() == (if poll_secs < 1 {
                1
            } else if poll_secs > 60 {
                60
            } else {
                poll_secs
            }),
    {
        let trimmed = String::from_str(trim_end_slashes_str(node.as_str()));
        Comfy {
            node: trimmed,
            token,
            timeout_secs: if timeout_secs < 1 {
                1
            } else {
                timeout_secs
            },
            poll_secs: if poll_secs < 1 {
                1
            } else if poll_secs > 60 {
                60
            } else {
                poll_secs
            },
        }
    }

    pub fn node(&self) -> (r: &str)
        ensures
            r@ == self.node_text(),
    {
        self.node.as_str()
    }

    pub fn timeout_secs(&self) -> (r: u64)
        ensures
            r == self.timeout(),
    {
        self.timeout_secs
    }

    pub fn poll_secs(&self) -> (r: u64)
        ensures
            r == self.poll(),
    {
        self.poll_secs
    }

    /// The value of the `Authorization` header: `Bearer {token}`, or none at
    /// all when no token is configured (a bare ComfyUI needs no header).
    pub fn authorization(&self) -> (r: Option<String>)
        ensures
            match self.token_text() {
                Some(t) => r matches Some(h) && h@ == "Bearer "@ + t,
                None => r is None,
            },
    {
        match &self.token {
            Some(t) => {
                let mut h = String::from_str("Bearer ");
                h.append(t.as_str());
                Some(h)
            },
            None => None,
        }
    }

    /// The read timeout of a submission.
    ///
    /// A submission is not like the other control calls: behind `/prompt`
    /// the proxy queues the job until a node frees up, for as long as the
    /// caller's HTTP client waits. Half of the shot's timeout goes to that
    /// queue; the clamp to [60, 600] keeps a timeout set too small by
    /// mistake from making every submission fail.
    pub fn submit_timeout(&self) -> (r: u64)
        ensures
            60 <= r <= 600,
            r == (if self.timeout() / 2 < 60 {
                60
            } else if self.timeout() / 2 > 600 {
                600
            } else {
                self.timeout() / 2
            }),
    {
        let half = self.timeout_secs / 2;
        if half < 60 {
            60
        } else if half > 600 {
            600
        } else {
            half
        }
    }

    fn url(&self, tail: &str) -> (r: String)
        ensures
            r@ == self.node_text() + tail@,
    {
        let mut u = self.node.clone();
        u.append(tail);
        u
    }

    /// `{node}/queue`: the health probe.
    pub fn queue_url(&self) -> (r: String)
        ensures
            r@ == self.node_text() + "/queue"@,
    {
        self.url("/queue")
    }

    /// `{node}/prompt`: where a graph is submitted.
    pub fn prompt_url(&self) -> (r: String)
        ensures
            r@ == self.node_text() + "/prompt"@,
    {
        self.url("/prompt")
    }

    /// `{node}/history/{prompt_id}`: the record of one submission.
    pub fn history_url(&self, sub: &Submission) -> (r: String)
        ensures
            r@ == self.node_text() + "/history/"@ + sub.prompt_id@,
    {
        let mut u = self.url("/history/");
        u.append(sub.prompt_id.as_str());
        u
    }

    /// `{node}/upload/image`: where a reference image is uploaded.
    pub fn upload_url(&self) -> (r: String)
        ensures
            r@ == self.node_text() + "/upload/image"@,
    {
        self.url("/upload/image")
    }

    /// `{node}/view?filename=..&subfolder=..&type=..`, each value percent-encoded.
    pub fn view_url(&self, file: &RemoteFile) -> (r: String)
        ensures
            r@ == self.node_text() + "/view?filename="@ + url_encoded(encode_utf8(file.filename@))
                + "&subfolder="@ + url_encoded(encode_utf8(file.subfolder@)) + "&type="@
                + url_encoded(encode_utf8(file.file_type@)),
    {
        let mut u = self.url("/view?filename=");
        u.append(urlencode(file.filename.as_str()).as_str());
        u.append("&subfolder=");
        u.append(urlencode(file.subfolder.as_str()).as_str());
        u.append("&type=");
        u.append(urlencode(file.file_type.as_str()).as_str());
        u
    }
}

// ---------------------------------------------------------------------------
// Health.

/// The length of `v[key]` when it is an array, else 0.
pub open spec fn list_len(v: Json, key: Seq<char>) -> nat {
    match v.field(key) {
        Some(x) => match x.items() {
            Some(a) => a.len(),
            None => 0,
        },
        None => 0,
    }
}

/// Jobs running plus jobs pending, read from a `/queue` reply.
pub open spec fn queue_depth_of(v: Json) -> nat {
    list_len(v, "queue_running"@) + list_len(v, "queue_pending"@)
}

fn list_len_exec(v: &Json, key: &str) -> (r: usize)
    ensures
        r == list_len(*v, key@),
{
    match v.get_array(key) {
        Some(a) => a.len(),
        None => 0,
    }
}

/// The queue depth of a `/queue` reply.
pub fn queue_depth(v: &Json) -> (r: usize)
    requires
        queue_depth_of(*v) <= usize::MAX,
    ensures
        r == queue_depth_of(*v),
{
    list_len_exec(v, "queue_running") + list_len_exec(v, "queue_pending")
}

impl Comfy {
    /// The health of the entry point, from the reply to `GET {node}/queue`.
    /// Being unreachable is not an error, only unavailability.
    pub fn health(&self, reply: Reply) -> (r: NodeHealth)
        requires
            reply matches Reply::Json(v, _) ==> queue_depth_of(v) <= usize::MAX,
        ensures
            r.url@ == self.node_text(),
            match reply {
                Reply::Json(v, _) => r.reachable && r.queue_depth == queue_depth_of(v)
                    && r.detail is None,
                Reply::NotJson(e) => !r.reachable && r.queue_depth == usize::MAX && (r.detail matches Some(
                    d
                ) && d@ == "返回不是 JSON："@ + e@),
                Reply::Failed(f) => !r.reachable && r.queue_depth == usize::MAX && (r.detail matches Some(
                    d
                ) && d@ == f.detail_text()),
            },
    {
        match reply {
            Reply::Json(v, _) => NodeHealth {
                url: self.node.clone(),
                reachable: true,
                queue_depth: queue_depth(&v),
                detail: None,
            },
            Reply::NotJson(e) => {
                let mut d = String::from_str("返回不是 JSON：");
                d.append(e.as_str());
                NodeHealth {
                    url: self.node.clone(),
                    reachable: false,
                    queue_depth: usize::MAX,
                    detail: Some(d),
                }
            },
            Reply::Failed(f) => NodeHealth {
                url: self.node.clone(),
                reachable: false,
                queue_depth: usize::MAX,
                detail: Some(String::from_str(f.detail())),
            },
        }
    }

    /// Confirms that the entry point is alive; when it is not, blocks with a
    /// structured error and does **not** degrade. With one entry there is
    /// nothing to choose: reachable means use it, unreachable means stop.
    pub fn ensure_reachable(&self, health: &NodeHealth) -> (r: Result<(), StudioError>)
        ensures
            health.reachable ==> r is Ok,
            !health.reachable ==> (r matches Err(StudioError::ComfyUnavailable { tried })
                && tried@.len() == 1 && tried@[0]@ == self.node_text()),
    {
        if health.reachable {
            return Ok(());
        }
        let mut tried: Vec<String> = Vec::new();
        tried.push(self.node.clone());
        Err(StudioError::ComfyUnavailable { tried })
    }

    /// `ComfyFailed` on this node.
    pub fn failed(&self, detail: String) -> (r: StudioError)
        ensures
            r matches StudioError::ComfyFailed { node, detail: d } && node@ == self.node_text()
                && d@ == detail@,
    {
        StudioError::ComfyFailed { node: self.node.clone(), detail }
    }
}

// ---------------------------------------------------------------------------
// Submitting.

/// The error that a failed submission ends in: with no healthy node at all
/// the cluster is unavailable (fix the configuration, bring nodes back);
/// otherwise this run failed (retry the stage). Mixing the two sends people
/// to look in the wrong place.
pub open spec fn is_submit_error(node: Seq<char>, f: Failure, e: StudioError) -> bool {
    if seq_contains(f.detail_text(), "no healthy node"@) {
        e matches StudioError::ComfyUnavailable { tried } && tried@.len() == 1 && tried@[0]@
            == node + "（"@ + f.detail_text() + "）"@
    } else {
        e matches StudioError::ComfyFailed { node: n, detail } && n@ == node && detail@
            == f.detail_text()
    }
}

/// What the submission loop does after an attempt.
pub enum SubmitStep {
    /// Sleep this long, then send the same request again.
    Retry { after_secs: u64 },
    /// Stop: the submission, or why there is none.
    Finished(Result<Submission, StudioError>),
}

impl Comfy {
    /// The error a submission that finally failed with `f` reports.
    pub fn submit_error(&self, f: Failure) -> (r: StudioError)
        ensures
            is_submit_error(self.node_text(), f, r),
    {
        if f.is_no_healthy_node() {
            let mut t = self.node.clone();
            t.append("（");
            t.append(f.detail());
            t.append("）");
            let mut tried: Vec<String> = Vec::new();
            tried.push(t);
            return StudioError::ComfyUnavailable { tried };
        }
        StudioError::ComfyFailed { node: self.node.clone(), detail: String::from_str(f.detail()) }
    }

    /// The body of a submission: `{"prompt": graph, "client_id": id}`.
    pub fn submit_body(&self, api_graph: Json, client_id: &str) -> (r: Json)
        ensures
            r.field("prompt"@) == Some(api_graph),
            r.field("client_id"@) matches Some(c) && c.str_of() == Some(client_id@),
            r.is_object(),
    {
        let mut e: Vec<(String, Json)> = Vec::new();
        e.push((String::from_str("prompt"), api_graph));
        e.push((String::from_str("client_id"), Json::Str(String::from_str(client_id))));
        proof {
            reveal_strlit("prompt");
            reveal_strlit("client_id");
            assert(e@[0].0@ == "prompt"@);
            assert(e@[1].0@ == "client_id"@);
            assert(e@.drop_first()[0] == e@[1]);
            assert("prompt"@.len() != "client_id"@.len());
            assert(lookup(e@.drop_first(), "client_id"@) == Some(e@[1].1));
            assert(e@[1].1.str_of() == Some(client_id@));
        }
        Json::Object(e)
    }

    /// What the submission loop does after attempt `attempt` (counted from 0)
    /// got `reply`.
    ///
    /// A retryable failure is retried after the next pause of
    /// [`SUBMIT_RETRY_BACKOFF_SECS`] while attempts remain: the proxy queues
    /// behind a busy cluster, and that is not a failure of the shot. A fatal
    /// failure stops at once: sending the same bad request again gives the
    /// same answer, only later.
    pub fn submit_step(&self, attempt: usize, reply: Reply) -> (r: SubmitStep)
        requires
            attempt < SUBMIT_RETRY_BACKOFF_SECS.len(),
        ensures
            r matches SubmitStep::Retry { after_secs } ==> (reply matches Reply::Failed(
                Failure::Retryable(_),
            ) && attempt + 1 < SUBMIT_RETRY_BACKOFF_SECS.len() && after_secs
                == SUBMIT_RETRY_BACKOFF_SECS[attempt as int]),
            match reply {
                Reply::Failed(f) => if f is Retryable && attempt + 1
                    < SUBMIT_RETRY_BACKOFF_SECS.len() {
                    r is Retry
                } else {
                    r matches SubmitStep::Finished(Err(e)) && is_submit_error(
                        self.node_text(),
                        f,
                        e,
                    )
                },
                Reply::NotJson(e) => r matches SubmitStep::Finished(Err(
                    StudioError::ComfyFailed { node, detail },
                )) && node@ == self.node_text() && detail@ == "提交返回不是 JSON："@ + e@,
                Reply::Json(v, shown) => match str_at(v, "prompt_id"@) {
                    Some(id) => r matches SubmitStep::Finished(Ok(sub)) && sub.node@
                        == self.node_text() && sub.prompt_id@ == id,
                    None => r matches SubmitStep::Finished(Err(
                        StudioError::ComfyFailed { node, detail },
                    )) && node@ == self.node_text() && detail@ == "提交返回里没有 prompt_id："@
                        + shown@,
                },
            },
    {
        match reply {
            Reply::Failed(f) => {
                let retry = match &f {
                    Failure::Retryable(_) => attempt + 1 < SUBMIT_RETRY_BACKOFF_SECS.len(),
                    Failure::Fatal(_) => false,
                };
                if retry {
                    SubmitStep::Retry { after_secs: SUBMIT_RETRY_BACKOFF_SECS[attempt] }
                } else {
                    SubmitStep::Finished(Err(self.submit_error(f)))
                }
            },
            Reply::NotJson(e) => {
                let mut d = String::from_str("提交返回不是 JSON：");
                d.append(e.as_str());
                SubmitStep::Finished(Err(self.failed(d)))
            },
            Reply::Json(v, shown) => match v.get_str("prompt_id") {
                Some(id) => SubmitStep::Finished(
                    Ok(Submission { node: self.node.clone(), prompt_id: String::from_str(id) }),
                ),
                None => {
                    let mut d = String::from_str("提交返回里没有 prompt_id：");
                    d.append(shown.as_str());
                    SubmitStep::Finished(Err(self.failed(d)))
                },
            },
        }
    }
}

// ---------------------------------------------------------------------------
// Reading the products out of a history record.

/// A string field that must be there.
pub open spec fn required_str(x: Option<Json>) -> Option<Seq<char>> {
    match x {
        Some(j) => j.str_of(),
        None => None,
    }
}

/// A string field that falls back to `default` when it is absent.
pub open spec fn defaulted_str(x: Option<Json>, default: Seq<char>) -> Option<Seq<char>> {
    match x {
        Some(j) => j.str_of(),
        None => Some(default),
    }
}

/// A remote file read from a record, the way the derived deserializer reads
/// it: an object with a string `filename`, a string `subfolder` (default
/// empty) and a string `type` (default `output`); or an array of one to
/// three strings in that order. Anything else is no file.
pub open spec fn remote_file_of(item: Json) -> Option<RemoteFileView> {
    match item {
        Json::Object(_) => {
            let f = required_str(item.field("filename"@));
            let s = defaulted_str(item.field("subfolder"@), Seq::empty());
            let t = defaulted_str(item.field("type"@), "output"@);
            if f is Some && s is Some && t is Some {
                Some((f->0, s->0, t->0))
            } else {
                None
            }
        },
        Json::Array(a) => {
            let n = a@.len();
            if n == 0 || n > 3 {
                None
            } else {
                let f = a@[0].str_of();
                let s = if n >= 2 {
                    a@[1].str_of()
                } else {
                    Some(Seq::empty())
                };
                let t = if n >= 3 {
                    a@[2].str_of()
                } else {
                    Some("output"@)
                };
                if f is Some && s is Some && t is Some {
                    Some((f->0, s->0, t->0))
                } else {
                    None
                }
            }
        },
        _ => None,
    }
}

/// The products in one list of files: those whose type is `output`.
pub open spec fn list_products(items: Seq<Json>) -> Seq<RemoteFileView>
    decreases items.len(),
{
    if items.len() == 0 {
        Seq::empty()
    } else {
        let rest = list_products(items.drop_last());
        match remote_file_of(items.last()) {
            Some(f) => if f.2 == "output"@ {
                rest.push(f)
            } else {
                rest
            },
            None => rest,
        }
    }
}

/// The groups under which ComfyUI lists files.
pub open spec fn is_file_group(k: Seq<char>) -> bool {
    k == "images"@ || k == "gifs"@ || k == "videos"@ || k == "audio"@ || k == "files"@
}

/// The products of one node's output, group by group.
pub open spec fn node_products(entries: Seq<(String, Json)>) -> Seq<RemoteFileView>
    decreases entries.len(),
{
    if entries.len() == 0 {
        Seq::empty()
    } else {
        node_products(entries.drop_last()) + (if is_file_group(entries.last().0@) {
            match entries.last().1.items() {
                Some(a) => list_products(a),
                None => Seq::empty(),
            }
        } else {
            Seq::empty()
        })
    }
}

/// The products of every node, node by node.
pub open spec fn output_products(entries: Seq<(String, Json)>) -> Seq<RemoteFileView>
    decreases entries.len(),
{
    if entries.len() == 0 {
        Seq::empty()
    } else {
        output_products(entries.drop_last()) + (match entries.last().1 {
            Json::Object(e) => node_products(e@),
            _ => Seq::empty(),
        })
    }
}

/// The products listed in a record's `outputs`.
pub open spec fn collected(outputs: Json) -> Seq<RemoteFileView> {
    match outputs {
        Json::Object(e) => output_products(e@),
        _ => Seq::empty(),
    }
}

fn string_field(v: &Json, key: &str, default: &str) -> (r: Option<String>)
    ensures
        match r {
            Some(s) => defaulted_str(v.field(key@), default@) == Some(s@),
            None => defaulted_str(v.field(key@), default@) is None,
        },
{
    match v.get(key) {
        Some(x) => match x.as_str() {
            Some(s) => Some(String::from_str(s)),
            None => None,
        },
        None => Some(String::from_str(default)),
    }
}

fn element_str(a: &Vec<Json>, i: usize, default: &str) -> (r: Option<String>)
    ensures
        match r {
            Some(s) => (if i < a@.len() {
                a@[i as int].str_of()
            } else {
                Some(default@)
            }) == Some(s@),
            None => (if i < a@.len() {
                a@[i as int].str_of()
            } else {
                Some(default@)
            }) is None,
        },
{
    if i < a.len() {
        match a[i].as_str() {
            Some(s) => Some(String::from_str(s)),
            None => None,
        }
    } else {
        Some(String::from_str(default))
    }
}

fn remote_file(item: &Json) -> (r: Option<RemoteFile>)
    ensures
        match r {
            Some(f) => remote_file_of(*item) == Some(f@),
            None => remote_file_of(*item) is None,
        },
{
    let (f, s, t) = match item {
        Json::Object(_) => {
            let f = match item.get_str("filename") {
                Some(x) => Some(String::from_str(x)),
                None => None,
            };
            (f, string_field(item, "subfolder", ""), string_field(item, "type", "output"))
        },
        Json::Array(a) => {
            if a.len() == 0 || a.len() > 3 {
                return None;
            }
            (element_str(a, 0, ""), element_str(a, 1, ""), element_str(a, 2, "output"))
        },
        _ => {
            return None;
        },
    };
    proof {
        reveal_strlit("");
    }
    match (f, s, t) {
        (Some(f), Some(s), Some(t)) => Some(RemoteFile { filename: f, subfolder: s, file_type: t }),
        _ => None,
    }
}

fn push_products(items: &Vec<Json>, out: &mut Vec<RemoteFile>)
    ensures
        file_views(final(out)@) == file_views(old(out)@) + list_products(items@),
{
    let ghost start = file_views(out@);
    let mut i: usize = 0;
    while i < items.len()
        invariant
            i <= items@.len(),
            file_views(out@) == start + list_products(items@.subrange(0, i as int)),
        decreases items.len() - i,
    {
        assert(items@.subrange(0, i + 1).drop_last() =~= items@.subrange(0, i as int));
        assert(items@.subrange(0, i + 1).last() == items@[i as int]);
        let ghost before = file_views(out@);
        match remote_file(&items[i]) {
            Some(f) => {
                if str_eq(f.file_type.as_str(), "output") {
                    out.push(f);
                    assert(file_views(out@) =~= before.push(f@));
                }
            },
            None => {},
        }
        i = i + 1;
        assert(file_views(out@) =~= start + list_products(items@.subrange(0, i as int)));
    }
    assert(items@.subrange(0, items@.len() as int) =~= items@);
}

fn is_file_group_exec(k: &str) -> (r: bool)
    ensures
        r == is_file_group(k@),
{
    str_eq(k, "images") || str_eq(k, "gifs") || str_eq(k, "videos") || str_eq(k, "audio")
        || str_eq(k, "files")
}

fn push_node_products(entries: &Vec<(String, Json)>, out: &mut Vec<RemoteFile>)
    ensures
        file_views(final(out)@) == file_views(old(out)@) + node_products(entries@),
{
    let ghost start = file_views(out@);
    let mut i: usize = 0;
    while i < entries.len()
        invariant
            i <= entries@.len(),
            file_views(out@) == start + node_products(entries@.subrange(0, i as int)),
        decreases entries.len() - i,
    {
        assert(entries@.subrange(0, i + 1).drop_last() =~= entries@.subrange(0, i as int));
        assert(entries@.subrange(0, i + 1).last() == entries@[i as int]);
        let ghost before = file_views(out@);
        if is_file_group_exec(entries[i].0.as_str()) {
            match entries[i].1.as_array() {
                Some(a) => {
                    push_products(a, out);
                },
                None => {},
            }
        }
        i = i + 1;
        assert(file_views(out@) =~= start + node_products(entries@.subrange(0, i as int)));
    }
    assert(entries@.subrange(0, entries@.len() as int) =~= entries@);
}

/// Picks the **products** out of a history record's `outputs`.
///
/// Only `type == "output"` counts. Loader nodes echo their own input into
/// `outputs`, and their ids sort before the saving node's; the caller takes
/// the first file, so without this filter a shot with a clip anchor would
/// register the anchor as its render. A file without a `type` counts as
/// output: old records and some nodes leave it out.
pub fn collect_files(outputs: &Json) -> (r: Vec<RemoteFile>)
    ensures
        file_views(r@) == collected(*outputs),
{
    let mut files: Vec<RemoteFile> = Vec::new();
    match outputs {
        Json::Object(entries) => {
            let mut i: usize = 0;
            while i < entries.len()
                invariant
                    i <= entries@.len(),
                    file_views(files@) == output_products(entries@.subrange(0, i as int)),
                decreases entries.len() - i,
            {
                assert(entries@.subrange(0, i + 1).drop_last() =~= entries@.subrange(0, i as int));
                assert(entries@.subrange(0, i + 1).last() == entries@[i as int]);
                match &entries[i].1 {
                    Json::Object(e) => {
                        push_node_products(e, &mut files);
                    },
                    _ => {},
                }
                i = i + 1;
                assert(file_views(files@) =~= output_products(entries@.subrange(0, i as int)));
            }
            assert(entries@.subrange(0, entries@.len() as int) =~= entries@);
        },
        _ => {
            assert(file_views(files@) =~= Seq::<RemoteFileView>::empty());
        },
    }
    files
}

proof fn lemma_list_products_are_outputs(items: Seq<Json>)
    ensures
        forall|k: int| 0 <= k < list_products(items).len() ==> (#[trigger] list_products(items)[k]).2
            == "output"@,
    decreases items.len(),
{
    if items.len() > 0 {
        let rest = list_products(items.drop_last());
        lemma_list_products_are_outputs(items.drop_last());
        assert forall|k: int| 0 <= k < list_products(items).len() implies (#[trigger] list_products(
            items,
        )[k]).2 == "output"@ by {
            if k < rest.len() {
                assert(list_products(items)[k] == rest[k]);
            }
        }
    }
}

proof fn lemma_node_products_are_outputs(entries: Seq<(String, Json)>)
    ensures
        forall|k: int| 0 <= k < node_products(entries).len() ==> (#[trigger] node_products(
            entries,
        )[k]).2 == "output"@,
    decreases entries.len(),
{
    if entries.len() > 0 {
        lemma_node_products_are_outputs(entries.drop_last());
        match entries.last().1.items() {
            Some(a) => lemma_list_products_are_outputs(a),
            None => {},
        }
        let a = node_products(entries.drop_last());
        assert forall|k: int| 0 <= k < node_products(entries).len() implies (#[trigger] node_products(
            entries,
        )[k]).2 == "output"@ by {
            if k >= a.len() {
                match entries.last().1.items() {
                    Some(x) => if is_file_group(entries.last().0@) {
                        assert(node_products(entries)[k] == list_products(x)[k - a.len()]);
                    },
                    None => {},
                }
            } else {
                assert(node_products(entries)[k] == a[k]);
            }
        }
    }
}

proof fn lemma_list_products_has(items: Seq<Json>, k: int, f: RemoteFileView)
    requires
        0 <= k < items.len(),
        remote_file_of(items[k]) == Some(f),
        f.2 == "output"@,
    ensures
        list_products(items).contains(f),
    decreases items.len(),
{
    let rest = list_products(items.drop_last());
    if k < items.len() - 1 {
        assert(items.drop_last()[k] == items[k]);
        lemma_list_products_has(items.drop_last(), k, f);
        let q = choose|q: int| 0 <= q < rest.len() && rest[q] == f;
        assert(list_products(items)[q] == f);
    } else {
        assert(list_products(items) == rest.push(f));
        assert(list_products(items)[rest.len() as int] == f);
    }
}

proof fn lemma_node_products_has(entries: Seq<(String, Json)>, j: int, f: RemoteFileView)
    requires
        0 <= j < entries.len(),
        is_file_group(entries[j].0@),
        entries[j].1.items() matches Some(a) && list_products(a).contains(f),
    ensures
        node_products(entries).contains(f),
    decreases entries.len(),
{
    let rest = node_products(entries.drop_last());
    let last = if is_file_group(entries.last().0@) {
        match entries.last().1.items() {
            Some(a) => list_products(a),
            None => Seq::empty(),
        }
    } else {
        Seq::empty()
    };
    assert(node_products(entries) == rest + last);
    if j < entries.len() - 1 {
        assert(entries.drop_last()[j] == entries[j]);
        lemma_node_products_has(entries.drop_last(), j, f);
        let q = choose|q: int| 0 <= q < rest.len() && rest[q] == f;
        assert((rest + last)[q] == f);
    } else {
        let q = choose|q: int| 0 <= q < last.len() && last[q] == f;
        assert((rest + last)[rest.len() + q] == f);
    }
}

proof fn lemma_output_products_has(entries: Seq<(String, Json)>, i: int, f: RemoteFileView)
    requires
        0 <= i < entries.len(),
        entries[i].1 matches Json::Object(ne) && node_products(ne@).contains(f),
    ensures
        output_products(entries).contains(f),
    decreases entries.len(),
{
    let rest = output_products(entries.drop_last());
    let last = match entries.last().1 {
        Json::Object(e) => node_products(e@),
        _ => Seq::empty(),
    };
    assert(output_products(entries) == rest + last);
    if i < entries.len() - 1 {
        assert(entries.drop_last()[i] == entries[i]);
        lemma_output_products_has(entries.drop_last(), i, f);
        let q = choose|q: int| 0 <= q < rest.len() && rest[q] == f;
        assert((rest + last)[q] == f);
    } else {
        let q = choose|q: int| 0 <= q < last.len() && last[q] == f;
        assert((rest + last)[rest.len() + q] == f);
    }
}

/// Every output file a node reports is collected, under whichever of
/// ComfyUI's groups it is listed: `images`, `gifs` (where VideoHelperSuite's
/// video nodes report their videos), `videos`, `audio` or `files`. Item `k`
/// of group `j` of node `i` is taken when it reads as a file whose type is
/// `output` (or is absent).
pub proof fn lemma_every_output_file_is_collected(
    outputs: Json,
    e: Vec<(String, Json)>,
    i: int,
    ne: Vec<(String, Json)>,
    j: int,
    a: Vec<Json>,
    k: int,
)
    requires
        outputs == Json::Object(e),
        0 <= i < e@.len(),
        e@[i].1 == Json::Object(ne),
        0 <= j < ne@.len(),
        ne@[j].0@ == "images"@ || ne@[j].0@ == "gifs"@ || ne@[j].0@ == "videos"@ || ne@[j].0@
            == "audio"@ || ne@[j].0@ == "files"@,
        ne@[j].1 == Json::Array(a),
        0 <= k < a@.len(),
        remote_file_of(a@[k]) is Some,
        (remote_file_of(a@[k])->0).2 == "output"@,
    ensures
        collected(outputs).contains(remote_file_of(a@[k])->0),
{
    let f = remote_file_of(a@[k])->0;
    lemma_list_products_has(a@, k, f);
    lemma_node_products_has(ne@, j, f);
    lemma_output_products_has(e@, i, f);
}

/// Every file that [`collect_files`] returns is a product: its type is
/// `output`. An input that a loader node echoes back is never one.
pub proof fn lemma_collected_files_are_products(outputs: Json)
    ensures
        forall|k: int| 0 <= k < collected(outputs).len() ==> (#[trigger] collected(outputs)[k]).2
            == "output"@,
{
    match outputs {
        Json::Object(e) => lemma_output_products_are_outputs(e@),
        _ => {},
    }
}

/// None of a node's keys names one of ComfyUI's file groups.
pub open spec fn lists_no_file_group(entries: Seq<(String, Json)>) -> bool {
    forall|j: int|
        0 <= j < entries.len() ==> {
            let k = (#[trigger] entries[j]).0@;
            k != "images"@ && k != "gifs"@ && k != "videos"@ && k != "audio"@ && k != "files"@
        }
}

proof fn lemma_node_without_groups_yields_nothing(entries: Seq<(String, Json)>)
    requires
        lists_no_file_group(entries),
    ensures
        node_products(entries).len() == 0,
    decreases entries.len(),
{
    if entries.len() > 0 {
        assert(entries.drop_last().len() < entries.len());
        assert(lists_no_file_group(entries.drop_last())) by {
            assert forall|j: int| 0 <= j < entries.drop_last().len() implies {
                let k = (#[trigger] entries.drop_last()[j]).0@;
                k != "images"@ && k != "gifs"@ && k != "videos"@ && k != "audio"@ && k != "files"@
            } by {
                assert(entries.drop_last()[j] == entries[j]);
            }
        }
        lemma_node_without_groups_yields_nothing(entries.drop_last());
        assert(entries.last() == entries[entries.len() - 1]);
    }
}

proof fn lemma_outputs_without_groups_yield_nothing(entries: Seq<(String, Json)>)
    requires
        forall|i: int|
            0 <= i < entries.len() ==> match (#[trigger] entries[i]).1 {
                Json::Object(ne) => lists_no_file_group(ne@),
                _ => true,
            },
    ensures
        output_products(entries).len() == 0,
    decreases entries.len(),
{
    if entries.len() > 0 {
        let init = entries.drop_last();
        assert forall|i: int| 0 <= i < init.len() implies match (#[trigger] init[i]).1 {
            Json::Object(ne) => lists_no_file_group(ne@),
            _ => true,
        } by {
            assert(init[i] == entries[i]);
        }
        lemma_outputs_without_groups_yield_nothing(init);
        assert(entries.last() == entries[entries.len() - 1]);
        match entries.last().1 {
            Json::Object(e) => lemma_node_without_groups_yields_nothing(e@),
            _ => {},
        }
    }
}

/// Files are collected from those five groups only: when no node lists
/// `images`, `gifs`, `videos`, `audio` or `files`, nothing is collected,
/// whatever else the nodes report.
pub proof fn lemma_only_file_groups_are_collected(e: Vec<(String, Json)>)
    requires
        forall|i: int|
            0 <= i < e@.len() ==> match (#[trigger] e@[i]).1 {
                Json::Object(ne) => lists_no_file_group(ne@),
                _ => true,
            },
    ensures
        collected(Json::Object(e)).len() == 0,
{
    lemma_outputs_without_groups_yield_nothing(e@);
}

proof fn lemma_output_products_are_outputs(entries: Seq<(String, Json)>)
    ensures
        forall|k: int| 0 <= k < output_products(entries).len() ==> (#[trigger] output_products(
            entries,
        )[k]).2 == "output"@,
    decreases entries.len(),
{
    if entries.len() > 0 {
        lemma_output_products_are_outputs(entries.drop_last());
        let a = output_products(entries.drop_last());
        match entries.last().1 {
            Json::Object(e) => lemma_node_products_are_outputs(e@),
            _ => {},
        }
        assert forall|k: int| 0 <= k < output_products(entries).len() implies (#[trigger] output_products(
            entries,
        )[k]).2 == "output"@ by {
            if k >= a.len() {
                match entries.last().1 {
                    Json::Object(e) => {
                        assert(output_products(entries)[k] == node_products(e@)[k - a.len()]);
                    },
                    _ => {},
                }
            } else {
                assert(output_products(entries)[k] == a[k]);
            }
        }
    }
}

// ---------------------------------------------------------------------------
// Reading a history record.

/// The detail of an `["execution_error", {..}]` message.
pub open spec fn execution_detail(m: Json) -> Option<Json> {
    match m {
        Json::Array(a) => if a@.len() >= 2 && a@[0].str_of() == Some("execution_error"@) {
            Some(a@[1])
        } else {
            None
        },
        _ => None,
    }
}

/// The detail of the first execution error among the messages.
pub open spec fn first_execution_error(msgs: Seq<Json>) -> Option<Json>
    decreases msgs.len(),
{
    if msgs.len() == 0 {
        None
    } else {
        match execution_detail(msgs[0]) {
            Some(d) => Some(d),
            None => first_execution_error(msgs.drop_first()),
        }
    }
}

/// What a failed record says went wrong: `{node_type}: {exception_message}`
/// of the first execution error, else the status text, else a fixed phrase.
pub open spec fn error_text(status: Json) -> Seq<char> {
    let msgs = match status.field("messages"@) {
        Some(m) => match m.items() {
            Some(a) => a,
            None => Seq::empty(),
        },
        None => Seq::empty(),
    };
    match first_execution_error(msgs) {
        Some(d) => (match str_at(d, "node_type"@) {
            Some(n) => n,
            None => "未知节点"@,
        }) + ": "@ + (match str_at(d, "exception_message"@) {
            Some(m) => m,
            None => "未提供原因"@,
        }),
        None => match str_at(status, "status_str"@) {
            Some(s) => s,
            None => "执行失败"@,
        },
    }
}

fn execution_detail_exec(m: &Json) -> (r: Option<&Json>)
    ensures
        match r {
            Some(d) => execution_detail(*m) == Some(*d),
            None => execution_detail(*m) is None,
        },
{
    match m {
        Json::Array(a) => {
            if a.len() >= 2 {
                match a[0].as_str() {
                    Some(s) => if str_eq(s, "execution_error") {
                        Some(&a[1])
                    } else {
                        None
                    },
                    None => None,
                }
            } else {
                None
            }
        },
        _ => None,
    }
}

fn str_or(v: &Json, key: &str, default: &str) -> (r: String)
    ensures
        r@ == (match str_at(*v, key@) {
            Some(s) => s,
            None => default@,
        }),
{
    match v.get_str(key) {
        Some(s) => String::from_str(s),
        None => String::from_str(default),
    }
}

/// What a failed history record says went wrong.
pub fn extract_error(status: &Json) -> (r: String)
    ensures
        r@ == error_text(*status),
{
    let ghost msgs_v = match status.field("messages"@) {
        Some(m) => match m.items() {
            Some(a) => a,
            None => Seq::<Json>::empty(),
        },
        None => Seq::<Json>::empty(),
    };
    let mut found: Option<&Json> = None;
    match status.get_array("messages") {
        Some(msgs) => {
            let mut i: usize = 0;
            assert(msgs_v.subrange(0, msgs_v.len() as int) =~= msgs_v);
            while i < msgs.len()
                invariant
                    msgs@ == msgs_v,
                    i <= msgs@.len(),
                    found is None ==> first_execution_error(msgs_v) == first_execution_error(
                        msgs_v.subrange(i as int, msgs_v.len() as int),
                    ),
                    found matches Some(d) ==> first_execution_error(msgs_v) == Some(*d),
                decreases msgs.len() - i,
            {
                let ghost tail = msgs_v.subrange(i as int, msgs_v.len() as int);
                assert(tail[0] == msgs_v[i as int]);
                assert(tail.drop_first() =~= msgs_v.subrange(i + 1, msgs_v.len() as int));
                if found.is_none() {
                    found = execution_detail_exec(&msgs[i]);
                }
                i = i + 1;
            }
            assert(msgs_v.subrange(msgs_v.len() as int, msgs_v.len() as int).len() == 0);
        },
        None => {
            assert(msgs_v.len() == 0);
        },
    }
    match found {
        Some(d) => {
            let mut t = str_or(d, "node_type", "未知节点");
            t.append(": ");
            t.append(str_or(d, "exception_message", "未提供原因").as_str());
            t
        },
        None => str_or(status, "status_str", "执行失败"),
    }
}

/// What a `/history/{prompt_id}` document says about the submission.
pub enum HistoryView {
    /// Not finished yet (or nothing to show yet).
    Running,
    /// Finished with these products.
    Done(Seq<RemoteFileView>),
    /// ComfyUI reports a failure; what it says went wrong.
    Error(Seq<char>),
}

/// `status.completed`, false unless it is `true`.
pub open spec fn completed_flag(status: Json) -> bool {
    match status.field("completed"@) {
        Some(c) => c.bool_of() == Some(true),
        None => false,
    }
}

pub open spec fn history_view(prompt_id: Seq<char>, v: Json) -> HistoryView {
    match v.field(prompt_id) {
        None => HistoryView::Running,
        Some(entry) => {
            let status = entry.field("status"@);
            if status is Some && str_at(status->0, "status_str"@) == Some("error"@) {
                HistoryView::Error(error_text(status->0))
            } else if status is None || completed_flag(status->0) || entry.field("outputs"@) is Some {
                let files = match entry.field("outputs"@) {
                    Some(o) => collected(o),
                    None => Seq::empty(),
                };
                if files.len() == 0 {
                    HistoryView::Running
                } else {
                    HistoryView::Done(files)
                }
            } else {
                HistoryView::Running
            }
        },
    }
}

/// The result of one poll of `/history`.
pub enum PollOutcome {
    /// The node answered; the submission has not finished.
    Running,
    /// Finished, with its products.
    Done(Vec<RemoteFile>),
    /// The node could not be reached this time: perhaps a network hiccup,
    /// not a failed render.
    Unreachable(String),
    /// ComfyUI reported a failure, or refused the lookup: a real failure.
    Failed(StudioError),
}

impl Comfy {
    /// What one poll of `{node}/history/{prompt_id}` means.
    ///
    /// A fatal failure does not get the grace of the unreachable count:
    /// a wrong path or token gives the same answer five polls later, and
    /// calling it "cannot reach the node" points the search at the network.
    pub fn poll_outcome(&self, sub: &Submission, reply: Reply) -> (r: PollOutcome)
        ensures
            match reply {
                Reply::Failed(Failure::Retryable(d)) => r matches PollOutcome::Unreachable(x) && x@
                    == d@,
                Reply::Failed(Failure::Fatal(d)) => r matches PollOutcome::Failed(
                    StudioError::ComfyFailed { node, detail },
                ) && node@ == sub.node@ && detail@ == "查历史被拒（"@ + d@ + "），重试没有意义"@,
                Reply::NotJson(e) => r matches PollOutcome::Unreachable(x) && x@
                    == "历史返回不是 JSON："@ + e@,
                Reply::Json(v, _) => match history_view(sub.prompt_id@, v) {
                    HistoryView::Running => r is Running,
                    HistoryView::Done(files) => r matches PollOutcome::Done(f) && file_views(f@)
                        == files,
                    HistoryView::Error(d) => r matches PollOutcome::Failed(
                        StudioError::ComfyFailed { node, detail },
                    ) && node@ == sub.node@ && detail@ == d,
                },
            },
    {
        match reply {
            Reply::Failed(Failure::Retryable(d)) => PollOutcome::Unreachable(d),
            Reply::Failed(Failure::Fatal(d)) => {
                let mut t = String::from_str("查历史被拒（");
                t.append(d.as_str());
                t.append("），重试没有意义");
                PollOutcome::Failed(StudioError::ComfyFailed { node: sub.node.clone(), detail: t })
            },
            Reply::NotJson(e) => {
                let mut t = String::from_str("历史返回不是 JSON：");
                t.append(e.as_str());
                PollOutcome::Unreachable(t)
            },
            Reply::Json(v, _) => {
                let entry = match v.get(sub.prompt_id.as_str()) {
                    Some(e) => e,
                    None => {
                        return PollOutcome::Running;
                    },
                };
                match entry.get("status") {
                    Some(status) => {
                        match status.get_str("status_str") {
                            Some(st) => if str_eq(st, "error") {
                                return PollOutcome::Failed(
                                    StudioError::ComfyFailed {
                                        node: sub.node.clone(),
                                        detail: extract_error(status),
                                    },
                                );
                            },
                            None => {},
                        }
                        let completed = match status.get_bool("completed") {
                            Some(c) => c,
                            None => false,
                        };
                        if !completed && !entry.contains_key("outputs") {
                            return PollOutcome::Running;
                        }
                    },
                    None => {},
                }
                let files = match entry.get("outputs") {
                    Some(o) => collect_files(o),
                    None => Vec::new(),
                };
                if files.len() == 0 {
                    PollOutcome::Running
                } else {
                    PollOutcome::Done(files)
                }
            },
        }
    }

    /// One look at the history. Not finished yet and not reachable this time
    /// are both `Ok(None)`: not finding a result is not a failure. Only a
    /// failure reported by ComfyUI is an error here; the tolerance for
    /// repeated unreachability lives in the waiting loop.
    pub fn try_history(&self, outcome: PollOutcome) -> (r: Result<Option<Vec<RemoteFile>>, StudioError>)
        ensures
            match outcome {
                PollOutcome::Running => r matches Ok(None),
                PollOutcome::Unreachable(_) => r matches Ok(None),
                PollOutcome::Done(files) => r == Ok::<Option<Vec<RemoteFile>>, StudioError>(
                    Some(files),
                ),
                PollOutcome::Failed(e) => r == Err::<Option<Vec<RemoteFile>>, StudioError>(e),
            },
    {
        match outcome {
            PollOutcome::Running | PollOutcome::Unreachable(_) => Ok(None),
            PollOutcome::Done(files) => Ok(Some(files)),
            PollOutcome::Failed(e) => Err(e),
        }
    }
}

// ---------------------------------------------------------------------------
// Waiting.

/// What the waiting loop does after a poll.
pub enum WaitStep {
    /// Sleep `sleep_secs`, then poll again, carrying the count of polls in a
    /// row that could not reach the node.
    PollAgain { consecutive_unreachable: u32, sleep_secs: u64 },
    /// Stop with the products, or with why there are none.
    Finished(Result<Vec<RemoteFile>, StudioError>),
}

impl Comfy {
    /// The waiting loop's decision after a poll.
    ///
    /// `consecutive_unreachable` counts the polls in a row, before this one,
    /// that could not reach the node; `elapsed_nanos` is the time since the
    /// wait began. A connection hiccup does not fail the wait at once: only
    /// more than [`MAX_CONSECUTIVE_UNREACHABLE`] in a row, or a wait longer
    /// than the timeout, does. A failure that ComfyUI reports ends the wait
    /// at once.
    pub fn wait_step(
        &self,
        sub: &Submission,
        consecutive_unreachable: u32,
        outcome: PollOutcome,
        elapsed_nanos: u128,
    ) -> (r: WaitStep)
        requires
            consecutive_unreachable <= MAX_CONSECUTIVE_UNREACHABLE,
        ensures
            r matches WaitStep::PollAgain { consecutive_unreachable: c, sleep_secs } ==> (c
                <= MAX_CONSECUTIVE_UNREACHABLE && sleep_secs == self.poll() && elapsed_nanos
                <= self.timeout() * 1_000_000_000 && (outcome is Running ==> c == 0) && (
            outcome is Unreachable ==> c == consecutive_unreachable + 1)),
            match outcome {
                PollOutcome::Done(files) => r == WaitStep::Finished(
                    Ok::<Vec<RemoteFile>, StudioError>(files),
                ),
                PollOutcome::Failed(e) => r == WaitStep::Finished(
                    Err::<Vec<RemoteFile>, StudioError>(e),
                ),
                PollOutcome::Unreachable(d) => if consecutive_unreachable + 1
                    > MAX_CONSECUTIVE_UNREACHABLE {
                    r matches WaitStep::Finished(Err(StudioError::ComfyFailed { node, detail }))
                        && node@ == sub.node@ && detail@ == "连续 "@ + dec_nat(
                        (consecutive_unreachable + 1) as nat,
                    ) + " 次轮询都联系不上节点（最近一次："@ + d@ + "）"@
                } else {
                    timed_out_or_again(*self, *sub, r, elapsed_nanos)
                },
                PollOutcome::Running => timed_out_or_again(*self, *sub, r, elapsed_nanos),
            },
    {
        let c: u32 = match outcome {
            PollOutcome::Done(files) => {
                return WaitStep::Finished(Ok(files));
            },
            PollOutcome::Failed(e) => {
                return WaitStep::Finished(Err(e));
            },
            PollOutcome::Running => 0,
            PollOutcome::Unreachable(detail) => {
                let c = consecutive_unreachable + 1;
                if c > MAX_CONSECUTIVE_UNREACHABLE {
                    let mut t = String::from_str("连续 ");
                    push_u64(&mut t, c as u64);
                    t.append(" 次轮询都联系不上节点（最近一次：");
                    t.append(detail.as_str());
                    t.append("）");
                    return WaitStep::Finished(
                        Err(StudioError::ComfyFailed { node: sub.node.clone(), detail: t }),
                    );
                }
                c
            },
        };
        let limit: u128 = self.timeout_secs as u128 * 1_000_000_000;
        if elapsed_nanos > limit {
            let mut t = String::from_str("等待 ");
            t.append(sub.prompt_id.as_str());
            t.append(" 超过 ");
            push_u64(&mut t, self.timeout_secs);
            t.append(" 秒仍无结果");
            return WaitStep::Finished(
                Err(StudioError::ComfyFailed { node: sub.node.clone(), detail: t }),
            );
        }
        WaitStep::PollAgain { consecutive_unreachable: c, sleep_secs: self.poll_secs }
    }
}

/// After a poll that did not end the wait: past the timeout the wait fails,
/// else it polls again.
pub open spec fn timed_out_or_again(c: Comfy, sub: Submission, r: WaitStep, elapsed_nanos: u128) -> bool {
    if elapsed_nanos > c.timeout() * 1_000_000_000 {
        r matches WaitStep::Finished(Err(StudioError::ComfyFailed { node, detail })) && node@
            == sub.node@ && detail@ == "等待 "@ + sub.prompt_id@ + " 超过 "@ + dec_nat(
            c.timeout() as nat,
        ) + " 秒仍无结果"@
    } else {
        r is PollAgain
    }
}

// ---------------------------------------------------------------------------
// Uploading and downloading.

/// The multipart boundary of an upload.
pub const UPLOAD_BOUNDARY: &'static str = "----videostudioboundary";

/// The text before the image bytes in an upload body.
pub open spec fn upload_head(name: Seq<char>) -> Seq<char> {
    "--"@ + UPLOAD_BOUNDARY@ + "\r\n"@ + "Content-Disposition: form-data; name=\"image\"; filename=\""@
        + name + "\"\r\n"@ + "Content-Type: application/octet-stream\r\n\r\n"@
}

/// The text after the image bytes in an upload body.
pub open spec fn upload_tail() -> Seq<char> {
    "\r\n--"@ + UPLOAD_BOUNDARY@ + "--\r\n"@
}

fn append_bytes(out: &mut Vec<u8>, b: &[u8])
    ensures
        final(out)@ == old(out)@ + b@,
{
    let mut i: usize = 0;
    while i < b.len()
        invariant
            i <= b@.len(),
            out@ == old(out)@ + b@.subrange(0, i as int),
        decreases b.len() - i,
    {
        out.push(b[i]);
        i = i + 1;
        assert(out@ =~= old(out)@ + b@.subrange(0, i as int));
    }
    assert(b@.subrange(0, b@.len() as int) =~= b@);
}

/// The `multipart/form-data` body that uploads `bytes` as the image `name`.
pub fn upload_body(name: &str, bytes: &[u8]) -> (r: Vec<u8>)
    ensures
        r@ == encode_utf8(upload_head(name@)) + bytes@ + encode_utf8(upload_tail()),
{
    let mut head = String::from_str("--");
    head.append(UPLOAD_BOUNDARY);
    head.append("\r\n");
    head.append("Content-Disposition: form-data; name=\"image\"; filename=\"");
    head.append(name);
    head.append("\"\r\n");
    head.append("Content-Type: application/octet-stream\r\n\r\n");
    let mut tail = String::from_str("\r\n--");
    tail.append(UPLOAD_BOUNDARY);
    tail.append("--\r\n");
    let mut body: Vec<u8> = Vec::new();
    append_bytes(&mut body, head.as_str().as_bytes());
    append_bytes(&mut body, bytes);
    append_bytes(&mut body, tail.as_str().as_bytes());
    body
}

/// The `Content-Type` of an upload.
pub fn upload_content_type() -> (r: String)
    ensures
        r@ == "multipart/form-data; boundary="@ + UPLOAD_BOUNDARY@,
{
    let mut t = String::from_str("multipart/form-data; boundary=");
    t.append(UPLOAD_BOUNDARY);
    t
}

impl Comfy {
    /// A request to this node failed: `ComfyFailed` with the failure's detail.
    pub fn request_failed(&self, f: &Failure) -> (r: StudioError)
        ensures
            r matches StudioError::ComfyFailed { node, detail } && node@ == self.node_text()
                && detail@ == f.detail_text(),
    {
        self.failed(String::from_str(f.detail()))
    }

    /// The name under which ComfyUI stored an upload of `name`: the `name`
    /// of its reply, or `name` itself when the reply gives none.
    pub fn uploaded_name(&self, name: &str, reply: Reply) -> (r: Result<String, StudioError>)
        ensures
            match reply {
                Reply::Failed(f) => r matches Err(StudioError::ComfyFailed { node, detail })
                    && node@ == self.node_text() && detail@ == f.detail_text(),
                Reply::NotJson(e) => r matches Err(StudioError::ComfyFailed { node, detail })
                    && node@ == self.node_text() && detail@ == "上传返回不是 JSON："@ + e@,
                Reply::Json(v, _) => r matches Ok(n) && n@ == (match str_at(v, "name"@) {
                    Some(x) => x,
                    None => name@,
                }),
            },
    {
        match reply {
            Reply::Failed(f) => Err(self.request_failed(&f)),
            Reply::NotJson(e) => {
                let mut d = String::from_str("上传返回不是 JSON：");
                d.append(e.as_str());
                Err(self.failed(d))
            },
            Reply::Json(v, _) => match v.get_str("name") {
                Some(x) => Ok(String::from_str(x)),
                None => Ok(String::from_str(name)),
            },
        }
    }
}

/// The submission loop sends the request at most three times: `submit_step`
/// retries only a retryable failure, and only while `attempt + 1` is below
/// the three backoffs; a fatal failure (a 4xx) on the first request stops
/// after that one request. `steps[i]` is the step after request `i`.
pub proof fn lemma_at_most_three_posts(steps: Seq<SubmitStep>, replies: Seq<Reply>)
    requires
        steps.len() == replies.len(),
        steps.len() > 0,
        forall|i: int|
            0 <= i < steps.len() ==> ((#[trigger] steps[i]) is Retry ==> (replies[i] matches Reply::Failed(
                Failure::Retryable(_),
            ) && i + 1 < SUBMIT_RETRY_BACKOFF_SECS.len())),
        forall|i: int| 0 <= i < steps.len() - 1 ==> (#[trigger] steps[i]) is Retry,
    ensures
        steps.len() <= 3,
        replies[0] matches Reply::Failed(Failure::Fatal(_)) ==> steps.len() == 1,
{
    if steps.len() > 1 {
        assert(steps[steps.len() - 2] is Retry);
        assert(steps[0] is Retry);
    }
}

/// Polls that cannot reach the node are tolerated only so many times in a
/// row: after `start` such polls, the waiting loop polls again after at most
/// `MAX_CONSECUTIVE_UNREACHABLE - start` more of them, since each carries the
/// count up by one and a count past the limit ends the wait.
pub proof fn lemma_unreachable_polls_are_bounded(start: u32, steps: Seq<WaitStep>)
    requires
        start <= MAX_CONSECUTIVE_UNREACHABLE,
        forall|i: int|
            0 <= i < steps.len() ==> ((#[trigger] steps[i]) matches WaitStep::PollAgain {
                consecutive_unreachable: c,
                ..
            } && c <= MAX_CONSECUTIVE_UNREACHABLE && c == start + i + 1),
    ensures
        steps.len() <= MAX_CONSECUTIVE_UNREACHABLE - start,
{
    if steps.len() > 0 {
        assert(steps[steps.len() - 1] is PollAgain);
    }
}

} // verus!

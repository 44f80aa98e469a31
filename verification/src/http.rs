//! Request classification and response framing for the small HTTP front end
//! that feeds the pool with work.

use vstd::prelude::*;
use vstd::string::StringSliceAdditionalSpecFns;

verus! {

/// The request line `GET / HTTP/1.1\r\n`.
pub const GET: [u8; 16] = [
    0x47, 0x45, 0x54, 0x20, 0x2f, 0x20, 0x48, 0x54, 0x54, 0x50, 0x2f, 0x31, 0x2e, 0x31, 0x0d, 0x0a,
];

/// The request line `GET /sleep HTTP/1.1\r\n`.
pub const SLEEP: [u8; 21] = [
    0x47, 0x45, 0x54, 0x20, 0x2f, 0x73, 0x6c, 0x65, 0x65, 0x70, 0x20, 0x48, 0x54, 0x54, 0x50, 0x2f,
    0x31, 0x2e, 0x31, 0x0d, 0x0a,
];

/// How long a `SLEEP` request is held back before it is answered, in seconds.
pub const SLEEP_SECONDS: u64 = 5;

/// The page a request is answered with.
#[derive(Clone, Copy, Debug, PartialEq, Eq, Structural)]
pub enum HtmlFile {
    OK,
    SLEEP,
    NotFound,
}

/// True when `bytes` begins with `prefix`.
pub open spec fn starts_with(bytes: Seq<u8>, prefix: Seq<u8>) -> bool {
    prefix.len() <= bytes.len() && bytes.subrange(0, prefix.len() as int) == prefix
}

/// The two request lines are the UTF-8 encodings of the texts they stand for.
pub proof fn lemma_request_lines()
    ensures
        GET@ == "GET / HTTP/1.1\r\n".spec_bytes(),
        SLEEP@ == "GET /sleep HTTP/1.1\r\n".spec_bytes(),
{
    broadcast use vstd::string::is_ascii_spec_bytes;

    reveal_strlit("GET / HTTP/1.1\r\n");
    reveal_strlit("GET /sleep HTTP/1.1\r\n");
    assert("GET / HTTP/1.1\r\n".is_ascii());
    assert("GET /sleep HTTP/1.1\r\n".is_ascii());
}

/// Tells whether `bytes` begins with `prefix`.
pub fn has_prefix(bytes: &[u8], prefix: &[u8]) -> (found: bool)
    ensures
        found == starts_with(bytes@, prefix@),
{
    if prefix.len() > bytes.len() {
        return false;
    }
    let mut i: usize = 0;
    while i < prefix.len()
        invariant
            i <= prefix.len() <= bytes.len(),
            bytes@.subrange(0, i as int) == prefix@.subrange(0, i as int),
        decreases prefix.len() - i,
    {
        if bytes[i] != prefix[i] {
            return false;
        }
        proof {
            assert(prefix@.subrange(0, i + 1) =~= prefix@.subrange(0, i as int).push(
                prefix@[i as int],
            ));
        }
        i = i + 1;
    }
    proof {
        assert(prefix@.subrange(0, prefix@.len() as int) =~= prefix@);
    }
    true
}

impl HtmlFile {
    /// The page that answers a connection whose first bytes are `request`:
    /// the root page for `GET /`, the same page after a pause for
    /// `GET /sleep`, and the not-found page for anything else.
    pub open spec fn for_request(request: Seq<u8>) -> HtmlFile {
        if starts_with(request, GET@) {
            HtmlFile::OK
        } else if starts_with(request, SLEEP@) {
            HtmlFile::SLEEP
        } else {
            HtmlFile::NotFound
        }
    }

    /// The file that holds the page.
    pub open spec fn spec_path(self) -> Seq<char> {
        match self {
            HtmlFile::OK => "hello.html"@,
            HtmlFile::SLEEP => "hello.html"@,
            HtmlFile::NotFound => "404.html"@,
        }
    }

    /// The status line sent ahead of the page.
    pub open spec fn spec_status_line(self) -> Seq<char> {
        match self {
            HtmlFile::OK => "HTTP/1.1 200 OK"@,
            HtmlFile::SLEEP => "HTTP/1.1 200 OK"@,
            HtmlFile::NotFound => "HTTP/1.1 404 NOT FOUND"@,
        }
    }

    /// Seconds to wait before the page is sent.
    pub open spec fn spec_delay_seconds(self) -> u64 {
        match self {
            HtmlFile::SLEEP => SLEEP_SECONDS,
            _ => 0,
        }
    }

    /// The file that holds the page.
    pub fn path(&self) -> (path: &'static str)
        ensures
            path@ == self.spec_path(),
    {
        match self {
            HtmlFile::OK => "hello.html",
            HtmlFile::SLEEP => "hello.html",
            HtmlFile::NotFound => "404.html",
        }
    }

    /// The status line sent ahead of the page.
    pub fn status_line(&self) -> (line: &'static str)
        ensures
            line@ == self.spec_status_line(),
    {
        match self {
            HtmlFile::OK => "HTTP/1.1 200 OK",
            HtmlFile::SLEEP => "HTTP/1.1 200 OK",
            HtmlFile::NotFound => "HTTP/1.1 404 NOT FOUND",
        }
    }

    /// Seconds to wait before the page is sent.
    pub fn delay_seconds(&self) -> (seconds: u64)
        ensures
            seconds == self.spec_delay_seconds(),
    {
        match self {
            HtmlFile::SLEEP => SLEEP_SECONDS,
            _ => 0,
        }
    }
}

/// Decides from the bytes read off a connection which page answers it.
pub fn handle_connection(buffer: &[u8]) -> (file: HtmlFile)
    ensures
        file == HtmlFile::for_request(buffer@),
{
    if has_prefix(buffer, GET.as_slice()) {
        HtmlFile::OK
    } else if has_prefix(buffer, SLEEP.as_slice()) {
        HtmlFile::SLEEP
    } else {
        HtmlFile::NotFound
    }
}

/// The decimal digits of `n`, as ASCII bytes, without leading zeros.
pub open spec fn decimal(n: nat) -> Seq<u8>
    decreases n,
{
    if n < 10 {
        seq![(0x30 + n) as u8]
    } else {
        decimal(n / 10).push((0x30 + n % 10) as u8)
    }
}

/// The bytes sent for `file` when the page holds `contents`: the status line,
/// a `Content-Length` header with the length of the page in bytes, an empty
/// line, and the page itself.
pub open spec fn response(file: HtmlFile, contents: Seq<u8>) -> Seq<u8> {
    vstd::utf8::encode_utf8(file.spec_status_line()) + "\r\nContent-Length: ".spec_bytes()
        + decimal(contents.len()) + "\r\n\r\n".spec_bytes() + contents
}

/// Appends `bytes` to `out`.
fn append_bytes(out: &mut Vec<u8>, bytes: &[u8])
    ensures
        final(out)@ == old(out)@ + bytes@,
{
    let mut i: usize = 0;
    while i < bytes.len()
        invariant
            i <= bytes.len(),
            out@ == old(out)@ + bytes@.subrange(0, i as int),
        decreases bytes.len() - i,
    {
        out.push(bytes[i]);
        i = i + 1;
    }
}

/// Appends the decimal digits of `n` to `out`.
fn append_decimal(out: &mut Vec<u8>, n: usize)
    ensures
        final(out)@ == old(out)@ + decimal(n as nat),
    decreases n,
{
    if n >= 10 {
        append_decimal(out, n / 10);
    }
    let digit: u8 = (n % 10) as u8;
    out.push(0x30 + digit);
}

/// Frames the page `contents` as the response for `file`.
pub fn build_content(file: HtmlFile, contents: &str) -> (bytes: Vec<u8>)
    ensures
        bytes@ == response(file, contents.spec_bytes()),
{
    let page = contents.as_bytes();
    let mut bytes: Vec<u8> = Vec::new();
    append_bytes(&mut bytes, file.status_line().as_bytes());
    append_bytes(&mut bytes, "\r\nContent-Length: ".as_bytes());
    append_decimal(&mut bytes, page.len());
    append_bytes(&mut bytes, "\r\n\r\n".as_bytes());
    append_bytes(&mut bytes, page);
    bytes
}

} // verus!

//! A seekable byte cursor over one remote ranged object.
//!
//! `GcsReader` keeps the cursor's whole observable state as plain values:
//! the resolved URL, the original upper bound used when reopening, the
//! absolute position, the declared total size, and the window of fetched
//! but not yet consumed bytes. The network transport around it performs the
//! ranged requests and hands every response back as plain values: the
//! status code, the size headers, and each pulled chunk of the body.

use vstd::prelude::*;
use vstd::string::*;
use crate::error::Error;
use crate::error::ErrorKind;
use crate::http::Range;
use crate::http::find_char_from;
use crate::http::header_view;
use crate::http::index_of_from;
use crate::http::spec_header_size;
use crate::num_str::dec_str;
use crate::num_str::u64_to_dec;

verus! {

/// An object locator: a storage bucket and an object name within it.
#[derive(Debug)]
pub struct GcsObject {
    pub bucket: String,
    pub object: String,
}

/// Whether `url` starts with the object-locator prefix `gs://`.
pub open spec fn has_locator_prefix(url: Seq<char>) -> bool {
    url.len() >= 5 && url.subrange(0, 5) == "gs://"@
}

/// The index of the `/` separating bucket from object, behind the prefix.
pub open spec fn locator_slash(url: Seq<char>) -> int {
    index_of_from(url, '/', 5)
}

/// The message of the error for a malformed object locator.
pub open spec fn url_parse_error_message(url: Seq<char>) -> Seq<char> {
    "Cannot parse `"@ + url + "` as a GCS URL."@
}

/// The locator prefix is exactly the five characters `g s : / /`.
proof fn lemma_locator_prefix(url: Seq<char>)
    requires
        url.len() >= 5,
    ensures
        has_locator_prefix(url) <==> (url[0] == 'g' && url[1] == 's' && url[2] == ':' && url[3]
            == '/' && url[4] == '/'),
{
    reveal_strlit("gs://");
    let prefix = url.subrange(0, 5);
    assert(prefix[0] == url[0] && prefix[1] == url[1] && prefix[2] == url[2] && prefix[3] == url[3]
        && prefix[4] == url[4]);
    if url[0] == 'g' && url[1] == 's' && url[2] == ':' && url[3] == '/' && url[4] == '/' {
        assert(prefix =~= "gs://"@);
    }
}

/// The error for a malformed object locator.
pub fn url_parse_error(url: &str) -> (error: Error)
    ensures
        error.kind == ErrorKind::Phenics,
        error.message@ == url_parse_error_message(url@),
{
    let mut message = "Cannot parse `".to_owned();
    message.append(url);
    message.append("` as a GCS URL.");
    Error::from_message(message)
}

impl GcsObject {
    /// Splits a `gs://<bucket>/<object>` locator into its bucket and object.
    ///
    /// Fails when the prefix is missing or no `/` follows the bucket.
    pub fn parse_url(url: &str) -> (result: Result<GcsObject, Error>)
        ensures
            result matches Ok(parsed) ==> {
                &&& has_locator_prefix(url@)
                &&& locator_slash(url@) < url@.len()
                &&& parsed.bucket@ == url@.subrange(5, locator_slash(url@))
                &&& parsed.object@ == url@.subrange(locator_slash(url@) + 1, url@.len() as int)
            },
            result matches Err(e) ==> {
                &&& !(has_locator_prefix(url@) && locator_slash(url@) < url@.len())
                &&& e.kind == ErrorKind::Phenics
                &&& e.message@ == url_parse_error_message(url@)
            },
    {
        let len = url.unicode_len();
        if len < 5 {
            return Err(url_parse_error(url));
        }
        proof {
            lemma_locator_prefix(url@);
        }
        if !(url.get_char(0) == 'g' && url.get_char(1) == 's' && url.get_char(2) == ':'
            && url.get_char(3) == '/' && url.get_char(4) == '/') {
            return Err(url_parse_error(url));
        }
        let slash = find_char_from(url, '/', 5, len);
        if slash == len {
            return Err(url_parse_error(url));
        }
        let bucket = url.substring_char(5, slash).to_owned();
        let object = url.substring_char(slash + 1, len).to_owned();
        Ok(GcsObject { bucket, object })
    }
}

/// Whether a byte is left bare by percent encoding: ASCII alphanumerics
/// and `-`, `.`, `_`, `~`.
pub open spec fn is_unreserved(b: u8) -> bool {
    (48 <= b <= 57) || (65 <= b <= 90) || (97 <= b <= 122) || b == 45 || b == 46 || b == 95 || b
        == 126
}

/// The uppercase hexadecimal digit for one value below 16.
pub open spec fn hex_digit_char(d: nat) -> char {
    if d < 10 {
        crate::num_str::digit_char(d)
    } else if d == 10 {
        'A'
    } else if d == 11 {
        'B'
    } else if d == 12 {
        'C'
    } else if d == 13 {
        'D'
    } else if d == 14 {
        'E'
    } else {
        'F'
    }
}

/// How percent encoding renders one byte.
pub open spec fn percent_encoded_byte(b: u8) -> Seq<char> {
    if is_unreserved(b) {
        seq![b as char]
    } else {
        seq!['%', hex_digit_char((b / 16) as nat), hex_digit_char((b % 16) as nat)]
    }
}

/// Percent encoding of a byte sequence.
pub open spec fn percent_encoded(bytes: Seq<u8>) -> Seq<char>
    decreases bytes.len(),
{
    if bytes.len() == 0 {
        Seq::<char>::empty()
    } else {
        percent_encoded(bytes.drop_last()) + percent_encoded_byte(bytes.last())
    }
}

/// The bytes of an ASCII string, character by character.
pub open spec fn ascii_bytes(s: Seq<char>) -> Seq<u8> {
    s.map_values(|c: char| c as u8)
}

/// Relies on urlencoding::encode: percent-encodes every byte except ASCII
/// alphanumerics and `-`, `.`, `_`, `~`, with uppercase hexadecimal digits.
#[verifier::external_body]
fn percent_encode(text: &str) -> (encoded: String)
    ensures
        vstd::utf8::is_ascii_chars(text@) ==> encoded@ == percent_encoded(ascii_bytes(text@)),
{
    urlencoding::encode(text).into_owned()
}

impl GcsObject {
    /// The HTTPS URL that addresses this object's raw media.
    pub fn as_api_url(&self) -> (url: String)
        ensures
            vstd::utf8::is_ascii_chars(self.bucket@) && vstd::utf8::is_ascii_chars(
                self.object@,
            ) ==> url@ == "https://storage.googleapis.com/storage/v1/b/"@ + percent_encoded(
                ascii_bytes(self.bucket@),
            ) + "/o/"@ + percent_encoded(ascii_bytes(self.object@)) + "?alt=media"@,
    {
        let mut url = "https://storage.googleapis.com/storage/v1/b/".to_owned();
        let bucket_encoded = percent_encode(self.bucket.as_str());
        url.append(bucket_encoded.as_str());
        url.append("/o/");
        let object_encoded = percent_encode(self.object.as_str());
        url.append(object_encoded.as_str());
        url.append("?alt=media");
        url
    }
}

/// The byte cursor. `pos` is the absolute offset in the remote object of
/// the next byte the caller will see; `window` is the fetched, not yet
/// consumed part of the current response body (`None` once the body ended);
/// `size` is the object's declared total size, when the server stated one;
/// `to` is the original upper bound, reused whenever a seek reopens.
#[derive(Debug)]
pub struct GcsReader {
    pub url: String,
    pub to: Option<u64>,
    pub pos: u64,
    pub size: Option<u64>,
    pub window: Option<Vec<u8>>,
    pub win_pos: usize,
}

/// Where a seek measures from.
#[derive(Debug)]
pub enum SeekWhence {
    Start(u64),
    End(i64),
    Current(i64),
}

/// Adds a signed offset to an unsigned position.
pub fn add_u64_i64(x: u64, y: i64) -> (sum: u64)
    requires
        x + y >= 0,
        x + y <= u64::MAX,
    ensures
        sum == x + y,
{
    if y < 0 {
        let magnitude: u64 = if y == i64::MIN {
            9223372036854775808u64
        } else {
            (-y) as u64
        };
        x - magnitude
    } else {
        x + (y as u64)
    }
}

impl GcsReader {
    /// Whether the reader's window bookkeeping is consistent.
    pub open spec fn wf(self) -> bool {
        match self.window {
            Some(w) => self.win_pos <= w@.len(),
            None => self.win_pos == 0,
        }
    }

    /// Whether the reader waits for the next chunk of the response body.
    pub open spec fn spec_needs_chunk(self) -> bool {
        match self.window {
            Some(w) => self.win_pos == w@.len(),
            None => false,
        }
    }

    /// How many fetched bytes are ready to be consumed.
    pub open spec fn window_remaining(self) -> int {
        match self.window {
            Some(w) => w@.len() - self.win_pos,
            None => 0,
        }
    }

    /// Whether the reader stands right behind a (re)opened request at
    /// `from`, before any chunk of the body arrived.
    pub open spec fn awaiting_body(self) -> bool {
        self.window matches Some(w) && w@.len() == 0 && self.win_pos == 0
    }

    /// The state a cursor is in right after a successful open at `from`
    /// against `Range { from, to }` whose response headers resolved to
    /// `size`: this pins the cursor as a function of the request it made
    /// and the response it got, and of nothing else.
    pub open spec fn opened_at(
        self,
        url: Seq<char>,
        from: u64,
        to: Option<u64>,
        size: Option<u64>,
    ) -> bool {
        &&& self.url@ == url
        &&& self.pos == from
        &&& self.to == to
        &&& self.size == size
        &&& self.awaiting_body()
    }

    /// Resolves what the transport must request: a `gs://` locator becomes
    /// the HTTPS media URL of the object; any other URL stands as it is.
    pub fn get_url(url_raw: &str) -> (result: Result<String, Error>)
        ensures
            !has_locator_prefix(url_raw@) ==> (result matches Ok(url) && url@ == url_raw@),
            has_locator_prefix(url_raw@) && locator_slash(url_raw@) == url_raw@.len() ==> (
            result matches Err(e) && e.kind == ErrorKind::Phenics),
            has_locator_prefix(url_raw@) && locator_slash(url_raw@) < url_raw@.len()
                ==> result is Ok,
            ({
                let slash = locator_slash(url_raw@);
                let bucket = url_raw@.subrange(5, slash);
                let object = url_raw@.subrange(slash + 1, url_raw@.len() as int);
                (has_locator_prefix(url_raw@) && slash < url_raw@.len()
                    && vstd::utf8::is_ascii_chars(bucket) && vstd::utf8::is_ascii_chars(object))
                    ==> (result matches Ok(url) && url@
                    == "https://storage.googleapis.com/storage/v1/b/"@ + percent_encoded(
                    ascii_bytes(bucket),
                ) + "/o/"@ + percent_encoded(ascii_bytes(object)) + "?alt=media"@)
            }),
    {
        let len = url_raw.unicode_len();
        proof {
            if url_raw@.len() >= 5 {
                lemma_locator_prefix(url_raw@);
            }
        }
        let is_locator = len >= 5 && url_raw.get_char(0) == 'g' && url_raw.get_char(1) == 's'
            && url_raw.get_char(2) == ':' && url_raw.get_char(3) == '/' && url_raw.get_char(4)
            == '/';
        if is_locator {
            let parsed = match GcsObject::parse_url(url_raw) {
                Ok(parsed) => parsed,
                Err(error) => {
                    return Err(error);
                },
            };
            Ok(parsed.as_api_url())
        } else {
            Ok(url_raw.to_owned())
        }
    }

    /// Creates a cursor for one ranged request, before its response.
    pub fn new(url: String, range: &Range) -> (reader: GcsReader)
        ensures
            reader.url == url,
            reader.to == range.to,
            reader.pos == match range.from {
                Some(from) => from,
                None => 0u64,
            },
            reader.size is None,
            reader.awaiting_body(),
            reader.wf(),
    {
        let pos = match range.from {
            Some(from) => from,
            None => 0,
        };
        GcsReader { url, to: range.to, pos, size: None, window: Some(Vec::new()), win_pos: 0 }
    }

    /// Takes in the status and size headers of the response to the pending
    /// ranged request.
    ///
    /// A non-success status is a `RemoteFetch` error carrying the status
    /// and the URL; a malformed size header keeps its own error; otherwise
    /// the declared size is recorded and the body may be pulled.
    pub fn accept_response(
        &mut self,
        status: u16,
        content_range: &Option<String>,
        content_length: Option<u64>,
    ) -> (result: Result<(), Error>)
        requires
            old(self).wf(),
        ensures
            final(self).wf(),
            !(200 <= status < 300) ==> {
                &&& result matches Err(e) && e.kind == ErrorKind::RemoteFetch
                &&& (result matches Err(e) ==> e.message@ == dec_str(status as nat) + " ("@ + old(
                    self,
                ).url@ + ")"@)
                &&& *final(self) == *old(self)
            },
            200 <= status < 300 ==> match spec_header_size(
                header_view(*content_range),
                content_length,
            ) {
                Ok(size) => {
                    &&& result is Ok
                    &&& final(self).opened_at(old(self).url@, old(self).pos, old(self).to, size)
                },
                Err(kind) => {
                    &&& result matches Err(e) && e.kind == kind
                    &&& *final(self) == *old(self)
                },
            },
    {
        if !(200 <= status && status < 300) {
            let mut message = u64_to_dec(status as u64);
            message.append(" (");
            message.append(self.url.as_str());
            message.append(")");
            return Err(Error::new(ErrorKind::RemoteFetch, message));
        }
        let size = match crate::http::size_from_headers(content_range, content_length) {
            Ok(size) => size,
            Err(error) => {
                return Err(error);
            },
        };
        self.size = size;
        self.window = Some(Vec::new());
        self.win_pos = 0;
        Ok(())
    }

    /// Whether the next read needs the transport to pull a chunk first.
    pub fn needs_chunk(&self) -> (needs: bool)
        ensures
            needs == self.spec_needs_chunk(),
    {
        match &self.window {
            Some(w) => self.win_pos == w.len(),
            None => false,
        }
    }

    /// Takes in the next pulled chunk of the response body, `None` when
    /// the body ended.
    pub fn accept_chunk(&mut self, chunk: Option<Vec<u8>>)
        requires
            old(self).wf(),
            old(self).spec_needs_chunk(),
        ensures
            final(self).wf(),
            final(self).window == chunk,
            final(self).win_pos == 0,
            final(self).url == old(self).url,
            final(self).to == old(self).to,
            final(self).pos == old(self).pos,
            final(self).size == old(self).size,
    {
        self.window = chunk;
        self.win_pos = 0;
    }

    /// Reads up to `buf_len` bytes out of the current window.
    ///
    /// Yields the next `min(buf_len, window remaining)` bytes and advances
    /// the position by as much; an ended body yields nothing. The bytes
    /// yielded are a function of the window alone.
    pub fn read_from_window(&mut self, buf_len: usize) -> (out: Vec<u8>)
        requires
            old(self).wf(),
            !old(self).spec_needs_chunk() || old(self).window is None,
            old(self).pos + old(self).window_remaining() <= u64::MAX,
        ensures
            final(self).wf(),
            final(self).url == old(self).url,
            final(self).to == old(self).to,
            final(self).size == old(self).size,
            final(self).window == old(self).window,
            old(self).window is None ==> out@.len() == 0 && *final(self) == *old(self),
            old(self).window matches Some(w) ==> {
                let n = vstd::math::min(buf_len as int, w@.len() - old(self).win_pos);
                &&& out@ == w@.subrange(old(self).win_pos as int, old(self).win_pos + n)
                &&& final(self).win_pos == old(self).win_pos + n
                &&& final(self).pos == old(self).pos + n
            },
    {
        let win_pos = self.win_pos;
        let (n, out) = match &self.window {
            None => {
                let out: Vec<u8> = Vec::new();
                (0usize, out)
            },
            Some(w) => {
                let remaining = w.len() - win_pos;
                let n = if buf_len < remaining {
                    buf_len
                } else {
                    remaining
                };
                let mut out: Vec<u8> = Vec::new();
                let end = win_pos + n;
                let mut j: usize = win_pos;
                while j < end
                    invariant
                        win_pos <= j <= end,
                        end <= w@.len(),
                        out@ == w@.subrange(win_pos as int, j as int),
                    decreases end - j,
                {
                    out.push(w[j]);
                    proof {
                        assert(out@ =~= w@.subrange(win_pos as int, j + 1));
                    }
                    j = j + 1;
                }
                (n, out)
            },
        };
        self.win_pos = win_pos + n;
        self.pos = self.pos + (n as u64);
        out
    }

    /// Resolves a seek target to an absolute offset.
    ///
    /// Seeking from the end needs a known total size; without one the seek
    /// fails with `SeekUnsupported`, and with one, `End(d)` resolves to
    /// `size + d` (so `End(0)` resolves to the size itself).
    pub fn resolve_seek(&self, whence: &SeekWhence) -> (result: Result<u64, Error>)
        requires
            whence matches SeekWhence::Current(d) ==> 0 <= self.pos + *d <= u64::MAX,
            whence matches SeekWhence::End(d) ==> (self.size matches Some(size) ==> 0 <= size + *d
                <= u64::MAX),
        ensures
            whence matches SeekWhence::Start(p) ==> result == Result::<u64, Error>::Ok(*p),
            whence matches SeekWhence::Current(d) ==> (result matches Ok(target) && target
                == self.pos + *d),
            whence matches SeekWhence::End(d) ==> match self.size {
                Some(size) => result matches Ok(target) && target == size + *d,
                None => result matches Err(e) && e.kind == ErrorKind::SeekUnsupported
                    && e.message@ == "Cannot seek from end, because size is not known"@,
            },
    {
        match whence {
            SeekWhence::Start(p) => Ok(*p),
            SeekWhence::Current(d) => Ok(add_u64_i64(self.pos, *d)),
            SeekWhence::End(d) => match self.size {
                Some(size) => Ok(add_u64_i64(size, *d)),
                None => Err(
                    Error::new(
                        ErrorKind::SeekUnsupported,
                        "Cannot seek from end, because size is not known".to_owned(),
                    ),
                ),
            },
        }
    }

    /// Starts the reconnect a seek requires: discards the whole window and
    /// moves the position to `target`, and returns the range the transport
    /// must request, `Range { from: target, to: original to }`.
    pub fn begin_reopen(&mut self, target: u64) -> (range: Range)
        ensures
            range.from == Some(target),
            range.to == old(self).to,
            final(self).url == old(self).url,
            final(self).to == old(self).to,
            final(self).size == old(self).size,
            final(self).pos == target,
            final(self).awaiting_body(),
            final(self).wf(),
    {
        self.pos = target;
        self.window = Some(Vec::new());
        self.win_pos = 0;
        Range::new(Some(target), self.to)
    }
}

/// Reconnect equivalence: a cursor that seeks to `p` reopens against
/// `Range { from: p, to: original to }`, so once the response is in, its
/// state is the very state a fresh connect at that range with the same
/// response reaches; every later read is a function of that state and the
/// chunks pulled, so both cursors yield the same bytes when the transport
/// serves the same data.
pub proof fn lemma_reconnect_equivalence(
    sought: GcsReader,
    fresh: GcsReader,
    url: Seq<char>,
    p: u64,
    to: Option<u64>,
    size: Option<u64>,
)
    requires
        sought.opened_at(url, p, to, size),
        fresh.opened_at(url, p, to, size),
    ensures
        sought.url@ == fresh.url@,
        sought.pos == fresh.pos,
        sought.to == fresh.to,
        sought.size == fresh.size,
        sought.window_remaining() == fresh.window_remaining(),
        sought.spec_needs_chunk() == fresh.spec_needs_chunk(),
{
}

} // verus!

//! The decisions of fetching a web page as text: which addresses and
//! answers are refused, and how the body is gathered under a size limit.
use vstd::prelude::*;
use vstd::utf8::{decode_utf8, valid_utf8};
use crate::text::{chars_of, push_str, starts_with, starts_with_str, string_of, trim, trim_chars};

verus! {

/// The most bytes of a response that are kept.
pub const MAX_RESPONSE_BYTES: u64 = 2000000;

/// The seconds a request may take.
pub const REQUEST_TIMEOUT_SECONDS: u64 = 30;

/// Why a page could not be fetched.
#[derive(Debug, PartialEq, Eq, Clone)]
pub enum FetchError {
    /// The address is blank.
    EmptyUrl,
    /// The address starts with neither `http://` nor `https://`.
    InvalidScheme,
    /// The request could not be sent: the address.
    SendFailed(String),
    /// The server answered with an error status: the address and the status.
    BadStatus(String, String),
    /// The page is binary: its content type.
    BinaryContent(String),
    /// The body could not be read: the address.
    StreamFailed(String),
    /// The body is not UTF-8: the address.
    NotUtf8(String),
}

/// The message of a fetch error.
pub open spec fn fetch_error_message(e: FetchError) -> Seq<char> {
    match e {
        FetchError::EmptyUrl => "URL cannot be empty."@,
        FetchError::InvalidScheme => "Invalid URL scheme: URL must start with http:// or https://"@,
        FetchError::SendFailed(url) => "Failed to send request to URL: "@ + url@,
        FetchError::BadStatus(url, status) => "Request to "@ + url@ + " failed with status: "@
            + status@,
        FetchError::BinaryContent(ct) => "URL points to binary or non-text content ("@ + ct@
            + "). Only text-based content can be fetched."@,
        FetchError::StreamFailed(url) => "Error reading stream from URL: "@ + url@,
        FetchError::NotUtf8(url) => "Failed to decode response from "@ + url@
            + " as UTF-8. Content might be non-text or use an unsupported encoding."@,
    }
}

impl FetchError {
    /// The message that describes the error.
    pub fn message(&self) -> (r: String)
        ensures
            r@ == fetch_error_message(*self),
    {
        let mut v: Vec<char> = Vec::new();
        match self {
            FetchError::EmptyUrl => push_str(&mut v, "URL cannot be empty."),
            FetchError::InvalidScheme => push_str(
                &mut v,
                "Invalid URL scheme: URL must start with http:// or https://",
            ),
            FetchError::SendFailed(url) => {
                push_str(&mut v, "Failed to send request to URL: ");
                push_str(&mut v, url.as_str());
            },
            FetchError::BadStatus(url, status) => {
                push_str(&mut v, "Request to ");
                push_str(&mut v, url.as_str());
                push_str(&mut v, " failed with status: ");
                push_str(&mut v, status.as_str());
            },
            FetchError::BinaryContent(ct) => {
                push_str(&mut v, "URL points to binary or non-text content (");
                push_str(&mut v, ct.as_str());
                push_str(&mut v, "). Only text-based content can be fetched.");
            },
            FetchError::StreamFailed(url) => {
                push_str(&mut v, "Error reading stream from URL: ");
                push_str(&mut v, url.as_str());
            },
            FetchError::NotUtf8(url) => {
                push_str(&mut v, "Failed to decode response from ");
                push_str(&mut v, url.as_str());
                push_str(
                    &mut v,
                    " as UTF-8. Content might be non-text or use an unsupported encoding.",
                );
            },
        }
        string_of(&v)
    }
}

/// Whether an address may be fetched: it is not blank and starts with
/// `http://` or `https://`; else the error.
pub fn check_url(url: &str) -> (r: Result<(), FetchError>)
    ensures
        trim(url@).len() == 0 ==> r == Err::<(), FetchError>(FetchError::EmptyUrl),
        trim(url@).len() > 0 && !starts_with(url@, "http://"@) && !starts_with(url@, "https://"@)
            ==> r == Err::<(), FetchError>(FetchError::InvalidScheme),
        trim(url@).len() > 0 && (starts_with(url@, "http://"@) || starts_with(url@, "https://"@))
            ==> r is Ok,
{
    let u = chars_of(url);
    if trim_chars(&u).len() == 0 {
        return Err(FetchError::EmptyUrl);
    }
    if !starts_with_str(&u, "http://") && !starts_with_str(&u, "https://") {
        return Err(FetchError::InvalidScheme);
    }
    Ok(())
}

/// Whether the server's answer may be read: its status is a success; else
/// the error with the address and the status.
pub fn check_status(url: &str, success: bool, status: &str) -> (r: Result<(), FetchError>)
    ensures
        success ==> r is Ok,
        !success ==> (r matches Err(FetchError::BadStatus(u, s)) && u@ == url@ && s@ == status@),
{
    if success {
        Ok(())
    } else {
        Err(FetchError::BadStatus(string_of(&chars_of(url)), string_of(&chars_of(status))))
    }
}

/// Whether a content type names binary content: images, sound, video, PDF
/// or a plain byte stream.
pub open spec fn binary_type(ct: Seq<char>) -> bool {
    starts_with(ct, "image/"@) || starts_with(ct, "audio/"@) || starts_with(ct, "video/"@)
        || starts_with(ct, "application/pdf"@) || ct == "application/octet-stream"@
}

/// Whether the page's content type, when it has a readable one, allows it
/// to be read as text; else the error with the type.
pub fn check_content_type(content_type: Option<&str>) -> (r: Result<(), FetchError>)
    ensures
        match content_type {
            Some(ct) => if binary_type(ct@) {
                r matches Err(FetchError::BinaryContent(c)) && c@ == ct@
            } else {
                r is Ok
            },
            None => r is Ok,
        },
{
    match content_type {
        None => Ok(()),
        Some(ct) => {
            let c = chars_of(ct);
            if starts_with_str(&c, "image/") || starts_with_str(&c, "audio/") || starts_with_str(
                &c,
                "video/",
            ) || starts_with_str(&c, "application/pdf") || crate::text::eq_str(
                &c,
                "application/octet-stream",
            ) {
                Err(FetchError::BinaryContent(string_of(&c)))
            } else {
                Ok(())
            }
        },
    }
}

/// The bytes of a response body, gathered chunk by chunk up to the limit.
#[derive(Debug, Clone)]
pub struct FetchBuffer {
    buffer: Vec<u8>,
    truncated: bool,
}

/// The text a decoded body gets when it was cut at the limit.
pub open spec fn truncation_note() -> Seq<char> {
    "\n\n... (content truncated due to size limit)"@
}

/// `String::from_utf8`: the text of the bytes when they are valid UTF-8,
/// else nothing.
#[verifier::external_body]
fn utf8_text(bytes: Vec<u8>) -> (r: Option<String>)
    ensures
        r is Some <==> valid_utf8(bytes@),
        r matches Some(s) ==> s@ == decode_utf8(bytes@),
{
    String::from_utf8(bytes).ok()
}

impl FetchBuffer {
    /// The bytes gathered so far.
    pub closed spec fn bytes(&self) -> Seq<u8> {
        self.buffer@
    }

    /// Whether the body was cut at the limit.
    pub closed spec fn cut(&self) -> bool {
        self.truncated
    }

    /// The buffer holds no more than the limit.
    pub closed spec fn wf(&self) -> bool {
        self.buffer@.len() <= MAX_RESPONSE_BYTES
    }

    /// An empty buffer.
    pub fn new() -> (r: Self)
        ensures
            r.wf(),
            r.bytes().len() == 0,
            !r.cut(),
    {
        FetchBuffer { buffer: Vec::new(), truncated: false }
    }

    /// The number of bytes gathered.
    pub fn total(&self) -> (r: u64)
        requires
            self.wf(),
        ensures
            r == self.bytes().len(),
            r <= MAX_RESPONSE_BYTES,
    {
        self.buffer.len() as u64
    }

    /// Takes a chunk of the body: all of it while it fits under the limit,
    /// else as much as fits, and then the body counts as cut. Returns
    /// whether more chunks may follow.
    pub fn accept(&mut self, chunk: &[u8]) -> (more: bool)
        requires
            old(self).wf(),
            !old(self).cut(),
        ensures
            final(self).wf(),
            (final(self).bytes(), more) == accept_step(old(self).bytes(), chunk@),
            final(self).cut() == !more,
            old(self).bytes().len() + chunk@.len() <= MAX_RESPONSE_BYTES ==> (more
                && final(self).bytes() == old(self).bytes() + chunk@ && !final(self).cut()),
            old(self).bytes().len() + chunk@.len() > MAX_RESPONSE_BYTES ==> (!more
                && final(self).bytes() == old(self).bytes() + chunk@.take(
                MAX_RESPONSE_BYTES - old(self).bytes().len(),
            ) && final(self).cut()),
    {
        let total: usize = self.buffer.len();
        let limit: usize = 2000000;
        if chunk.len() > limit - total {
            let room = limit - total;
            let mut i: usize = 0;
            let ghost start = self.buffer@;
            while i < room
                invariant
                    i <= room,
                    room == limit - total,
                    room < chunk@.len(),
                    total == start.len(),
                    start.len() <= MAX_RESPONSE_BYTES,
                    limit == MAX_RESPONSE_BYTES,
                    self.buffer@ == start + chunk@.take(i as int),
                    !self.truncated,
                decreases room - i,
            {
                self.buffer.push(chunk[i]);
                assert(chunk@.take(i + 1) =~= chunk@.take(i as int).push(chunk@[i as int]));
                i = i + 1;
            }
            self.truncated = true;
            false
        } else {
            let mut i: usize = 0;
            let ghost start = self.buffer@;
            while i < chunk.len()
                invariant
                    i <= chunk.len(),
                    chunk.len() <= limit - total,
                    total == start.len(),
                    limit == MAX_RESPONSE_BYTES,
                    self.buffer@ == start + chunk@.take(i as int),
                    !self.truncated,
                decreases chunk.len() - i,
            {
                self.buffer.push(chunk[i]);
                assert(chunk@.take(i + 1) =~= chunk@.take(i as int).push(chunk@[i as int]));
                i = i + 1;
            }
            assert(chunk@.take(chunk@.len() as int) =~= chunk@);
            true
        }
    }

    /// The body as text: the gathered bytes decoded as UTF-8, with a note
    /// when the body was cut; an error when they are not UTF-8.
    pub fn finish(self, url: &str) -> (r: Result<String, FetchError>)
        ensures
            valid_utf8(self.bytes()) ==> (r matches Ok(s) && s@ == decode_utf8(self.bytes()) + (
            if self.cut() {
                truncation_note()
            } else {
                Seq::empty()
            })),
            !valid_utf8(self.bytes()) ==> (r matches Err(FetchError::NotUtf8(u)) && u@ == url@),
    {
        let cut = self.truncated;
        match utf8_text(self.buffer) {
            Some(text) => {
                let mut v = chars_of(text.as_str());
                if cut {
                    push_str(&mut v, "\n\n... (content truncated due to size limit)");
                }
                Ok(string_of(&v))
            },
            None => Err(FetchError::NotUtf8(string_of(&chars_of(url)))),
        }
    }
}

/// The bytes gathered after one more chunk, and whether more may follow:
/// all of the chunk while it fits under the limit, else as much as fits.
pub open spec fn accept_step(b: Seq<u8>, chunk: Seq<u8>) -> (Seq<u8>, bool) {
    if b.len() + chunk.len() <= MAX_RESPONSE_BYTES {
        (b + chunk, true)
    } else {
        (b + chunk.take(MAX_RESPONSE_BYTES - b.len()), false)
    }
}

/// The bytes gathered from the chunks of a body, in order, until one does
/// not fit.
pub open spec fn gather(b: Seq<u8>, chunks: Seq<Seq<u8>>) -> Seq<u8>
    decreases chunks.len(),
{
    if chunks.len() == 0 {
        b
    } else {
        let (nb, more) = accept_step(b, chunks[0]);
        if more {
            gather(nb, chunks.drop_first())
        } else {
            nb
        }
    }
}

/// The body that a fetch keeps is exactly the first bytes of the stream, up
/// to the limit: gathering the chunks in order gives the stream's bytes,
/// cut at 2,000,000.
pub proof fn law_gathered_body_is_stream_prefix(b: Seq<u8>, chunks: Seq<Seq<u8>>)
    requires
        b.len() <= MAX_RESPONSE_BYTES,
    ensures
        gather(b, chunks) == (b + chunks.flatten()).take(
            if b.len() + chunks.flatten().len() <= MAX_RESPONSE_BYTES {
                (b.len() + chunks.flatten().len()) as int
            } else {
                MAX_RESPONSE_BYTES as int
            },
        ),
    decreases chunks.len(),
{
    if chunks.len() == 0 {
        assert(chunks.flatten() =~= Seq::<u8>::empty());
        assert((b + chunks.flatten()).take(b.len() as int) =~= b);
    } else {
        let c0 = chunks[0];
        let rest = chunks.drop_first();
        assert(chunks.flatten() == c0 + rest.flatten());
        assert(b + chunks.flatten() =~= (b + c0) + rest.flatten());
        if b.len() + c0.len() <= MAX_RESPONSE_BYTES {
            law_gathered_body_is_stream_prefix(b + c0, rest);
        } else {
            assert((b + chunks.flatten()).take(MAX_RESPONSE_BYTES as int) =~= b + c0.take(
                MAX_RESPONSE_BYTES - b.len(),
            ));
        }
    }
}


/// Images, sound and video are binary whatever their subtype, and so are
/// PDF files and raw byte streams; text of any subtype is not.
pub proof fn law_media_types_are_binary(sub: Seq<char>)
    ensures
        binary_type("image/"@ + sub),
        binary_type("audio/"@ + sub),
        binary_type("video/"@ + sub),
        binary_type("application/pdf"@ + sub),
        binary_type("application/octet-stream"@),
        !binary_type("text/"@ + sub),
{
    reveal_strlit("image/");
    reveal_strlit("audio/");
    reveal_strlit("video/");
    reveal_strlit("application/pdf");
    reveal_strlit("application/octet-stream");
    reveal_strlit("text/");
    assert(("image/"@ + sub).take(6) =~= "image/"@);
    assert(("audio/"@ + sub).take(6) =~= "audio/"@);
    assert(("video/"@ + sub).take(6) =~= "video/"@);
    assert(("application/pdf"@ + sub).take(15) =~= "application/pdf"@);
    assert("application/octet-stream"@.take(6) != "image/"@) by {
        assert("application/octet-stream"@.take(6)[0] != "image/"@[0]);
    }
    let t = "text/"@ + sub;
    assert(t[0] == 't');
    assert(!starts_with(t, "image/"@)) by {
        if t.len() >= 6 {
            assert(t.take(6)[0] != "image/"@[0]);
        }
    }
    assert(!starts_with(t, "audio/"@)) by {
        if t.len() >= 6 {
            assert(t.take(6)[0] != "audio/"@[0]);
        }
    }
    assert(!starts_with(t, "video/"@)) by {
        if t.len() >= 6 {
            assert(t.take(6)[0] != "video/"@[0]);
        }
    }
    assert(!starts_with(t, "application/pdf"@)) by {
        if t.len() >= 15 {
            assert(t.take(15)[0] != "application/pdf"@[0]);
        }
    }
    assert(t != "application/octet-stream"@) by {
        assert("application/octet-stream"@[0] != t[0]);
    }
}

} // verus!

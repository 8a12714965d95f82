use vstd::prelude::*;

use std::io::Read;
use std::io::Write;

use crate::text::cat;
use crate::text::chars_of;
use crate::text::contains;
use crate::text::contains_chars;
use crate::text::str_eq;

verus! {

// ── gzip ───────────────────────────────────────────────────────────

/// The gzip stream that `flate2::write::GzEncoder` at compression level 6 writes for
/// `data`, or `None` where encoding fails.
pub uninterp spec fn gzip_of(data: Seq<u8>) -> Option<Seq<u8>>;

/// The bytes that `flate2::read::GzDecoder` reads out of a gzip stream, or `None` where
/// the stream does not decode.
pub uninterp spec fn gunzip_of(data: Seq<u8>) -> Option<Seq<u8>>;

/// The bytes of an optional buffer.
pub open spec fn opt_bytes(o: Option<Vec<u8>>) -> Option<Seq<u8>> {
    match o {
        Some(v) => Some(v@),
        None => None,
    }
}

/// `flate2::write::GzEncoder` at level 6 over a `Vec`, written and finished; its result
/// is named `gzip_of`, and a stream it writes decodes back to the data.
#[verifier::external_body]
fn gzip_level6(data: &[u8]) -> (r: Option<Vec<u8>>)
    ensures
        opt_bytes(r) == gzip_of(data@),
        match r {
            Some(z) => gunzip_of(z@) == Some(data@),
            None => true,
        },
{
    let mut encoder = flate2::write::GzEncoder::new(Vec::new(), flate2::Compression::new(6));
    match encoder.write_all(data) {
        Ok(()) => encoder.finish().ok(),
        Err(_) => None,
    }
}

/// `flate2::read::GzDecoder` read to the end; its result is named `gunzip_of`.
#[verifier::external_body]
fn gunzip(data: &[u8]) -> (r: Option<Vec<u8>>)
    ensures
        opt_bytes(r) == gunzip_of(data@),
{
    let mut decoder = flate2::read::GzDecoder::new(data);
    let mut out = Vec::new();
    match decoder.read_to_end(&mut out) {
        Ok(_) => Some(out),
        Err(_) => None,
    }
}

// ── Timeline replies ───────────────────────────────────────────────

/// The entity tag of a fingerprint: the fingerprint in double quotes.
pub open spec fn etag_of(fp: Seq<char>) -> Seq<char> {
    "\""@ + fp + "\""@
}

/// The entity tag of a fingerprint.
pub fn etag_for(fp: &str) -> (r: String)
    ensures
        r@ == etag_of(fp@),
{
    let a = cat("\"", fp);
    cat(a.as_str(), "\"")
}

/// Whether an `Accept-Encoding` value admits gzip.
pub fn accepts_gzip(accept_encoding: &str) -> (r: bool)
    ensures
        r == contains(accept_encoding@, "gzip"@),
{
    let a = chars_of(accept_encoding);
    let g = chars_of("gzip");
    contains_chars(a.as_slice(), g.as_slice())
}

/// How the timeline payload is answered.
pub enum TimelineReply {
    /// 304, the client's copy is current.
    NotModified { etag: String },
    /// The body is gzip; `vary` marks a reply that depends on `Accept-Encoding`.
    Compressed { etag: Option<String>, body: Vec<u8>, vary: bool },
    /// The body is the JSON payload as it is.
    Plain { etag: Option<String>, body: Vec<u8> },
    /// 500.
    Failed,
}

/// A reply as plain values.
pub enum ReplyView {
    NotModified(Seq<char>),
    Compressed(Option<Seq<char>>, Seq<u8>, bool),
    Plain(Option<Seq<char>>, Seq<u8>),
    Failed,
}

/// The characters of an optional string.
pub open spec fn opt_chars(o: Option<String>) -> Option<Seq<char>> {
    match o {
        Some(s) => Some(s@),
        None => None,
    }
}

/// The plain values of a reply.
pub open spec fn reply_view(r: TimelineReply) -> ReplyView {
    match r {
        TimelineReply::NotModified { etag } => ReplyView::NotModified(etag@),
        TimelineReply::Compressed { etag, body, vary } => ReplyView::Compressed(opt_chars(etag), body@, vary),
        TimelineReply::Plain { etag, body } => ReplyView::Plain(opt_chars(etag), body@),
        TimelineReply::Failed => ReplyView::Failed,
    }
}

/// The JSON payload a reply delivers once its encoding is undone (none for 304 or 500).
pub open spec fn served_payload(v: ReplyView) -> Option<Seq<u8>> {
    match v {
        ReplyView::Compressed(_, body, _) => gunzip_of(body),
        ReplyView::Plain(_, body) => Some(body),
        _ => None,
    }
}

/// The reply from a cached gzip payload: 304 when the client sent the entity tag, the
/// cached bytes when it accepts gzip, else the cached bytes decoded (500 when they do
/// not decode).
pub open spec fn cached_reply_spec(fp: Seq<char>, cached: Seq<u8>, if_none_match: Option<Seq<char>>, accept_encoding: Seq<char>) -> ReplyView {
    let etag = etag_of(fp);
    if if_none_match == Some(etag) {
        ReplyView::NotModified(etag)
    } else if contains(accept_encoding, "gzip"@) {
        ReplyView::Compressed(Some(etag), cached, true)
    } else {
        match gunzip_of(cached) {
            Some(d) => ReplyView::Plain(Some(etag), d),
            None => ReplyView::Failed,
        }
    }
}

/// Answers a timeline request from the cached gzip payload of a session whose file has
/// fingerprint `fp`. `if_none_match` is the request's `If-None-Match` value ("" when it
/// is not visible ASCII).
pub fn serve_cached(fp: &str, cached: Vec<u8>, if_none_match: Option<&str>, accept_encoding: &str) -> (r: TimelineReply)
    ensures
        reply_view(r) == cached_reply_spec(
            fp@,
            cached@,
            match if_none_match {
                Some(s) => Some(s@),
                None => None,
            },
            accept_encoding@,
        ),
{
    let etag = etag_for(fp);
    let fresh_enough = match if_none_match {
        Some(v) => str_eq(v, etag.as_str()),
        None => false,
    };
    if fresh_enough {
        return TimelineReply::NotModified { etag };
    }
    if accepts_gzip(accept_encoding) {
        TimelineReply::Compressed { etag: Some(etag), body: cached, vary: true }
    } else {
        match gunzip(cached.as_slice()) {
            Some(d) => TimelineReply::Plain { etag: Some(etag), body: d },
            None => TimelineReply::Failed,
        }
    }
}

/// A freshly built reply and the gzip payload to cache for it, if any.
pub struct FreshReply {
    pub reply: TimelineReply,
    pub cache_payload: Option<Vec<u8>>,
}

/// The entity tag of an optional fingerprint.
pub open spec fn opt_etag(fp: Option<Seq<char>>) -> Option<Seq<char>> {
    match fp {
        Some(f) => Some(etag_of(f)),
        None => None,
    }
}

/// The reply to a timeline request from a freshly built payload `body`: gzip when the
/// client accepts it (500 when encoding fails), else the body as it is.
pub open spec fn fresh_reply_spec(body: Seq<u8>, fp: Option<Seq<char>>, accept_encoding: Seq<char>) -> ReplyView {
    if contains(accept_encoding, "gzip"@) {
        match gzip_of(body) {
            Some(z) => ReplyView::Compressed(opt_etag(fp), z, false),
            None => ReplyView::Failed,
        }
    } else {
        ReplyView::Plain(opt_etag(fp), body)
    }
}

/// What is cached for a freshly built payload: its gzip form, when the file has a
/// fingerprint and encoding succeeds.
pub open spec fn cache_payload_spec(body: Seq<u8>, fp: Option<Seq<char>>) -> Option<Seq<u8>> {
    match fp {
        Some(_) => gzip_of(body),
        None => None,
    }
}

/// Answers a timeline request from a freshly built payload, and gives the gzip payload
/// to cache under the file's fingerprint; what is cached decodes back to the payload.
pub fn fresh_reply(body: Vec<u8>, fp: Option<&str>, accept_encoding: &str) -> (r: FreshReply)
    ensures
        reply_view(r.reply) == fresh_reply_spec(
            body@,
            match fp {
                Some(f) => Some(f@),
                None => None,
            },
            accept_encoding@,
        ),
        opt_bytes(r.cache_payload) == cache_payload_spec(
            body@,
            match fp {
                Some(f) => Some(f@),
                None => None,
            },
        ),
        match r.cache_payload {
            Some(z) => gunzip_of(z@) == Some(body@),
            None => true,
        },
        served_payload(reply_view(r.reply)) is Some ==> served_payload(reply_view(r.reply)) == Some(body@),
{
    let etag = match fp {
        Some(f) => Some(etag_for(f)),
        None => None,
    };
    let gzip = accepts_gzip(accept_encoding);
    let compressed = if fp.is_some() || gzip {
        gzip_level6(body.as_slice())
    } else {
        None
    };
    let cache_payload = match fp {
        Some(_) => match &compressed {
            Some(z) => Some(z.clone()),
            None => None,
        },
        None => None,
    };
    let reply = if gzip {
        match compressed {
            Some(z) => TimelineReply::Compressed { etag, body: z, vary: false },
            None => TimelineReply::Failed,
        }
    } else {
        TimelineReply::Plain { etag, body }
    };
    FreshReply { reply, cache_payload }
}

/// What the cache answers is what was built: when a cached payload decodes to `body`, a
/// request that does not already hold the current entity tag is served `body`, whether
/// or not it accepts gzip.
pub proof fn lemma_cached_reply_serves_payload(
    fp: Seq<char>,
    cached: Seq<u8>,
    body: Seq<u8>,
    if_none_match: Option<Seq<char>>,
    accept_encoding: Seq<char>,
)
    requires
        gunzip_of(cached) == Some(body),
        if_none_match != Some(etag_of(fp)),
    ensures
        served_payload(cached_reply_spec(fp, cached, if_none_match, accept_encoding)) == Some(body),
{
}


/// A request that already holds the current entity tag is answered 304 with that tag,
/// whatever is cached and whatever encodings it accepts.
pub proof fn lemma_current_etag_not_modified(fp: Seq<char>, cached: Seq<u8>, accept_encoding: Seq<char>)
    ensures
        cached_reply_spec(fp, cached, Some(etag_of(fp)), accept_encoding) == ReplyView::NotModified(etag_of(fp)),
{
}

} // verus!

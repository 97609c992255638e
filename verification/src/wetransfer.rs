//! The WeTransfer-style link-resolution protocol: rewriting a short link to
//! the canonical host, parsing the transfer URL into its meaningful path
//! segments, framing the signed negotiation request body, reading the
//! direct link out of the negotiation response, and deriving the suggested
//! file name from the direct link's path.
use crate::text;
use crate::DownloadError;
use vstd::prelude::*;
use vstd::string::*;

verus! {

/// The identifiers a transfer URL carries: the transfer id, an optional
/// recipient id, and the security hash (with any trailing query string
/// already stripped).
pub struct TransferParams {
    pub transfer_id: String,
    pub recipient_id: Option<String>,
    pub security_hash: String,
}

/// The mathematical value of a `TransferParams`.
pub struct TransferParamsV {
    pub transfer_id: Seq<char>,
    pub recipient_id: Option<Seq<char>>,
    pub security_hash: Seq<char>,
}

impl View for TransferParams {
    type V = TransferParamsV;

    open spec fn view(&self) -> TransferParamsV {
        TransferParamsV {
            transfer_id: self.transfer_id@,
            recipient_id: self.recipient_id.deep_view(),
            security_hash: self.security_hash@,
        }
    }
}

/// Whether the URL points at the short-link host, whose redirect must be
/// followed before the path can be parsed.
pub fn needs_redirect(url: &str) -> (r: bool)
    ensures
        r == crate::starts_with_spec(url@, "https://we.tl/"@),
{
    text::str_starts_with(url, "https://we.tl/")
}

/// The canonical long-form URL: the redirect's resolved path rewritten onto
/// the canonical host.
pub fn rewrite_canonical(path: &str) -> (r: String)
    ensures
        r@ == "https://wetransfer.com"@ + path@,
{
    let mut r = String::from_str("https://wetransfer.com");
    r.append(path);
    r
}

/// What parsing a canonical transfer URL yields. The URL is split at `/`;
/// the first four pieces are scheme/host boilerplate. Exactly 2 meaningful
/// segments: transfer id and security hash; exactly 3: transfer id,
/// recipient id and security hash. A query string is stripped only from the
/// last segment. Any other count is rejected.
pub open spec fn parse_transfer_spec(url: Seq<char>) -> Option<TransferParamsV> {
    let parts = text::split_spec(url, '/');
    if parts.len() < 6 {
        None
    } else {
        let segs = parts.skip(4);
        if segs.len() == 2 {
            Some(
                TransferParamsV {
                    transfer_id: segs[0],
                    recipient_id: None,
                    security_hash: text::before_char(segs[1], '?'),
                },
            )
        } else if segs.len() == 3 {
            Some(
                TransferParamsV {
                    transfer_id: segs[0],
                    recipient_id: Some(segs[1]),
                    security_hash: text::before_char(segs[2], '?'),
                },
            )
        } else {
            None
        }
    }
}

/// Parses a canonical transfer URL into the identifiers the negotiation
/// needs, rejecting any URL without exactly 2 or 3 meaningful path segments.
pub fn parse_transfer_url(url: &str) -> (r: Result<TransferParams, DownloadError>)
    ensures
        match r {
            Ok(p) => parse_transfer_spec(url@) == Some(p@),
            Err(e) => parse_transfer_spec(url@) is None && e == DownloadError::InvalidUrl,
        },
{
    let parts = text::split_char(url, '/');
    if parts.len() < 6 {
        return Err(DownloadError::InvalidUrl);
    }
    if parts.len() == 6 {
        let hash = text::strip_after(parts[5].as_str(), '?');
        Ok(
            TransferParams {
                transfer_id: parts[4].clone(),
                recipient_id: None,
                security_hash: String::from_str(hash),
            },
        )
    } else if parts.len() == 7 {
        let hash = text::strip_after(parts[6].as_str(), '?');
        Ok(
            TransferParams {
                transfer_id: parts[4].clone(),
                recipient_id: Some(parts[5].clone()),
                security_hash: String::from_str(hash),
            },
        )
    } else {
        Err(DownloadError::InvalidUrl)
    }
}

/// The per-transfer download-negotiation endpoint.
pub fn negotiation_endpoint(transfer_id: &str) -> (r: String)
    ensures
        r@ == "https://wetransfer.com/api/v4/transfers/"@ + transfer_id@ + "/download"@,
{
    let mut r = String::from_str("https://wetransfer.com/api/v4/transfers/");
    r.append(transfer_id);
    r.append("/download");
    r
}

/// The hexadecimal digit character for `d`, lower case.
pub open spec fn hex_digit_char(d: int) -> char {
    if d < 10 {
        ((48 + d) as u8) as char
    } else {
        ((87 + d) as u8) as char
    }
}

/// How one character is written inside a JSON string literal: quote and
/// backslash get a backslash escape, the five short control escapes are
/// used where they exist, any other control character is written as a
/// `\u00..` escape, and everything else stands as itself.
pub open spec fn json_escaped_char(c: char) -> Seq<char> {
    if c == '"' {
        seq!['\\', '"']
    } else if c == '\\' {
        seq!['\\', '\\']
    } else if c == '\u{8}' {
        seq!['\\', 'b']
    } else if c == '\u{c}' {
        seq!['\\', 'f']
    } else if c == '\n' {
        seq!['\\', 'n']
    } else if c == '\r' {
        seq!['\\', 'r']
    } else if c == '\t' {
        seq!['\\', 't']
    } else if (c as int) < 32 {
        seq!['\\', 'u', '0', '0', hex_digit_char(c as int / 16), hex_digit_char(c as int % 16)]
    } else {
        seq![c]
    }
}

/// The body of a JSON string literal holding `s`.
pub open spec fn json_escaped(s: Seq<char>) -> Seq<char>
    decreases s.len(),
{
    if s.len() == 0 {
        Seq::empty()
    } else {
        json_escaped_char(s[0]) + json_escaped(s.drop_first())
    }
}

/// Writes `s` as the body of a JSON string literal.
fn json_escape(s: &str) -> (r: String)
    ensures
        r@ == json_escaped(s@),
{
    let n = s.unicode_len();
    let mut out = String::new();
    let mut i: usize = 0;
    proof {
        assert(s@.skip(0) =~= s@);
        assert(out@ + json_escaped(s@) =~= json_escaped(s@));
    }
    while i < n
        invariant
            i <= n,
            n == s@.len(),
            out@ + json_escaped(s@.skip(i as int)) == json_escaped(s@),
        decreases n - i,
    {
        let ghost pre = out@;
        let ghost rest = s@.skip(i as int);
        let c = s.get_char(i);
        proof {
            assert(rest[0] == c);
            assert(rest.skip(1) =~= s@.skip(i + 1));
            assert(json_escaped(rest) == json_escaped_char(c) + json_escaped(s@.skip(i + 1)));
        }
        if c == '"' {
            text::push_char(&mut out, '\\');
            text::push_char(&mut out, '"');
        } else if c == '\\' {
            text::push_char(&mut out, '\\');
            text::push_char(&mut out, '\\');
        } else if c == '\u{8}' {
            text::push_char(&mut out, '\\');
            text::push_char(&mut out, 'b');
        } else if c == '\u{c}' {
            text::push_char(&mut out, '\\');
            text::push_char(&mut out, 'f');
        } else if c == '\n' {
            text::push_char(&mut out, '\\');
            text::push_char(&mut out, 'n');
        } else if c == '\r' {
            text::push_char(&mut out, '\\');
            text::push_char(&mut out, 'r');
        } else if c == '\t' {
            text::push_char(&mut out, '\\');
            text::push_char(&mut out, 't');
        } else if (c as u32) < 32 {
            let code = c as u32;
            let hi = hex_char((code / 16) as u8);
            let lo = hex_char((code % 16) as u8);
            text::push_char(&mut out, '\\');
            text::push_char(&mut out, 'u');
            text::push_char(&mut out, '0');
            text::push_char(&mut out, '0');
            text::push_char(&mut out, hi);
            text::push_char(&mut out, lo);
        } else {
            text::push_char(&mut out, c);
        }
        proof {
            assert(out@ =~= pre + json_escaped_char(c));
            assert(out@ + json_escaped(s@.skip(i + 1)) =~= pre + json_escaped(rest));
        }
        i += 1;
    }
    proof {
        assert(s@.skip(n as int) =~= Seq::<char>::empty());
        assert(out@ =~= out@ + json_escaped(s@.skip(n as int)));
    }
    out
}

/// The hexadecimal digit character for `d`, lower case.
fn hex_char(d: u8) -> (c: char)
    requires
        d < 16,
    ensures
        c == hex_digit_char(d as int),
{
    if d < 10 {
        ((48 + d) as u8) as char
    } else {
        ((87 + d) as u8) as char
    }
}

/// The negotiation request body for `p`: a JSON object with the security
/// hash, the fixed intent `entire_transfer`, and the recipient id only when
/// one is present (the field is omitted entirely, not sent as null).
pub open spec fn request_body_spec(p: TransferParamsV) -> Seq<char> {
    match p.recipient_id {
        Some(rid) => "{\"recipient_id\":\""@ + json_escaped(rid) + "\",\"security_hash\":\""@
            + json_escaped(p.security_hash) + "\",\"intent\":\"entire_transfer\"}"@,
        None => "{\"security_hash\":\""@ + json_escaped(p.security_hash)
            + "\",\"intent\":\"entire_transfer\"}"@,
    }
}

/// Frames the signed negotiation request body for `p`.
pub fn request_body(p: &TransferParams) -> (r: String)
    ensures
        r@ == request_body_spec(p@),
{
    match &p.recipient_id {
        Some(rid) => {
            let mut r = String::from_str("{\"recipient_id\":\"");
            r.append(json_escape(rid.as_str()).as_str());
            r.append("\",\"security_hash\":\"");
            r.append(json_escape(p.security_hash.as_str()).as_str());
            r.append("\",\"intent\":\"entire_transfer\"}");
            r
        },
        None => {
            let mut r = String::from_str("{\"security_hash\":\"");
            r.append(json_escape(p.security_hash.as_str()).as_str());
            r.append("\",\"intent\":\"entire_transfer\"}");
            r
        },
    }
}

/// The one POST the negotiation makes: where to send it and what to send.
pub struct NegotiationRequest {
    pub endpoint: String,
    pub body: String,
}

/// Turns a canonical transfer URL into the negotiation POST: the
/// per-transfer endpoint and the signed JSON body, or `InvalidUrl` when the
/// URL does not parse.
pub fn prepare_negotiation(canonical_url: &str) -> (r: Result<NegotiationRequest, DownloadError>)
    ensures
        match r {
            Ok(req) => parse_transfer_spec(canonical_url@) matches Some(p) && req.endpoint@
                == "https://wetransfer.com/api/v4/transfers/"@ + p.transfer_id + "/download"@
                && req.body@ == request_body_spec(p),
            Err(e) => parse_transfer_spec(canonical_url@) is None && e == DownloadError::InvalidUrl,
        },
{
    let params = match parse_transfer_url(canonical_url) {
        Ok(p) => p,
        Err(e) => {
            return Err(e);
        },
    };
    let endpoint = negotiation_endpoint(params.transfer_id.as_str());
    let body = request_body(&params);
    Ok(NegotiationRequest { endpoint, body })
}

/// The string under the key `direct_link` of the top-level JSON object that
/// `text` denotes, when `text` is valid JSON, its top level is an object,
/// that key is present, and its value is a string.
pub uninterp spec fn json_direct_link(text: Seq<char>) -> Option<Seq<char>>;

/// Relies on `serde_json::from_str::<serde_json::Value>`, `Value::get` and
/// `Value::as_str`: parses the negotiation response and hands back the
/// string under the top-level key `direct_link`, or nothing when the text
/// is not valid JSON or holds no such string.
#[verifier::external_body]
fn extract_direct_link(text: &str) -> (r: Option<String>)
    ensures
        match r {
            Some(s) => json_direct_link(text@) == Some(s@),
            None => json_direct_link(text@) is None,
        },
{
    match serde_json::from_str::<serde_json::Value>(text) {
        Ok(v) => v.get("direct_link").and_then(|d| d.as_str()).map(|s| s.to_owned()),
        Err(_) => None,
    }
}

/// Reads the direct, streamable link out of the negotiation response,
/// failing the protocol when the response carries no `direct_link` string.
pub fn direct_link_from_response(text: &str) -> (r: Result<String, DownloadError>)
    ensures
        match r {
            Ok(s) => json_direct_link(text@) == Some(s@),
            Err(e) => json_direct_link(text@) is None && e == DownloadError::Protocol,
        },
{
    match extract_direct_link(text) {
        Some(link) => Ok(link),
        None => Err(DownloadError::Protocol),
    }
}

/// The upstream-suggested file name: the final segment of the direct
/// link's path, with the space encoding decoded.
pub fn suggested_file_name(final_url_path: &str) -> (r: String)
    ensures
        r@ == text::decode_spaces(text::after_last_char(final_url_path@, '/')),
{
    let last = text::suffix_after_last(final_url_path, '/');
    text::decode_space_encoding(last)
}

} // verus!

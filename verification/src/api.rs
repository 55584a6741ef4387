//! The remote record protocol: the data carried by the two Cloudflare
//! operations, the reading of their shared response envelope, and the exact
//! request text (path, authorization header, update payload) that the
//! transport sends.

use vstd::prelude::*;
use vstd::string::StrSliceExecFns;

use crate::error::{record_failure_chars, update_failure_chars, Error};
use crate::ip::{ip_chars, ip_string, IpAddress};
use crate::text::{append_char, append_decimal, append_str, hex_digit, spec_decimal};

verus! {

/// A snapshot of the remote record, replaced wholesale on every confirmed
/// update.
#[derive(Debug, Clone)]
pub struct RecordDetails {
    pub record_type: String,
    pub name: String,
    pub content: IpAddress,
    pub ttl: u64,
    pub proxied: bool,
}

/// One error entry of a response envelope.
#[derive(Debug, Clone)]
pub struct ApiMessage {
    pub code: u32,
    pub message: String,
}

/// The response envelope shared by both remote operations.
#[derive(Debug, Clone)]
pub struct ApiResponse {
    pub success: bool,
    pub errors: Option<Vec<ApiMessage>>,
    pub result: Option<RecordDetails>,
}

/// The payload of a record update: the cached record's fields with the new
/// address.
#[derive(Debug, Clone)]
pub struct UpdateRequest {
    pub record_type: String,
    pub ttl: u64,
    pub name: String,
    pub content: IpAddress,
    pub proxied: bool,
}

/// The rendered text of one envelope error entry.
pub open spec fn message_chars(m: ApiMessage) -> Seq<char> {
    "Cloudflare \u{54cd}\u{5e94}\u{4ee3}\u{7801} "@ + spec_decimal(m.code as nat) + "\u{ff1a}"@ + m.message@
}

/// The rendered entries joined by the fullwidth semicolon `\u{ff1b}`.
pub open spec fn joined_chars(msgs: Seq<ApiMessage>) -> Seq<char>
    decreases msgs.len(),
{
    if msgs.len() == 0 {
        Seq::empty()
    } else if msgs.len() == 1 {
        message_chars(msgs[0])
    } else {
        joined_chars(msgs.drop_last()) + "\u{ff1b}"@ + message_chars(msgs.last())
    }
}

/// An envelope that reports success and carries a record.
pub open spec fn envelope_ok(r: ApiResponse) -> bool {
    r.success && r.result is Some
}

/// The joined error entries of a failed envelope, if it carries any.
pub open spec fn envelope_reason(r: ApiResponse) -> Option<Seq<char>> {
    match r.errors {
        Some(v) => Some(joined_chars(v@)),
        None => None,
    }
}

/// Renders one envelope error entry.
fn message_text(m: &ApiMessage) -> (s: String)
    ensures
        s@ == message_chars(*m),
{
    let mut s = "Cloudflare \u{54cd}\u{5e94}\u{4ee3}\u{7801} ".to_owned();
    append_decimal(&mut s, m.code as u64);
    append_str(&mut s, "\u{ff1a}");
    append_str(&mut s, m.message.as_str());
    s
}

/// Joins the envelope's error entries with the fullwidth semicolon,
/// keeping the absence of the
/// whole list apart from an empty list.
pub fn joined_messages(errors: Option<Vec<ApiMessage>>) -> (r: Option<String>)
    ensures
        match errors {
            Some(v) => r matches Some(s) && s@ == joined_chars(v@),
            None => r is None,
        },
{
    match errors {
        None => None,
        Some(v) => {
            let mut out = String::new();
            let mut i: usize = 0;
            while i < v.len()
                invariant
                    i <= v@.len(),
                    out@ == joined_chars(v@.take(i as int)),
                decreases v@.len() - i,
            {
                if i > 0 {
                    append_str(&mut out, "\u{ff1b}");
                }
                let m = message_text(&v[i]);
                append_str(&mut out, m.as_str());
                proof {
                    assert(v@.take(i + 1).drop_last() =~= v@.take(i as int));
                    assert(v@.take(i + 1).last() == v@[i as int]);
                }
                i = i + 1;
            }
            proof {
                assert(v@.take(v@.len() as int) =~= v@);
            }
            Some(out)
        },
    }
}

/// Reads a fetch-record envelope: the record on success, the record-fetch
/// failure with the joined error entries otherwise.
pub fn interpret_fetch_response(r: ApiResponse) -> (out: Result<RecordDetails, Error>)
    ensures
        envelope_ok(r) ==> (out matches Ok(d) && r.result == Some(d)),
        !envelope_ok(r) ==> (out matches Err(e) && e@ == record_failure_chars(envelope_reason(r))),
{
    let ApiResponse { success, errors, result } = r;
    if success {
        if let Some(d) = result {
            return Ok(d);
        }
    }
    Err(Error::cloudflare_record_failure(joined_messages(errors)))
}

/// Reads an update-record envelope: the record on success, the record-update
/// failure with the joined error entries otherwise.
pub fn interpret_update_response(r: ApiResponse) -> (out: Result<RecordDetails, Error>)
    ensures
        envelope_ok(r) ==> (out matches Ok(d) && r.result == Some(d)),
        !envelope_ok(r) ==> (out matches Err(e) && e@ == update_failure_chars(envelope_reason(r))),
{
    let ApiResponse { success, errors, result } = r;
    if success {
        if let Some(d) = result {
            return Ok(d);
        }
    }
    Err(Error::cloudflare_update_failure(joined_messages(errors)))
}

/// The request path shared by both record operations.
pub open spec fn record_url_chars(zone_id: Seq<char>, id: Seq<char>) -> Seq<char> {
    "https://api.cloudflare.com/client/v4/zones/"@ + zone_id + "/dns_records/"@ + id
}

/// Renders the request path of a record.
pub fn record_url(zone_id: &str, id: &str) -> (u: String)
    ensures
        u@ == record_url_chars(zone_id@, id@),
{
    let mut u = "https://api.cloudflare.com/client/v4/zones/".to_owned();
    append_str(&mut u, zone_id);
    append_str(&mut u, "/dns_records/");
    append_str(&mut u, id);
    u
}

/// The authorization header value.
pub open spec fn bearer_chars(token: Seq<char>) -> Seq<char> {
    "Bearer "@ + token
}

/// Renders the authorization header value.
pub fn bearer_token(token: &str) -> (h: String)
    ensures
        h@ == bearer_chars(token@),
{
    let mut h = "Bearer ".to_owned();
    append_str(&mut h, token);
    h
}

/// One character escaped for a JSON string literal: quotes and backslashes
/// get a backslash, control characters the `\u00..` form, everything else
/// stands as it is.
pub open spec fn json_escaped_char(c: char) -> Seq<char> {
    if c == '"' {
        seq!['\\', '"']
    } else if c == '\\' {
        seq!['\\', '\\']
    } else if (c as nat) < 32 {
        seq!['\\', 'u', '0', '0', hex_digit((c as nat) / 16), hex_digit((c as nat) % 16)]
    } else {
        seq![c]
    }
}

/// A whole character sequence escaped for a JSON string literal.
pub open spec fn json_escaped(s: Seq<char>) -> Seq<char>
    decreases s.len(),
{
    if s.len() == 0 {
        Seq::empty()
    } else {
        json_escaped(s.drop_last()) + json_escaped_char(s.last())
    }
}

/// Appends `s` escaped for a JSON string literal.
fn append_json_escaped(out: &mut String, s: &str)
    ensures
        final(out)@ == old(out)@ + json_escaped(s@),
{
    let n = s.unicode_len();
    let mut i: usize = 0;
    while i < n
        invariant
            i <= n,
            n == s@.len(),
            out@ == old(out)@ + json_escaped(s@.take(i as int)),
        decreases n - i,
    {
        let c = s.get_char(i);
        if c == '"' {
            append_str(out, "\\\"");
            proof {
                reveal_strlit("\\\"");
            }
        } else if c == '\\' {
            append_str(out, "\\\\");
            proof {
                reveal_strlit("\\\\");
            }
        } else if (c as u32) < 32 {
            let v = c as u32;
            append_str(out, "\\u00");
            append_hex_digit_char(out, (v / 16) as u8);
            append_hex_digit_char(out, (v % 16) as u8);
            proof {
                reveal_strlit("\\u00");
            }
        } else {
            append_char(out, c);
        }
        proof {
            assert(s@.take(i + 1).drop_last() =~= s@.take(i as int));
            assert(s@.take(i + 1).last() == s@[i as int]);
            assert(out@ =~= old(out)@ + json_escaped(s@.take(i + 1)));
        }
        i = i + 1;
    }
    proof {
        assert(s@.take(n as int) =~= s@);
    }
}

/// Appends one hexadecimal digit character.
fn append_hex_digit_char(out: &mut String, d: u8)
    requires
        d < 16,
    ensures
        final(out)@ == old(out)@.push(hex_digit(d as nat)),
{
    if d < 10 {
        append_char(out, (48 + d) as char);
    } else {
        append_char(out, (87 + d) as char);
    }
}

/// The JSON payload of a record update, with the fields in the fixed order
/// the transport sends.
pub open spec fn update_body_chars(r: UpdateRequest) -> Seq<char> {
    "{\"type\":\""@ + json_escaped(r.record_type@) + "\",\"ttl\":"@ + spec_decimal(r.ttl as nat)
        + ",\"name\":\""@ + json_escaped(r.name@) + "\",\"content\":\""@ + ip_chars(r.content)
        + "\",\"proxied\":"@ + (if r.proxied {
        "true"@
    } else {
        "false"@
    }) + "}"@
}

/// Renders the JSON payload of a record update.
pub fn update_body(r: &UpdateRequest) -> (b: String)
    ensures
        b@ == update_body_chars(*r),
{
    let mut b = "{\"type\":\"".to_owned();
    append_json_escaped(&mut b, r.record_type.as_str());
    append_str(&mut b, "\",\"ttl\":");
    append_decimal(&mut b, r.ttl);
    append_str(&mut b, ",\"name\":\"");
    append_json_escaped(&mut b, r.name.as_str());
    append_str(&mut b, "\",\"content\":\"");
    let ip = ip_string(&r.content);
    append_str(&mut b, ip.as_str());
    append_str(&mut b, "\",\"proxied\":");
    if r.proxied {
        append_str(&mut b, "true");
    } else {
        append_str(&mut b, "false");
    }
    append_str(&mut b, "}");
    assert(b@ =~= update_body_chars(*r));
    b
}

} // verus!

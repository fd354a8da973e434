//! The PowerDNS side: the request that replaces a record's `A` set with one
//! address, and how the server's answer is judged.
use vstd::prelude::*;
use vstd::utf8::encode_utf8;
use crate::config::{
    AppConfig, RecordTarget, normalized_dns_name, normalized_record_name,
    law_normalized_dns_name_idempotent,
};
use crate::text::{is_white_space, trimmed, lemma_trim_of_untrimmable};

verus! {

/// One record of an `rrset`.
#[derive(Clone, Debug)]
pub struct RecordContent {
    pub content: String,
    pub disabled: bool,
}

/// A change to one `rrset` (its type is sent as `type`).
#[derive(Clone, Debug)]
pub struct RrsetChange {
    pub name: String,
    pub record_type: String,
    pub ttl: u32,
    pub changetype: String,
    pub records: Vec<RecordContent>,
}

/// The body of a PowerDNS zone update.
#[derive(Clone, Debug)]
pub struct PowerDnsUpdateRequest {
    pub rrsets: Vec<RrsetChange>,
}

/// Everything needed to send one record update: where to send it, the API
/// key to send with it, and the body.
#[derive(Clone, Debug)]
pub struct RecordUpdate {
    pub url: String,
    pub api_key: String,
    pub payload: PowerDnsUpdateRequest,
}

/// Why PowerDNS did not accept an update.
#[derive(Clone, Debug)]
pub enum UpdateError {
    /// The server answered with a status outside 200 to 299; the record's
    /// absolute name, the status and the answer's body.
    Rejected { name: String, status: u16, body: String },
}

/// A byte that URL encoding leaves as it is: an ASCII letter or digit, or one
/// of `-`, `.`, `_`, `~`.
pub open spec fn is_unreserved(b: u8) -> bool {
    ||| 48 <= b <= 57
    ||| 65 <= b <= 90
    ||| 97 <= b <= 122
    ||| b == 45
    ||| b == 46
    ||| b == 95
    ||| b == 126
}

/// The upper-case hexadecimal digit of `n`, below 16.
pub open spec fn hex_digit(n: int) -> char {
    if n < 10 {
        (48 + n) as char
    } else {
        (55 + n) as char
    }
}

/// URL encoding of one byte: itself where unreserved, else `%` and two
/// upper-case hexadecimal digits.
pub open spec fn percent_encoded_byte(b: u8) -> Seq<char> {
    if is_unreserved(b) {
        seq![b as char]
    } else {
        seq!['%', hex_digit(b as int / 16), hex_digit(b as int % 16)]
    }
}

/// URL encoding of a byte string, byte by byte.
pub open spec fn percent_encoded(bytes: Seq<u8>) -> Seq<char>
    decreases bytes.len(),
{
    if bytes.len() == 0 {
        Seq::empty()
    } else {
        percent_encoded_byte(bytes[0]) + percent_encoded(bytes.drop_first())
    }
}

/// URL encoding of text, through its UTF-8 bytes.
pub open spec fn url_encoded(s: Seq<char>) -> Seq<char> {
    percent_encoded(encode_utf8(s))
}

/// `s` without the characters `c` at its end.
pub open spec fn trim_end_char(s: Seq<char>, c: char) -> Seq<char>
    decreases s.len(),
{
    if s.len() > 0 && s.last() == c {
        trim_end_char(s.drop_last(), c)
    } else {
        s
    }
}

/// The zone URL of the PowerDNS API for a server and a zone.
pub open spec fn zone_url(api_url: Seq<char>, server_id: Seq<char>, zone: Seq<char>) -> Seq<char> {
    trim_end_char(api_url, '/') + "/api/v1/servers/"@ + url_encoded(server_id) + "/zones/"@
        + url_encoded(normalized_dns_name(zone))
}

/// Text of ASCII letters, digits, `-`, `.`, `_` and `~` only.
pub open spec fn is_plain_url_text(s: Seq<char>) -> bool {
    &&& vstd::utf8::is_ascii_chars(s)
    &&& forall|i: int| 0 <= i < s.len() ==> is_unreserved(#[trigger] s[i] as u8)
}

/// Bytes that are all unreserved are encoded as themselves.
proof fn lemma_percent_encoded_unreserved(b: Seq<u8>)
    requires
        forall|i: int| 0 <= i < b.len() ==> is_unreserved(#[trigger] b[i]),
    ensures
        percent_encoded(b) =~= Seq::new(b.len(), |i: int| b[i] as char),
    decreases b.len(),
{
    if b.len() > 0 {
        let rest = b.drop_first();
        assert forall|i: int| 0 <= i < rest.len() implies is_unreserved(#[trigger] rest[i]) by {
            assert(rest[i] == b[i + 1]);
        }
        lemma_percent_encoded_unreserved(rest);
    }
}

/// URL encoding leaves plain names (such as `localhost` or `example.com.`)
/// as they are.
pub proof fn law_url_encoding_keeps_plain_text(s: Seq<char>)
    requires
        is_plain_url_text(s),
    ensures
        url_encoded(s) == s,
{
    vstd::utf8::is_ascii_chars_encode_utf8(s);
    let b = encode_utf8(s);
    assert forall|i: int| 0 <= i < b.len() implies is_unreserved(#[trigger] b[i]) by {
        assert(s[i] as u8 == b[i]);
    }
    lemma_percent_encoded_unreserved(b);
    assert forall|i: int| 0 <= i < s.len() implies (b[i] as char) == s[i] by {
        assert(s[i] as u8 == b[i]);
        assert('\0' <= s[i] <= '\u{7f}');
    }
    assert(url_encoded(s) =~= s);
}

/// URL-encodes text with `urlencoding::encode`, which encodes every byte of
/// the text's UTF-8 form but ASCII letters, digits, `-`, `.`, `_` and `~` as
/// `%` and two upper-case hexadecimal digits.
#[verifier::external_body]
fn url_encode(s: &str) -> (r: String)
    ensures
        r@ == url_encoded(s@),
{
    urlencoding::encode(s).into_owned()
}

/// `s` without the `/` characters at its end.
fn trim_end_slashes(s: &str) -> (r: &str)
    ensures
        r@ == trim_end_char(s@, '/'),
{
    let n: usize = s.unicode_len();
    let mut j: usize = n;
    assert(s@.subrange(0, n as int) =~= s@);
    while j > 0 && s.get_char(j - 1) == '/'
        invariant
            n == s@.len(),
            j <= n,
            trim_end_char(s@, '/') == trim_end_char(s@.subrange(0, j as int), '/'),
        decreases j,
    {
        assert(s@.subrange(0, j as int).drop_last() =~= s@.subrange(0, j - 1));
        j = j - 1;
    }
    s.substring_char(0, j)
}

/// The URL of the zone that holds `record`, on the configured server.
pub fn record_zone_url(config: &AppConfig, record: &RecordTarget) -> (r: String)
    ensures
        r@ == zone_url(config.powerdns.api_url@, config.powerdns.server_id@, record.zone@),
{
    proof {
        reveal_strlit("/api/v1/servers/");
        reveal_strlit("/zones/");
    }
    let mut url = String::from_str(trim_end_slashes(config.powerdns.api_url.as_str()));
    url.append("/api/v1/servers/");
    let server = url_encode(config.powerdns.server_id.as_str());
    url.append(server.as_str());
    url.append("/zones/");
    let zone = record.normalized_zone();
    let zone = url_encode(zone.as_str());
    url.append(zone.as_str());
    url
}

/// The body that replaces the `A` set of `record` with the one address `ip`,
/// with the record's TTL or else the configured default.
pub fn update_request(config: &AppConfig, record: &RecordTarget, ip: &str) -> (r:
    PowerDnsUpdateRequest)
    ensures
        r.rrsets@.len() == 1,
        r.rrsets@[0].name@ == normalized_record_name(record.name@, record.zone@),
        r.rrsets@[0].record_type@ == "A"@,
        r.rrsets@[0].ttl == match record.ttl {
            Some(t) => t,
            None => config.default_ttl,
        },
        r.rrsets@[0].changetype@ == "REPLACE"@,
        r.rrsets@[0].records@.len() == 1,
        r.rrsets@[0].records@[0].content@ == ip@,
        !r.rrsets@[0].records@[0].disabled,
{
    let mut records: Vec<RecordContent> = Vec::new();
    records.push(RecordContent { content: String::from_str(ip), disabled: false });
    let change = RrsetChange {
        name: record.normalized_name(),
        record_type: String::from_str("A"),
        ttl: record.ttl(config.default_ttl),
        changetype: String::from_str("REPLACE"),
        records,
    };
    let mut rrsets: Vec<RrsetChange> = Vec::new();
    rrsets.push(change);
    PowerDnsUpdateRequest { rrsets }
}

/// The request that points the `A` record of `record` at `ip`: sent with
/// `PATCH` to the zone URL, with the API key in the `X-API-Key` header and the
/// body as JSON.
pub fn prepare_record_update(config: &AppConfig, record: &RecordTarget, ip: &str) -> (r:
    RecordUpdate)
    ensures
        r.url@ == zone_url(config.powerdns.api_url@, config.powerdns.server_id@, record.zone@),
        r.api_key@ == config.powerdns.api_key@,
        r.payload.rrsets@.len() == 1,
        r.payload.rrsets@[0].name@ == normalized_record_name(record.name@, record.zone@),
        r.payload.rrsets@[0].record_type@ == "A"@,
        r.payload.rrsets@[0].ttl == match record.ttl {
            Some(t) => t,
            None => config.default_ttl,
        },
        r.payload.rrsets@[0].changetype@ == "REPLACE"@,
        r.payload.rrsets@[0].records@.len() == 1,
        r.payload.rrsets@[0].records@[0].content@ == ip@,
        !r.payload.rrsets@[0].records@[0].disabled,
{
    RecordUpdate {
        url: record_zone_url(config, record),
        api_key: String::from_str(config.powerdns.api_key.as_str()),
        payload: update_request(config, record, ip),
    }
}

/// A status in the success class, 200 to 299.
pub open spec fn is_success_status(status: u16) -> bool {
    200 <= status <= 299
}

/// Judges the server's answer to an update of `record`: accepted when the
/// status is a success, else rejected, with the record's absolute name, the
/// status and the body.
pub fn update_outcome(record: &RecordTarget, status: u16, body: String) -> (r: Result<
    (),
    UpdateError,
>)
    ensures
        r is Ok <==> 200 <= status && status < 300,
        r is Ok <==> is_success_status(status),
        r matches Err(UpdateError::Rejected { name, status: s, body: b }) ==> name@
            == normalized_record_name(record.name@, record.zone@) && s == status && b == body,
{
    if 200 <= status && status <= 299 {
        Ok(())
    } else {
        Err(UpdateError::Rejected { name: record.normalized_name(), status, body })
    }
}

/// The success class is exactly the statuses from 200 to 299.
pub proof fn law_success_status_range(status: u16)
    ensures
        is_success_status(status) <==> 200 <= status && status < 300,
        is_success_status(200) && is_success_status(204) && !is_success_status(199)
            && !is_success_status(300) && !is_success_status(404) && !is_success_status(500),
{
}

/// A zone and its normalised name lead to the same URL.
pub proof fn law_zone_url_normalizes_zone(api_url: Seq<char>, server_id: Seq<char>, zone: Seq<char>)
    ensures
        zone_url(api_url, server_id, zone) == zone_url(
            api_url,
            server_id,
            normalized_dns_name(zone),
        ),
{
    law_normalized_dns_name_idempotent(zone);
}

/// Plain text holds no white space.
proof fn lemma_plain_text_has_no_white_space(s: Seq<char>, i: int)
    requires
        is_plain_url_text(s),
        0 <= i < s.len(),
    ensures
        !is_white_space(s[i]),
{
    assert('\0' <= s[i] <= '\u{7f}');
    assert(is_unreserved(s[i] as u8));
}

/// With a plain server id and a plain absolute zone, the URL is the API URL
/// without its final slashes, `/api/v1/servers/`, the server id, `/zones/`
/// and the zone, all as they are.
pub proof fn law_zone_url_of_plain_names(api_url: Seq<char>, server_id: Seq<char>, zone: Seq<char>)
    requires
        is_plain_url_text(server_id),
        is_plain_url_text(zone),
        zone.len() > 0,
        zone.last() == '.',
    ensures
        zone_url(api_url, server_id, zone) == trim_end_char(api_url, '/') + "/api/v1/servers/"@
            + server_id + "/zones/"@ + zone,
{
    lemma_plain_text_has_no_white_space(zone, 0);
    lemma_plain_text_has_no_white_space(zone, zone.len() - 1);
    lemma_trim_of_untrimmable(zone);
    assert(normalized_dns_name(zone) == zone);
    law_url_encoding_keeps_plain_text(server_id);
    law_url_encoding_keeps_plain_text(zone);
}

/// Removing the final slashes keeps a prefix of the text that does not end
/// in a slash, and removes nothing else.
pub proof fn law_trim_end_slashes_shape(s: Seq<char>)
    ensures
        trim_end_char(s, '/').len() <= s.len(),
        trim_end_char(s, '/') == s.subrange(0, trim_end_char(s, '/').len() as int),
        trim_end_char(s, '/').len() > 0 ==> trim_end_char(s, '/').last() != '/',
        forall|k: int| trim_end_char(s, '/').len() <= k < s.len() ==> s[k] == '/',
    decreases s.len(),
{
    if s.len() > 0 && s.last() == '/' {
        law_trim_end_slashes_shape(s.drop_last());
        let t = trim_end_char(s, '/');
        assert forall|k: int| t.len() <= k < s.len() implies s[k] == '/' by {
            if k < s.len() - 1 {
                assert(s.drop_last()[k] == s[k]);
            }
        }
        assert(t =~= s.subrange(0, t.len() as int));
    } else {
        assert(s =~= s.subrange(0, s.len() as int));
    }
}

} // verus!

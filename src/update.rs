use vstd::prelude::*;
use crate::discovery::{DiscoveryError, ip_of_trace, parse_trace};
use crate::resolve::{Binding, bindings_view};

verus! {

/// The provider's zones endpoint; a zone's records live under `<zone>/dns_records/`.
pub const API_ZONES: &'static str = "https://api.cloudflare.com/client/v4/zones/";

/// The host named in requests to the provider.
pub const API_HOST: &'static str = "api.cloudflare.com";

/// The path, below a zone, of its records.
pub const RECORDS_PATH: &'static str = "/dns_records/";

/// What precedes the token in the authorization header.
pub const AUTH_SCHEME: &'static str = "Bearer ";

/// The update body up to the record name.
pub const BODY_START: &'static str = "{\"type\": \"A\", \"name\": \"";

/// The update body between the record name and the address.
pub const BODY_MIDDLE: &'static str = "\", \"content\": \"";

/// The update body after the address.
pub const BODY_END: &'static str = "\"}";

/// Lower-case hexadecimal digits, by value.
pub const HEX_DIGITS: &'static str = "0123456789abcdef";

/// What stands in a JSON string for one character: quote and backslash behind a
/// backslash, control characters as `\u00XX`, any other character as itself.
pub open spec fn escape_char(c: char) -> Seq<char> {
    if c == '"' {
        seq!['\\', '"']
    } else if c == '\\' {
        seq!['\\', '\\']
    } else if (c as u32) < 0x20 {
        seq!['\\', 'u', '0', '0', HEX_DIGITS@[(c as u32) as int / 16], HEX_DIGITS@[(c as u32) as int % 16]]
    } else {
        seq![c]
    }
}

/// The content of a JSON string literal that denotes `s`.
pub open spec fn json_escape(s: Seq<char>) -> Seq<char>
    decreases s.len(),
{
    if s.len() == 0 {
        Seq::empty()
    } else {
        json_escape(s.drop_last()) + escape_char(s.last())
    }
}

/// The content of a JSON string literal that denotes `s`.
pub fn escape_json(s: &str) -> (r: String)
    ensures
        r@ == json_escape(s@),
{
    proof {
        reveal_strlit("0123456789abcdef");
    }
    let n = s.unicode_len();
    let mut out = String::new();
    let mut i: usize = 0;
    proof {
        assert(s@.take(0) =~= Seq::<char>::empty());
    }
    while i < n
        invariant
            n == s@.len(),
            0 <= i <= n,
            HEX_DIGITS@.len() == 16,
            out@ == json_escape(s@.take(i as int)),
        decreases n - i,
    {
        let c = s.get_char(i);
        let ghost before = out@;
        if c == '"' {
            out.append("\\\"");
            proof {
                reveal_strlit("\\\"");
            }
        } else if c == '\\' {
            out.append("\\\\");
            proof {
                reveal_strlit("\\\\");
            }
        } else if (c as u32) < 0x20 {
            let v = c as u32;
            let hi = (v / 16) as usize;
            let lo = (v % 16) as usize;
            out.append("\\u00");
            out.append(HEX_DIGITS.substring_char(hi, hi + 1));
            out.append(HEX_DIGITS.substring_char(lo, lo + 1));
            proof {
                reveal_strlit("\\u00");
            }
        } else {
            out.append(s.substring_char(i, i + 1));
        }
        proof {
            let t = s@.take(i as int + 1);
            assert(t.drop_last() =~= s@.take(i as int));
            assert(t.last() == c);
            assert(out@ =~= before + escape_char(c));
        }
        i = i + 1;
    }
    proof {
        assert(s@.take(n as int) =~= s@);
    }
    out
}

/// One record update: where it is sent, and the JSON body it carries.
pub struct UpdateRequest {
    pub url: String,
    pub body: String,
}

impl View for UpdateRequest {
    type V = (Seq<char>, Seq<char>);

    open spec fn view(&self) -> (Seq<char>, Seq<char>) {
        (self.url@, self.body@)
    }
}

/// The URL that lists the records of a zone.
pub open spec fn listing_url_of(zone: Seq<char>) -> Seq<char> {
    API_ZONES@ + zone + RECORDS_PATH@
}

/// The URL of one record of a zone.
pub open spec fn record_url_of(zone: Seq<char>, record_id: Seq<char>) -> Seq<char> {
    listing_url_of(zone) + record_id
}

/// The value of the authorization header for a token.
pub open spec fn bearer_of(token: Seq<char>) -> Seq<char> {
    AUTH_SCHEME@ + token
}

/// The body that points an address record named `domain` at `ip`, both written as
/// JSON strings.
pub open spec fn update_body_of(domain: Seq<char>, ip: Seq<char>) -> Seq<char> {
    BODY_START@ + json_escape(domain) + BODY_MIDDLE@ + json_escape(ip) + BODY_END@
}

/// The requests of one cycle: one per binding, in order, each setting that binding's
/// record to `ip` under the binding's domain.
pub open spec fn update_requests_of(
    zone: Seq<char>,
    ip: Seq<char>,
    bindings: Seq<(Seq<char>, Seq<char>)>,
) -> Seq<(Seq<char>, Seq<char>)> {
    bindings.map_values(
        |b: (Seq<char>, Seq<char>)| (record_url_of(zone, b.1), update_body_of(b.0, ip)),
    )
}

pub open spec fn requests_view(rs: Seq<UpdateRequest>) -> Seq<(Seq<char>, Seq<char>)> {
    rs.map_values(|r: UpdateRequest| r@)
}

/// The URL that lists the records of `zone`.
pub fn listing_url(zone: &str) -> (r: String)
    ensures
        r@ == listing_url_of(zone@),
{
    let mut u = String::from_str(API_ZONES);
    u.append(zone);
    u.append(RECORDS_PATH);
    u
}

/// The URL of the record `record_id` of `zone`.
pub fn record_url(zone: &str, record_id: &str) -> (r: String)
    ensures
        r@ == record_url_of(zone@, record_id@),
{
    let mut u = listing_url(zone);
    u.append(record_id);
    u
}

/// The value of the authorization header for `token`.
pub fn bearer(token: &str) -> (r: String)
    ensures
        r@ == bearer_of(token@),
{
    let mut h = String::from_str(AUTH_SCHEME);
    h.append(token);
    h
}

/// The body that points the address record named `domain` at `ip`.
pub fn update_body(domain: &str, ip: &str) -> (r: String)
    ensures
        r@ == update_body_of(domain@, ip@),
{
    let mut b = String::from_str(BODY_START);
    let d = escape_json(domain);
    b.append(d.as_str());
    b.append(BODY_MIDDLE);
    let a = escape_json(ip);
    b.append(a.as_str());
    b.append(BODY_END);
    b
}

/// One update request per binding, each setting the record to `ip`.
pub fn build_update_requests(zone: &str, ip: &str, bindings: &Vec<Binding>) -> (r: Vec<
    UpdateRequest,
>)
    ensures
        requests_view(r@) == update_requests_of(zone@, ip@, bindings_view(bindings@)),
{
    let ghost want = update_requests_of(zone@, ip@, bindings_view(bindings@));
    let mut out: Vec<UpdateRequest> = Vec::new();
    let mut k: usize = 0;
    while k < bindings.len()
        invariant
            0 <= k <= bindings@.len(),
            want == update_requests_of(zone@, ip@, bindings_view(bindings@)),
            requests_view(out@) =~= want.take(k as int),
        decreases bindings.len() - k,
    {
        let b = &bindings[k];
        let url = record_url(zone, b.record_id.as_str());
        let body = update_body(b.domain.as_str(), ip);
        let ghost before = out@;
        out.push(UpdateRequest { url, body });
        proof {
            assert(bindings_view(bindings@)[k as int] == b@);
            assert(want.take(k as int + 1) =~= want.take(k as int).push(want[k as int]));
            assert(requests_view(out@) =~= requests_view(before).push((url@, body@)));
        }
        k = k + 1;
    }
    proof {
        assert(want.take(k as int) =~= want);
    }
    out
}

/// The requests of one cycle for a trace response body: the IP it reports set on every
/// binding, or the reason no IP could be read.
pub open spec fn cycle_requests_of(
    zone: Seq<char>,
    bindings: Seq<(Seq<char>, Seq<char>)>,
    trace_body: Seq<char>,
) -> Option<Seq<(Seq<char>, Seq<char>)>> {
    match ip_of_trace(trace_body) {
        Some(ip) => Some(update_requests_of(zone, ip, bindings)),
        None => None,
    }
}

/// Plans one cycle: reads the IP out of the trace body and builds an update for every
/// binding, whether or not the IP has changed since an earlier cycle.
pub fn plan_cycle(zone: &str, bindings: &Vec<Binding>, trace_body: &str) -> (r: Result<
    Vec<UpdateRequest>,
    DiscoveryError,
>)
    ensures
        match cycle_requests_of(zone@, bindings_view(bindings@), trace_body@) {
            Some(reqs) => r matches Ok(v) && requests_view(v@) == reqs,
            None => r == Err::<Vec<UpdateRequest>, DiscoveryError>(DiscoveryError::MissingIpLine),
        },
{
    let ip = parse_trace(trace_body)?;
    Ok(build_update_requests(zone, ip.as_str(), bindings))
}

/// Every cycle whose trace body reports an IP updates every binding, one request each,
/// with the binding's domain as name and that IP as content; two cycles that see the same
/// IP send the same requests, so an unchanged IP is published again.
pub proof fn lemma_every_cycle_updates_every_binding(
    zone: Seq<char>,
    bindings: Seq<(Seq<char>, Seq<char>)>,
    earlier_body: Seq<char>,
    body: Seq<char>,
)
    requires
        ip_of_trace(body) is Some,
        ip_of_trace(earlier_body) == ip_of_trace(body),
    ensures
        cycle_requests_of(zone, bindings, body) matches Some(reqs) && reqs.len() == bindings.len()
            && forall|k: int|
            0 <= k < bindings.len() ==> #[trigger] reqs[k] == (
                record_url_of(zone, bindings[k].1),
                update_body_of(bindings[k].0, ip_of_trace(body)->0),
            ),
        cycle_requests_of(zone, bindings, earlier_body) == cycle_requests_of(zone, bindings, body),
{
}

} // verus!

use vstd::prelude::*;
use crate::text::{split_on, split_text};

verus! {

/// The trace endpoint that reports the caller's public IP.
pub const TRACE_URL: &'static str = "https://cloudflare.com/cdn-cgi/trace";

/// The host named in the trace request.
pub const TRACE_HOST: &'static str = "cloudflare.com";

/// Why no IP could be read from a trace response.
#[derive(Debug, PartialEq, Eq, Structural, Clone, Copy)]
pub enum DiscoveryError {
    /// No line of the body starts with `ip=`.
    MissingIpLine,
}

/// A line without the carriage return that may end it.
pub open spec fn line_text(l: Seq<char>) -> Seq<char> {
    if l.len() > 0 && l.last() == '\r' {
        l.drop_last()
    } else {
        l
    }
}

/// True when the line is the `ip` entry.
pub open spec fn is_ip_line(l: Seq<char>) -> bool {
    l.len() >= 3 && l[0] == 'i' && l[1] == 'p' && l[2] == '='
}

/// The value of the first `ip` entry among `lines[k..]`.
pub open spec fn ip_from(lines: Seq<Seq<char>>, k: int) -> Option<Seq<char>>
    decreases lines.len() - k,
{
    if k < 0 || k >= lines.len() {
        None
    } else if is_ip_line(line_text(lines[k])) {
        Some(line_text(lines[k]).skip(3))
    } else {
        ip_from(lines, k + 1)
    }
}

/// The IP that a trace body reports: the value of its first line that starts with `ip=`.
pub open spec fn ip_of_trace(body: Seq<char>) -> Option<Seq<char>> {
    ip_from(split_on(body, '\n'), 0)
}

/// Reads the caller's IP out of a trace response body.
pub fn parse_trace(body: &str) -> (r: Result<String, DiscoveryError>)
    ensures
        match ip_of_trace(body@) {
            Some(ip) => r matches Ok(v) && v@ == ip,
            None => r == Err::<String, DiscoveryError>(DiscoveryError::MissingIpLine),
        },
{
    let lines = split_text(body, '\n');
    let ghost ls = split_on(body@, '\n');
    let mut k: usize = 0;
    while k < lines.len()
        invariant
            0 <= k <= lines@.len(),
            lines@.map_values(|p: String| p@) == ls,
            ls == split_on(body@, '\n'),
            ip_from(ls, 0) == ip_from(ls, k as int),
        decreases lines.len() - k,
    {
        let line = lines[k].as_str();
        let n = line.unicode_len();
        proof {
            assert(ls[k as int] == line@);
        }
        let end = if n > 0 && line.get_char(n - 1) == '\r' {
            n - 1
        } else {
            n
        };
        let text = line.substring_char(0, end);
        proof {
            assert(text@ =~= line_text(line@));
        }
        if end >= 3 && text.get_char(0) == 'i' && text.get_char(1) == 'p' && text.get_char(2)
            == '=' {
            let v = text.substring_char(3, end);
            proof {
                assert(v@ =~= line_text(line@).skip(3));
                assert(is_ip_line(line_text(ls[k as int])));
                assert(ip_from(ls, k as int) == Some(line_text(ls[k as int]).skip(3)));
            }
            return Ok(String::from_str(v));
        }
        k = k + 1;
    }
    Err(DiscoveryError::MissingIpLine)
}

/// A trace body in which no line starts with `ip=` yields no IP at all.
pub proof fn lemma_no_ip_line_no_ip(body: Seq<char>)
    requires
        forall|k: int|
            0 <= k < split_on(body, '\n').len() ==> !is_ip_line(
                line_text(#[trigger] split_on(body, '\n')[k]),
            ),
    ensures
        ip_of_trace(body) is None,
{
    let lines = split_on(body, '\n');
    lemma_ip_from_none(lines, 0);
}

proof fn lemma_ip_from_none(lines: Seq<Seq<char>>, k: int)
    requires
        0 <= k,
        forall|j: int| 0 <= j < lines.len() ==> !is_ip_line(line_text(#[trigger] lines[j])),
    ensures
        ip_from(lines, k) is None,
    decreases lines.len() - k,
{
    if k < lines.len() {
        lemma_ip_from_none(lines, k + 1);
    }
}

} // verus!

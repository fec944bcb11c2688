use vstd::prelude::*;
use crate::text::{entries_of, list_entries};

verus! {

/// Seconds between cycles when no usable interval is configured.
pub const DEFAULT_INTERVAL_SECS: u64 = 70;

/// The settings of one process, read once at startup.
pub struct Configuration {
    pub token: String,
    pub zone: String,
    pub interval_secs: u64,
    pub domains: Vec<String>,
    pub record_ids: Option<Vec<String>>,
}

impl Configuration {
    /// Record ids, when given, pair one to one with the domains.
    pub open spec fn wf(&self) -> bool {
        self.record_ids matches Some(ids) ==> ids@.len() == self.domains@.len()
    }
}

/// Why the settings could not be taken.
#[derive(Debug, PartialEq, Eq, Structural, Clone, Copy)]
pub enum ConfigError {
    MissingToken,
    MissingZone,
    MissingDomains,
    /// More record ids than domains.
    MoreRecordsThanDomains { domains: usize, records: usize },
    /// Fewer record ids than domains.
    FewerRecordsThanDomains { domains: usize, records: usize },
}

/// True when every character of `d` is an ASCII decimal digit and there is one at least.
pub open spec fn is_digits(d: Seq<char>) -> bool {
    d.len() > 0 && forall|i: int| 0 <= i < d.len() ==> '0' <= #[trigger] d[i] && d[i] <= '9'
}

/// The number that a string of decimal digits denotes.
pub open spec fn digits_value(d: Seq<char>) -> nat
    decreases d.len(),
{
    if d.len() == 0 {
        0
    } else {
        digits_value(d.drop_last()) * 10 + ((d.last() as nat) - ('0' as nat)) as nat
    }
}

/// What `str::parse::<u64>` gives: an optional `+`, then decimal digits whose value fits.
pub open spec fn u64_of_text(s: Seq<char>) -> Option<u64> {
    let d = if s.len() > 0 && s[0] == '+' {
        s.drop_first()
    } else {
        s
    };
    if is_digits(d) && digits_value(d) <= u64::MAX {
        Some(digits_value(d) as u64)
    } else {
        None
    }
}

/// The interval that a configured value gives: a positive number, else the default.
pub open spec fn interval_of(v: Option<Seq<char>>) -> u64 {
    match v {
        Some(t) => match u64_of_text(t) {
            Some(n) => if n > 0 {
                n
            } else {
                DEFAULT_INTERVAL_SECS
            },
            None => DEFAULT_INTERVAL_SECS,
        },
        None => DEFAULT_INTERVAL_SECS,
    }
}

/// Relies on `str::parse::<u64>`: an optional `+` and ASCII digits whose value fits in a
/// `u64` give that value; anything else is an error.
#[verifier::external_body]
fn parse_u64(s: &str) -> (r: Option<u64>)
    ensures
        r == u64_of_text(s@),
{
    s.parse::<u64>().ok()
}

/// The reconcile period for a configured `INTERVAL` value.
pub fn interval_from(v: Option<&str>) -> (r: u64)
    ensures
        r == interval_of(match v {
            Some(t) => Some(t@),
            None => None,
        }),
        r > 0,
{
    match v {
        Some(t) => match parse_u64(t) {
            Some(n) => if n > 0 {
                n
            } else {
                DEFAULT_INTERVAL_SECS
            },
            None => DEFAULT_INTERVAL_SECS,
        },
        None => DEFAULT_INTERVAL_SECS,
    }
}

/// The error that the settings give, if any, checked in this order: token, zone,
/// domains, then the count of record ids against the count of domains.
pub open spec fn config_error_of(
    token: Option<Seq<char>>,
    zone: Option<Seq<char>>,
    domains: Option<Seq<char>>,
    records: Option<Seq<char>>,
) -> Option<ConfigError> {
    if token is None {
        Some(ConfigError::MissingToken)
    } else if zone is None {
        Some(ConfigError::MissingZone)
    } else if domains is None {
        Some(ConfigError::MissingDomains)
    } else {
        match records {
            None => None,
            Some(r) => {
                let nd = entries_of(domains->0).len();
                let nr = entries_of(r).len();
                if nr > nd {
                    Some(ConfigError::MoreRecordsThanDomains { domains: nd as usize, records: nr as usize })
                } else if nr < nd {
                    Some(ConfigError::FewerRecordsThanDomains { domains: nd as usize, records: nr as usize })
                } else {
                    None
                }
            },
        }
    }
}

pub open spec fn opt_view(v: Option<String>) -> Option<Seq<char>> {
    match v {
        Some(s) => Some(s@),
        None => None,
    }
}

pub open spec fn views_of(v: Seq<String>) -> Seq<Seq<char>> {
    v.map_values(|p: String| p@)
}

/// Builds the settings from the raw values of `TOKEN`, `ZONE`, `DOMAINS`, `RECORDS` and
/// `INTERVAL`, each `None` when unset.
pub fn load_config(
    token: Option<String>,
    zone: Option<String>,
    domains: Option<String>,
    records: Option<String>,
    interval: Option<String>,
) -> (r: Result<Configuration, ConfigError>)
    ensures
        match config_error_of(opt_view(token), opt_view(zone), opt_view(domains), opt_view(records)) {
            Some(e) => r == Err::<Configuration, ConfigError>(e),
            None => r is Ok,
        },
        r matches Ok(c) ==> {
            &&& c.wf()
            &&& c.token@ == token->0@
            &&& c.zone@ == zone->0@
            &&& c.interval_secs == interval_of(opt_view(interval))
            &&& views_of(c.domains@) == entries_of(domains->0@)
            &&& match records {
                None => c.record_ids is None,
                Some(rs) => c.record_ids matches Some(ids) && views_of(ids@) == entries_of(rs@),
            }
        },
{
    let token = match token {
        Some(t) => t,
        None => return Err(ConfigError::MissingToken),
    };
    let zone = match zone {
        Some(z) => z,
        None => return Err(ConfigError::MissingZone),
    };
    let domains_text = match domains {
        Some(d) => d,
        None => return Err(ConfigError::MissingDomains),
    };
    let domains = list_entries(domains_text.as_str());
    proof {
        assert(domains@.len() == views_of(domains@).len());
    }
    let record_ids = match records {
        None => None,
        Some(rs) => {
            let ids = list_entries(rs.as_str());
            proof {
                assert(ids@.len() == views_of(ids@).len());
            }
            if ids.len() > domains.len() {
                return Err(
                    ConfigError::MoreRecordsThanDomains { domains: domains.len(), records: ids.len() },
                );
            }
            if ids.len() < domains.len() {
                return Err(
                    ConfigError::FewerRecordsThanDomains { domains: domains.len(), records: ids.len() },
                );
            }
            Some(ids)
        },
    };
    let interval_secs = match &interval {
        Some(v) => interval_from(Some(v.as_str())),
        None => interval_from(None),
    };
    Ok(Configuration { token, zone, interval_secs, domains, record_ids })
}

/// Whenever record ids are given and their count differs from the count of domains,
/// the settings are refused with a count-mismatch error.
pub proof fn lemma_count_mismatch_is_fatal(
    token: Seq<char>,
    zone: Seq<char>,
    domains: Seq<char>,
    records: Seq<char>,
)
    requires
        entries_of(domains).len() != entries_of(records).len(),
    ensures
        config_error_of(Some(token), Some(zone), Some(domains), Some(records)) matches Some(e)
            && (e is MoreRecordsThanDomains || e is FewerRecordsThanDomains),
{
}

} // verus!

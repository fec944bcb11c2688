//! Keeps a set of DNS address records pointed at the caller's public IP.
//!
//! The library holds the decisions: reading the settings, picking the IP out
//! of a trace response, pairing domains with provider record ids, and building
//! the update requests of one cycle. Sending and receiving is left to callers.

mod cli;
mod config;
mod discovery;
mod json;
mod resolve;
mod text;
mod update;

pub use cli::{CliAction, VERSION, asks_file, asks_version, cli_action};
pub use config::{
    ConfigError, Configuration, DEFAULT_INTERVAL_SECS, config_error_of, digits_value,
    interval_from, interval_of, is_digits, lemma_count_mismatch_is_fatal, load_config, opt_view,
    u64_of_text, views_of,
};
pub use discovery::{
    DiscoveryError, TRACE_HOST, TRACE_URL, ip_from, ip_of_trace, is_ip_line, lemma_no_ip_line_no_ip,
    line_text, parse_trace,
};
pub use json::{
    JsonDoc, doc_member, doc_text, listing_from_doc, listing_of_doc, member, member_from,
    record_of_doc, resolve_from_doc,
};
pub use resolve::{
    Binding, Listing, RemoteRecord, ResolveError, all_matched, bindings_for, bindings_view,
    find_record_id, first_unmatched, lemma_bindings_follow_domains, lemma_first_match_wins, lookup,
    lookup_from, pair_bindings, paired, records_view, resolve_bindings, resolves_as,
};
pub use text::{entries_of, list_entries, split_on, split_text, trim_of};
pub use update::{
    API_HOST, API_ZONES, UpdateRequest, bearer, bearer_of, build_update_requests, escape_char,
    escape_json, json_escape,
    cycle_requests_of, lemma_every_cycle_updates_every_binding, listing_url, listing_url_of,
    plan_cycle, record_url, record_url_of, requests_view, update_body, update_body_of,
    update_requests_of,
};

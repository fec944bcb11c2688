use vstd::prelude::*;
use crate::config::views_of;

verus! {

/// One record of the provider's zone listing, as far as the resolver reads it.
pub struct RemoteRecord {
    pub name: String,
    pub id: String,
}

impl View for RemoteRecord {
    type V = (Seq<char>, Seq<char>);

    open spec fn view(&self) -> (Seq<char>, Seq<char>) {
        (self.name@, self.id@)
    }
}

/// The provider's answer to a listing request: its success indicator and its records,
/// in the order the provider gave them.
pub struct Listing {
    pub success: bool,
    pub records: Vec<RemoteRecord>,
}

/// A domain paired with the provider id of its record.
pub struct Binding {
    pub domain: String,
    pub record_id: String,
}

impl View for Binding {
    type V = (Seq<char>, Seq<char>);

    open spec fn view(&self) -> (Seq<char>, Seq<char>) {
        (self.domain@, self.record_id@)
    }
}

/// Why the binding table could not be built.
#[derive(Debug, PartialEq, Eq)]
pub enum ResolveError {
    /// The listing lacks the record list, or a record lacks a string name or id.
    Malformed,
    /// The provider reported that the listing request failed.
    Rejected,
    /// No record of the zone has this name.
    NoMatch { domain: String },
}

pub open spec fn records_view(recs: Seq<RemoteRecord>) -> Seq<(Seq<char>, Seq<char>)> {
    recs.map_values(|r: RemoteRecord| r@)
}

pub open spec fn bindings_view(bs: Seq<Binding>) -> Seq<(Seq<char>, Seq<char>)> {
    bs.map_values(|b: Binding| b@)
}

/// The id of the first record among `recs[j..]` named `name`.
pub open spec fn lookup_from(recs: Seq<(Seq<char>, Seq<char>)>, name: Seq<char>, j: int) -> Option<
    Seq<char>,
>
    decreases recs.len() - j,
{
    if j < 0 || j >= recs.len() {
        None
    } else if recs[j].0 == name {
        Some(recs[j].1)
    } else {
        lookup_from(recs, name, j + 1)
    }
}

/// The id of the first record named `name`.
pub open spec fn lookup(recs: Seq<(Seq<char>, Seq<char>)>, name: Seq<char>) -> Option<Seq<char>> {
    lookup_from(recs, name, 0)
}

/// True when every domain has a record.
pub open spec fn all_matched(domains: Seq<Seq<char>>, recs: Seq<(Seq<char>, Seq<char>)>) -> bool {
    forall|k: int| 0 <= k < domains.len() ==> lookup(recs, #[trigger] domains[k]) is Some
}

/// The binding table for `domains`: each domain with the id of its first record, in the
/// order of `domains`.
pub open spec fn bindings_for(domains: Seq<Seq<char>>, recs: Seq<(Seq<char>, Seq<char>)>) -> Seq<
    (Seq<char>, Seq<char>),
> {
    domains.map_values(|d: Seq<char>| (d, lookup(recs, d)->0))
}

/// True when `k` is the first domain that has no record.
pub open spec fn first_unmatched(
    domains: Seq<Seq<char>>,
    recs: Seq<(Seq<char>, Seq<char>)>,
    k: int,
) -> bool {
    &&& 0 <= k < domains.len()
    &&& lookup(recs, domains[k]) is None
    &&& forall|j: int| 0 <= j < k ==> lookup(recs, #[trigger] domains[j]) is Some
}

/// The id of the first record of `recs` named `name`, if any.
pub fn find_record_id(recs: &Vec<RemoteRecord>, name: &String) -> (r: Option<String>)
    ensures
        match lookup(records_view(recs@), name@) {
            Some(id) => r matches Some(s) && s@ == id,
            None => r is None,
        },
{
    let ghost rv = records_view(recs@);
    let mut j: usize = 0;
    while j < recs.len()
        invariant
            0 <= j <= recs@.len(),
            rv == records_view(recs@),
            lookup(rv, name@) == lookup_from(rv, name@, j as int),
        decreases recs.len() - j,
    {
        proof {
            assert(rv[j as int] == recs@[j as int]@);
        }
        if recs[j].name == *name {
            return Some(recs[j].id.clone());
        }
        j = j + 1;
    }
    None
}

/// What resolving `domains` against a listing gives: `Rejected` when the provider
/// reported failure; the binding table when every domain has a record; otherwise
/// `NoMatch` naming the first domain without one.
pub open spec fn resolves_as(
    domains: Seq<Seq<char>>,
    success: bool,
    recs: Seq<(Seq<char>, Seq<char>)>,
    r: Result<Vec<Binding>, ResolveError>,
) -> bool {
    if !success {
        r matches Err(ResolveError::Rejected)
    } else if all_matched(domains, recs) {
        r matches Ok(bs) && bindings_view(bs@) == bindings_for(domains, recs)
    } else {
        r matches Err(ResolveError::NoMatch { domain }) && exists|k: int|
            first_unmatched(domains, recs, k) && domains[k] == domain@
    }
}

/// Pairs each domain with the id of the first record of the listing that bears its name,
/// in the order of `domains`.
pub fn resolve_bindings(domains: &Vec<String>, listing: &Listing) -> (r: Result<
    Vec<Binding>,
    ResolveError,
>)
    ensures
        resolves_as(views_of(domains@), listing.success, records_view(listing.records@), r),
{
    if !listing.success {
        return Err(ResolveError::Rejected);
    }
    let ghost dv = views_of(domains@);
    let ghost rv = records_view(listing.records@);
    let mut out: Vec<Binding> = Vec::new();
    let mut k: usize = 0;
    while k < domains.len()
        invariant
            0 <= k <= domains@.len(),
            dv == views_of(domains@),
            rv == records_view(listing.records@),
            listing.success,
            forall|j: int| 0 <= j < k ==> lookup(rv, #[trigger] dv[j]) is Some,
            bindings_view(out@) =~= bindings_for(dv.take(k as int), rv),
        decreases domains.len() - k,
    {
        let d = &domains[k];
        proof {
            assert(dv[k as int] == d@);
        }
        match find_record_id(&listing.records, d) {
            Some(id) => {
                let ghost before = out@;
                out.push(Binding { domain: d.clone(), record_id: id });
                proof {
                    assert(dv.take(k as int + 1) =~= dv.take(k as int).push(d@));
                    assert(bindings_view(out@) =~= bindings_view(before).push((d@, id@)));
                    assert(bindings_view(out@) =~= bindings_for(dv.take(k as int + 1), rv));
                }
            },
            None => {
                let domain = d.clone();
                proof {
                    assert(first_unmatched(dv, rv, k as int) && dv[k as int] == domain@);
                    assert(!all_matched(dv, rv));
                }
                return Err(ResolveError::NoMatch { domain });
            },
        }
        k = k + 1;
    }
    proof {
        assert(dv.take(k as int) =~= dv);
    }
    Ok(out)
}

/// When `j` is the first record named `name`, the lookup of `name` gives that record's id.
pub proof fn lemma_first_match_wins(recs: Seq<(Seq<char>, Seq<char>)>, name: Seq<char>, j: int)
    requires
        0 <= j < recs.len(),
        recs[j].0 == name,
        forall|i: int| 0 <= i < j ==> (#[trigger] recs[i]).0 != name,
    ensures
        lookup(recs, name) == Some(recs[j].1),
{
    lemma_lookup_skips(recs, name, j, 0);
}

proof fn lemma_lookup_skips(recs: Seq<(Seq<char>, Seq<char>)>, name: Seq<char>, j: int, i: int)
    requires
        0 <= i <= j < recs.len(),
        recs[j].0 == name,
        forall|m: int| 0 <= m < j ==> (#[trigger] recs[m]).0 != name,
    ensures
        lookup_from(recs, name, i) == Some(recs[j].1),
    decreases j - i,
{
    if i < j {
        lemma_lookup_skips(recs, name, j, i + 1);
    }
}

/// A resolved table follows the order of the domains, and each domain gets the id of
/// the first record, in the provider's order, that bears its name.
pub proof fn lemma_bindings_follow_domains(
    domains: Seq<Seq<char>>,
    recs: Seq<(Seq<char>, Seq<char>)>,
    k: int,
    j: int,
)
    requires
        0 <= k < domains.len(),
        0 <= j < recs.len(),
        recs[j].0 == domains[k],
        forall|i: int| 0 <= i < j ==> (#[trigger] recs[i]).0 != domains[k],
    ensures
        bindings_for(domains, recs).len() == domains.len(),
        bindings_for(domains, recs)[k] == (domains[k], recs[j].1),
{
    lemma_first_match_wins(recs, domains[k], j);
}

/// The binding table when record ids are configured: the domains and ids paired by position.
pub open spec fn paired(domains: Seq<Seq<char>>, ids: Seq<Seq<char>>) -> Seq<(Seq<char>, Seq<char>)> {
    Seq::new(domains.len(), |k: int| (domains[k], ids[k]))
}

/// Pairs each domain with the record id at the same position.
pub fn pair_bindings(domains: &Vec<String>, ids: &Vec<String>) -> (r: Vec<Binding>)
    requires
        domains@.len() == ids@.len(),
    ensures
        bindings_view(r@) == paired(views_of(domains@), views_of(ids@)),
{
    let ghost want = paired(views_of(domains@), views_of(ids@));
    let mut out: Vec<Binding> = Vec::new();
    let mut k: usize = 0;
    while k < domains.len()
        invariant
            0 <= k <= domains@.len(),
            domains@.len() == ids@.len(),
            want == paired(views_of(domains@), views_of(ids@)),
            bindings_view(out@) =~= want.take(k as int),
        decreases domains.len() - k,
    {
        let ghost before = out@;
        out.push(Binding { domain: domains[k].clone(), record_id: ids[k].clone() });
        proof {
            assert(want.take(k as int + 1) =~= want.take(k as int).push(want[k as int]));
            assert(bindings_view(out@) =~= bindings_view(before).push(
                (domains@[k as int]@, ids@[k as int]@),
            ));
        }
        k = k + 1;
    }
    proof {
        assert(want.take(k as int) =~= want);
    }
    out
}

} // verus!

use vstd::prelude::*;
use crate::config::views_of;
use crate::resolve::{Binding, Listing, RemoteRecord, ResolveError, records_view, resolve_bindings, resolves_as};

verus! {

/// A JSON value as plain data; object members keep the order they were read in.
pub enum JsonDoc {
    Null,
    Bool(bool),
    /// A number, in its text form.
    Number(String),
    Text(String),
    Array(Vec<JsonDoc>),
    Object(Vec<(String, JsonDoc)>),
}

/// The value of the first member among `members[i..]` whose key is `key`.
pub open spec fn member_from(members: Seq<(String, JsonDoc)>, key: Seq<char>, i: int) -> Option<
    JsonDoc,
>
    decreases members.len() - i,
{
    if i < 0 || i >= members.len() {
        None
    } else if members[i].0@ == key {
        Some(members[i].1)
    } else {
        member_from(members, key, i + 1)
    }
}

/// The member of an object under `key`; nothing for a value that is not an object.
pub open spec fn doc_member(d: JsonDoc, key: Seq<char>) -> Option<JsonDoc> {
    match d {
        JsonDoc::Object(ms) => member_from(ms@, key, 0),
        _ => None,
    }
}

/// The text of a string value.
pub open spec fn doc_text(d: Option<JsonDoc>) -> Option<Seq<char>> {
    match d {
        Some(JsonDoc::Text(s)) => Some(s@),
        _ => None,
    }
}

/// The `name` and `id` of one entry of a listing, both strings.
pub open spec fn record_of_doc(d: JsonDoc) -> Option<(Seq<char>, Seq<char>)> {
    match (doc_text(doc_member(d, "name"@)), doc_text(doc_member(d, "id"@))) {
        (Some(n), Some(i)) => Some((n, i)),
        _ => None,
    }
}

/// How a listing response reads: a `success` member other than `true` is a failed listing
/// with no records; otherwise `result` must be an array whose every entry has a string
/// `name` and `id`, which are the records in order.
pub open spec fn listing_of_doc(d: JsonDoc) -> Result<(bool, Seq<(Seq<char>, Seq<char>)>), ResolveError> {
    if doc_member(d, "success"@) != Some(JsonDoc::Bool(true)) {
        Ok((false, Seq::empty()))
    } else {
        match doc_member(d, "result"@) {
            Some(JsonDoc::Array(items)) => if forall|i: int|
                0 <= i < items@.len() ==> (#[trigger] record_of_doc(items@[i])) is Some {
                Ok((true, items@.map_values(|x: JsonDoc| record_of_doc(x)->0)))
            } else {
                Err(ResolveError::Malformed)
            },
            _ => Err(ResolveError::Malformed),
        }
    }
}

/// The member of `d` under `key`.
pub fn member<'a>(d: &'a JsonDoc, key: &str) -> (r: Option<&'a JsonDoc>)
    ensures
        match doc_member(*d, key@) {
            Some(m) => r matches Some(x) && *x == m,
            None => r is None,
        },
{
    match d {
        JsonDoc::Object(ms) => {
            let k = String::from_str(key);
            let mut i: usize = 0;
            while i < ms.len()
                invariant
                    0 <= i <= ms@.len(),
                    k@ == key@,
                    *d == JsonDoc::Object(*ms),
                    doc_member(*d, key@) == member_from(ms@, key@, i as int),
                decreases ms.len() - i,
            {
                if ms[i].0 == k {
                    return Some(&ms[i].1);
                }
                i = i + 1;
            }
            None
        },
        _ => None,
    }
}

/// The string member of `d` under `key`.
fn text_member(d: &JsonDoc, key: &str) -> (r: Option<String>)
    ensures
        match doc_text(doc_member(*d, key@)) {
            Some(t) => r matches Some(s) && s@ == t,
            None => r is None,
        },
{
    match member(d, key) {
        Some(JsonDoc::Text(s)) => Some(s.clone()),
        _ => None,
    }
}

/// Reads a listing response: its success indicator and, when that is `true`, the
/// `name` and `id` of each entry of `result`.
pub fn listing_from_doc(doc: &JsonDoc) -> (r: Result<Listing, ResolveError>)
    ensures
        match listing_of_doc(*doc) {
            Ok((success, recs)) => r matches Ok(l) && l.success == success && records_view(
                l.records@,
            ) == recs,
            Err(e) => r == Err::<Listing, ResolveError>(e),
        },
{
    let success = match member(doc, "success") {
        Some(JsonDoc::Bool(b)) => *b,
        _ => false,
    };
    proof {
        reveal_strlit("success");
        reveal_strlit("result");
        reveal_strlit("name");
        reveal_strlit("id");
    }
    if !success {
        let none: Vec<RemoteRecord> = Vec::new();
        proof {
            assert(records_view(none@) =~= Seq::empty());
        }
        return Ok(Listing { success: false, records: none });
    }
    let items = match member(doc, "result") {
        Some(JsonDoc::Array(a)) => a,
        _ => return Err(ResolveError::Malformed),
    };
    let ghost want = items@.map_values(|x: JsonDoc| record_of_doc(x)->0);
    let mut records: Vec<RemoteRecord> = Vec::new();
    let mut i: usize = 0;
    while i < items.len()
        invariant
            0 <= i <= items@.len(),
            doc_member(*doc, "success"@) == Some(JsonDoc::Bool(true)),
            doc_member(*doc, "result"@) == Some(JsonDoc::Array(*items)),
            want == items@.map_values(|x: JsonDoc| record_of_doc(x)->0),
            forall|j: int| 0 <= j < i ==> (#[trigger] record_of_doc(items@[j])) is Some,
            records_view(records@) =~= want.take(i as int),
        decreases items.len() - i,
    {
        let name = match text_member(&items[i], "name") {
            Some(n) => n,
            None => {
                proof {
                    assert(record_of_doc(items@[i as int]) is None);
                }
                return Err(ResolveError::Malformed);
            },
        };
        let id = match text_member(&items[i], "id") {
            Some(n) => n,
            None => {
                proof {
                    assert(record_of_doc(items@[i as int]) is None);
                }
                return Err(ResolveError::Malformed);
            },
        };
        let ghost before = records@;
        records.push(RemoteRecord { name, id });
        proof {
            assert(want.take(i as int + 1) =~= want.take(i as int).push(want[i as int]));
            assert(records_view(records@) =~= records_view(before).push((name@, id@)));
        }
        i = i + 1;
    }
    proof {
        assert(want.take(i as int) =~= want);
    }
    Ok(Listing { success: true, records })
}

/// Reads a listing response and pairs each domain with its record id.
pub fn resolve_from_doc(domains: &Vec<String>, doc: &JsonDoc) -> (r: Result<
    Vec<Binding>,
    ResolveError,
>)
    ensures
        match listing_of_doc(*doc) {
            Ok((success, recs)) => resolves_as(views_of(domains@), success, recs, r),
            Err(e) => r == Err::<Vec<Binding>, ResolveError>(e),
        },
{
    let listing = match listing_from_doc(doc) {
        Ok(l) => l,
        Err(e) => return Err(e),
    };
    resolve_bindings(domains, &listing)
}

} // verus!

use vstd::prelude::*;

verus! {

/// The pieces of `s` between occurrences of `sep`, in order.
/// There is always at least one piece; a text without `sep` is one piece.
pub open spec fn split_on(s: Seq<char>, sep: char) -> Seq<Seq<char>>
    decreases s.len(),
{
    if s.len() == 0 {
        seq![Seq::<char>::empty()]
    } else {
        let p = split_on(s.drop_last(), sep);
        if s.last() == sep {
            p.push(Seq::<char>::empty())
        } else {
            p.update(p.len() - 1, p.last().push(s.last()))
        }
    }
}

/// What `str::trim` leaves of a text.
pub uninterp spec fn trim_of(s: Seq<char>) -> Seq<char>;

/// The entries of a comma-separated list, each with surrounding whitespace removed.
pub open spec fn entries_of(s: Seq<char>) -> Seq<Seq<char>> {
    split_on(s, ',').map_values(|p: Seq<char>| trim_of(p))
}

proof fn lemma_split_nonempty(s: Seq<char>, sep: char)
    ensures
        split_on(s, sep).len() >= 1,
    decreases s.len(),
{
    if s.len() > 0 {
        lemma_split_nonempty(s.drop_last(), sep);
    }
}

/// Relies on `str::trim`: the text without leading and trailing whitespace.
#[verifier::external_body]
fn trim_text(s: &str) -> (r: String)
    ensures
        r@ == trim_of(s@),
{
    s.trim().to_string()
}

/// Splits `s` at every `sep`.
pub fn split_text(s: &str, sep: char) -> (r: Vec<String>)
    ensures
        r@.map_values(|p: String| p@) == split_on(s@, sep),
{
    let n = s.unicode_len();
    let mut parts: Vec<String> = Vec::new();
    let mut cur = String::new();
    let mut i: usize = 0;
    proof {
        assert(s@.take(0) =~= Seq::<char>::empty());
    }
    while i < n
        invariant
            n == s@.len(),
            0 <= i <= n,
            parts@.map_values(|p: String| p@).push(cur@) == split_on(s@.take(i as int), sep),
        decreases n - i,
    {
        let c = s.get_char(i);
        proof {
            let t = s@.take(i as int + 1);
            assert(t.drop_last() =~= s@.take(i as int));
            assert(t.last() == c);
            lemma_split_nonempty(s@.take(i as int), sep);
        }
        if c == sep {
            let done = cur;
            proof {
                assert(parts@.push(done).map_values(|p: String| p@) =~= parts@.map_values(
                    |p: String| p@,
                ).push(done@));
            }
            parts.push(done);
            cur = String::new();
            proof {
                assert(parts@.map_values(|p: String| p@).push(cur@) =~= split_on(
                    s@.take(i as int + 1),
                    sep,
                ));
            }
        } else {
            let piece = s.substring_char(i, i + 1);
            let ghost before = cur@;
            cur.append(piece);
            proof {
                assert(piece@ =~= seq![c]);
                assert(cur@ =~= before.push(c));
                assert(parts@.map_values(|p: String| p@).push(cur@) =~= split_on(
                    s@.take(i as int + 1),
                    sep,
                ));
            }
        }
        i = i + 1;
    }
    proof {
        assert(s@.take(n as int) =~= s@);
        assert(parts@.push(cur).map_values(|p: String| p@) =~= parts@.map_values(|p: String| p@).push(
            cur@,
        ));
    }
    parts.push(cur);
    parts
}

/// The entries of a comma-separated list, each trimmed.
pub fn list_entries(s: &str) -> (r: Vec<String>)
    ensures
        r@.map_values(|p: String| p@) == entries_of(s@),
{
    let parts = split_text(s, ',');
    let mut out: Vec<String> = Vec::new();
    let mut i: usize = 0;
    while i < parts.len()
        invariant
            0 <= i <= parts@.len(),
            parts@.map_values(|p: String| p@) == split_on(s@, ','),
            out@.map_values(|p: String| p@) =~= split_on(s@, ',').take(i as int).map_values(
                |p: Seq<char>| trim_of(p),
            ),
        decreases parts.len() - i,
    {
        let t = trim_text(parts[i].as_str());
        proof {
            assert(parts@.map_values(|p: String| p@)[i as int] == parts@[i as int]@);
        }
        let ghost before = out@;
        out.push(t);
        proof {
            assert(out@.map_values(|p: String| p@) =~= before.map_values(|p: String| p@).push(t@));
            assert(split_on(s@, ',').take(i as int + 1) =~= split_on(s@, ',').take(i as int).push(
                parts@[i as int]@,
            ));
            assert(out@.map_values(|p: String| p@) =~= split_on(s@, ',').take(i as int + 1).map_values(
                |p: Seq<char>| trim_of(p),
            ));
        }
        i = i + 1;
    }
    proof {
        assert(split_on(s@, ',').take(i as int) =~= split_on(s@, ','));
    }
    out
}

} // verus!

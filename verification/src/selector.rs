//! Schema selection: which schemas to introspect, and in what order.
//!
//! The database's shared comment is repurposed, by this system's own
//! convention, as the ordered comma-separated list of schema names to
//! introspect. The split is literal: no whitespace trimming, no escaping,
//! duplicates kept. An absent comment selects exactly `public`.

use vstd::prelude::*;

verus! {

/// Views of a sequence of owned strings.
pub open spec fn string_views(s: Seq<String>) -> Seq<Seq<char>> {
    s.map_values(|t: String| t@)
}

/// The pieces of `s` between literal commas, in order, empty pieces
/// included: splitting the empty string gives one empty piece, and every
/// comma adds one piece.
pub open spec fn split_commas(s: Seq<char>) -> Seq<Seq<char>>
    decreases s.len(),
{
    if s.len() == 0 {
        seq![Seq::<char>::empty()]
    } else if s[0] == ',' {
        seq![Seq::<char>::empty()] + split_commas(s.subrange(1, s.len() as int))
    } else {
        let rest = split_commas(s.subrange(1, s.len() as int));
        seq![seq![s[0]] + rest[0]] + rest.subrange(1, rest.len() as int)
    }
}

/// The view of an optional shared comment.
pub open spec fn comment_view(c: Option<String>) -> Option<Seq<char>> {
    match c {
        Option::Some(s) => Option::Some(s@),
        Option::None => Option::None,
    }
}

/// The ordered schema-name list for a given shared comment: the comment
/// split on commas where one is present, `public` alone where none is.
pub open spec fn selected_schemas(comment: Option<Seq<char>>) -> Seq<Seq<char>> {
    match comment {
        Option::Some(c) => split_commas(c),
        Option::None => seq!["public"@],
    }
}

pub proof fn lemma_split_commas_nonempty(s: Seq<char>)
    ensures
        split_commas(s).len() >= 1,
    decreases s.len(),
{
    if s.len() == 0 {
    } else if s[0] == ',' {
    } else {
        lemma_split_commas_nonempty(s.subrange(1, s.len() as int));
    }
}

/// Selection always yields at least one schema name.
pub proof fn lemma_selected_schemas_nonempty(comment: Option<Seq<char>>)
    ensures
        selected_schemas(comment).len() >= 1,
{
    match comment {
        Option::Some(c) => lemma_split_commas_nonempty(c),
        Option::None => {},
    }
}

proof fn lemma_split_no_comma(s: Seq<char>)
    requires
        forall|j: int| 0 <= j < s.len() ==> s[j] != ',',
    ensures
        split_commas(s) == seq![s],
    decreases s.len(),
{
    if s.len() == 0 {
        assert(split_commas(s) =~~= seq![s]);
    } else {
        let tail = s.subrange(1, s.len() as int);
        lemma_split_no_comma(tail);
        assert(seq![s[0]] + tail =~= s);
        assert(split_commas(s) =~~= seq![s]);
    }
}

proof fn lemma_split_at_comma(s: Seq<char>, i: int)
    requires
        0 <= i < s.len(),
        s[i] == ',',
        forall|j: int| 0 <= j < i ==> s[j] != ',',
    ensures
        split_commas(s) == seq![s.subrange(0, i)] + split_commas(
            s.subrange(i + 1, s.len() as int),
        ),
    decreases i,
{
    if i == 0 {
        assert(split_commas(s) =~~= seq![s.subrange(0, 0)] + split_commas(
            s.subrange(1, s.len() as int),
        ));
    } else {
        let tail = s.subrange(1, s.len() as int);
        lemma_split_at_comma(tail, i - 1);
        lemma_split_commas_nonempty(tail.subrange(i, tail.len() as int));
        assert(tail.subrange(0, i - 1) =~= s.subrange(1, i));
        assert(tail.subrange(i, tail.len() as int) =~= s.subrange(i + 1, s.len() as int));
        let rest = split_commas(tail);
        assert(rest[0] == s.subrange(1, i));
        assert(seq![s[0]] + s.subrange(1, i) =~= s.subrange(0, i));
        assert(rest.subrange(1, rest.len() as int) =~~= split_commas(
            s.subrange(i + 1, s.len() as int),
        ));
        assert(split_commas(s) =~~= seq![s.subrange(0, i)] + split_commas(
            s.subrange(i + 1, s.len() as int),
        ));
    }
}

/// Splits `s` on literal commas, keeping every piece verbatim: no
/// trimming, no escaping, no deduplication.
pub fn split_commas_exec(s: &str) -> (r: Vec<String>)
    ensures
        string_views(r@) == split_commas(s@),
{
    let n = s.unicode_len();
    let mut out: Vec<String> = Vec::new();
    let mut start: usize = 0;
    let mut i: usize = 0;
    proof {
        assert(s@.subrange(0, n as int) =~= s@);
        assert(string_views(out@) + split_commas(s@) =~= split_commas(s@));
    }
    while i < n
        invariant
            n == s@.len(),
            start <= i <= n,
            forall|j: int| start <= j < i ==> s@[j] != ',',
            split_commas(s@) == string_views(out@) + split_commas(
                s@.subrange(start as int, n as int),
            ),
        decreases n - i,
    {
        let c = s.get_char(i);
        if c == ',' {
            let piece = s.substring_char(start, i).to_owned();
            let ghost prev = out@;
            out.push(piece);
            proof {
                let sub = s@.subrange(start as int, n as int);
                lemma_split_at_comma(sub, i - start);
                assert(sub.subrange(0, i - start) =~= s@.subrange(start as int, i as int));
                assert(sub.subrange(i - start + 1, sub.len() as int) =~= s@.subrange(
                    i as int + 1,
                    n as int,
                ));
                assert(string_views(out@) =~= string_views(prev).push(piece@));
                assert(string_views(out@) + split_commas(s@.subrange(i as int + 1, n as int))
                    =~~= split_commas(s@));
            }
            start = i + 1;
        }
        i = i + 1;
    }
    let piece = s.substring_char(start, n).to_owned();
    let ghost prev = out@;
    out.push(piece);
    proof {
        lemma_split_no_comma(s@.subrange(start as int, n as int));
        assert(string_views(out@) =~= string_views(prev).push(piece@));
        assert(string_views(out@) =~~= split_commas(s@));
    }
    out
}

/// The ordered list of schema names to introspect for the given shared
/// comment, per [`selected_schemas`].
pub fn select_schemas(comment: &Option<String>) -> (r: Vec<String>)
    ensures
        string_views(r@) == selected_schemas(comment_view(*comment)),
{
    match comment {
        Option::Some(c) => split_commas_exec(c.as_str()),
        Option::None => {
            let mut out: Vec<String> = Vec::new();
            out.push(String::from_str("public"));
            proof {
                assert(string_views(out@) =~~= seq!["public"@]);
            }
            out
        },
    }
}

} // verus!

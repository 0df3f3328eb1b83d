//! Regular expressions of the site and playlist formats, through the regex
//! crate, and the word table used with it.
use vstd::prelude::*;
use crate::text;

verus! {

/// The text of group 1 of the leftmost match of `pattern` in `text`; None
/// when there is no match, the group did not take part, or the pattern does
/// not compile.
pub open spec fn group1(pattern: Seq<char>, text: Seq<char>) -> Option<Seq<char>> {
    match regex_groups(pattern, text) {
        Some(g) => if g.len() > 1 {
            g[1]
        } else {
            None
        },
        None => None,
    }
}

/// Group 1 of the leftmost match (see `group1`).
pub fn group1_exec(pattern: &str, text: &str) -> (r: Option<String>)
    ensures
        match r {
            Some(s) => group1(pattern@, text@) == Some(s@),
            None => group1(pattern@, text@) is None,
        },
{
    match regex_captures(pattern, text) {
        Some(g) => {
            if g.len() > 1 {
                assert(groups_view(g)[1] == (match g@[1] {
                    Some(s) => Some(s@),
                    None => None,
                }));
                match &g[1] {
                    Some(s) => Some(s.clone()),
                    None => None,
                }
            } else {
                None
            }
        },
        None => None,
    }
}

// ---------------------------------------------------------------------------
// Video codes
// ---------------------------------------------------------------------------

/// The pattern of a video code such as `abc-123`.
pub open spec fn code_pattern() -> Seq<char> {
    "(?i)([a-z0-9]{2,10}-\\d{3,6})"@
}

/// The leftmost video code in `s`, lower-cased.
pub open spec fn video_code(s: Seq<char>) -> Option<Seq<char>> {
    match group1(code_pattern(), s) {
        Some(c) => Some(text::lowercase(c)),
        None => None,
    }
}

/// The leftmost video code in `s` (such as `abc-123`), lower-cased.
pub fn extract_video_code(s: &str) -> (r: Option<String>)
    ensures
        r matches Some(c) ==> video_code(s@) == Some(c@),
        r is None ==> video_code(s@) is None,
{
    match group1_exec("(?i)([a-z0-9]{2,10}-\\d{3,6})", s) {
        Some(c) => {
            let low = crate::text::to_lowercase_at(&crate::text::chars_of(c.as_str()));
            Some(crate::text::string_of(&low))
        },
        None => None,
    }
}


// ---------------------------------------------------------------------------
// Replacement through the regex crate
// ---------------------------------------------------------------------------

/// What `Regex::new(pattern)` and `replace(text, replacement)` give (the
/// leftmost match replaced, `$` references in the replacement expanded);
/// None when the pattern does not compile.
pub uninterp spec fn regex_replaced(pattern: Seq<char>, text: Seq<char>, replacement: Seq<char>) -> Option<Seq<char>>;

/// What `Regex::new(pattern)` and `replace_all(text, replacement)` give;
/// None when the pattern does not compile.
pub uninterp spec fn regex_replaced_all(pattern: Seq<char>, text: Seq<char>, replacement: Seq<char>) -> Option<
    Seq<char>,
>;

/// `regex::Regex::new(pattern)` then `Regex::replace`. The matching and
/// the expansion of the replacement are the crate's; the result is only named.
#[verifier::external_body]
pub(crate) fn regex_replace(pattern: &str, text: &str, replacement: &str) -> (r: Option<String>)
    ensures
        match r {
            Some(s) => regex_replaced(pattern@, text@, replacement@) == Some(s@),
            None => regex_replaced(pattern@, text@, replacement@) is None,
        },
{
    regex::Regex::new(pattern).ok().map(|re| re.replace(text, replacement).to_string())
}

/// `regex::Regex::new(pattern)` then `Regex::replace_all`. The result is
/// only named.
#[verifier::external_body]
pub(crate) fn regex_replace_all(pattern: &str, text: &str, replacement: &str) -> (r: Option<String>)
    ensures
        match r {
            Some(s) => regex_replaced_all(pattern@, text@, replacement@) == Some(s@),
            None => regex_replaced_all(pattern@, text@, replacement@) is None,
        },
{
    regex::Regex::new(pattern).ok().map(|re| re.replace_all(text, replacement).to_string())
}


/// The text of the leftmost match of `pattern` in `text` (`Regex::find`);
/// None when there is none or the pattern does not compile.
pub uninterp spec fn regex_found(pattern: Seq<char>, text: Seq<char>) -> Option<Seq<char>>;

/// The groups of the leftmost match of `pattern` in `text`
/// (`Regex::captures`), group 0 first; None when there is no match or the
/// pattern does not compile.
pub uninterp spec fn regex_groups(pattern: Seq<char>, text: Seq<char>) -> Option<Seq<Option<Seq<char>>>>;

/// The groups of each successive non-overlapping match
/// (`Regex::captures_iter`).
pub uninterp spec fn regex_groups_all(pattern: Seq<char>, text: Seq<char>) -> Seq<Seq<Option<Seq<char>>>>;

/// What `Regex::new(pattern)` and `replace_all(text, f)` give when each
/// match is replaced by `table_lookup(table, match)`; None when the pattern
/// does not compile.
pub uninterp spec fn regex_replaced_by_table(pattern: Seq<char>, text: Seq<char>, table: Seq<(Seq<char>, Seq<char>)>) -> Option<
    Seq<char>,
>;

/// The value of the first entry of the table with key `w`, or `w` itself.
pub open spec fn table_lookup(table: Seq<(Seq<char>, Seq<char>)>, w: Seq<char>) -> Seq<char>
    decreases table.len(),
{
    if table.len() == 0 {
        w
    } else if table[0].0 == w {
        table[0].1
    } else {
        table_lookup(table.drop_first(), w)
    }
}

pub open spec fn table_view(t: Seq<(String, String)>) -> Seq<(Seq<char>, Seq<char>)> {
    t.map_values(|p: (String, String)| (p.0@, p.1@))
}

/// The replacement of a word (see `table_lookup`).
pub fn lookup_word(word: &str, table: &Vec<(String, String)>) -> (r: String)
    ensures
        r@ == table_lookup(table_view(table@), word@),
{
    let ghost tv = table_view(table@);
    let w = crate::text::chars_of(word);
    let mut i: usize = 0;
    assert(tv.skip(0) =~= tv);
    while i < table.len()
        invariant
            i <= table@.len(),
            tv == table_view(table@),
            w@ == word@,
            table_lookup(tv, word@) == table_lookup(tv.skip(i as int), word@),
        decreases table.len() - i,
    {
        proof {
            assert(tv.skip(i as int).drop_first() =~= tv.skip(i + 1));
            assert(tv.skip(i as int)[0] == tv[i as int]);
        }
        if crate::text::eq(&crate::text::chars_of(table[i].0.as_str()), &w) {
            return table[i].1.clone();
        }
        i += 1;
    }
    assert(tv.skip(i as int) =~= Seq::<(Seq<char>, Seq<char>)>::empty());
    word.to_string()
}

pub open spec fn groups_view(g: Vec<Option<String>>) -> Seq<Option<Seq<char>>> {
    g@.map_values(|o: Option<String>| match o {
        Some(s) => Some(s@),
        None => None,
    })
}

/// `regex::Regex::new(pattern)` then `Regex::find`. The result is only named.
#[verifier::external_body]
pub(crate) fn regex_find(pattern: &str, text: &str) -> (r: Option<String>)
    ensures
        match r {
            Some(s) => regex_found(pattern@, text@) == Some(s@),
            None => regex_found(pattern@, text@) is None,
        },
{
    regex::Regex::new(pattern).ok().and_then(|re| re.find(text).map(|m| m.as_str().to_string()))
}

/// `regex::Regex::new(pattern)` then `Regex::captures`, each group as text.
/// The result is only named.
#[verifier::external_body]
pub(crate) fn regex_captures(pattern: &str, text: &str) -> (r: Option<Vec<Option<String>>>)
    ensures
        match r {
            Some(g) => regex_groups(pattern@, text@) == Some(groups_view(g)),
            None => regex_groups(pattern@, text@) is None,
        },
{
    regex::Regex::new(pattern).ok().and_then(|re| re.captures(text).map(|c| c.iter().map(|m| m.map(|m| m.as_str().to_string())).collect()))
}

/// `regex::Regex::new(pattern)` then `Regex::captures_iter`, each match's
/// groups as text (nothing when the pattern does not compile). The result
/// is only named.
#[verifier::external_body]
pub(crate) fn regex_captures_all(pattern: &str, text: &str) -> (r: Vec<Vec<Option<String>>>)
    ensures
        r@.map_values(|g: Vec<Option<String>>| groups_view(g)) == regex_groups_all(pattern@, text@),
{
    regex::Regex::new(pattern).map(|re| re.captures_iter(text).map(|c| c.iter().map(|m| m.map(|m| m.as_str().to_string())).collect()).collect()).unwrap_or_default()
}

/// `regex::Regex::new(pattern)` then `Regex::replace_all`, each match
/// replaced through `lookup_word`. The result is only named.
#[verifier::external_body]
pub(crate) fn regex_replace_by_table(pattern: &str, text: &str, table: &Vec<(String, String)>) -> (r: Option<String>)
    ensures
        match r {
            Some(s) => regex_replaced_by_table(pattern@, text@, table_view(table@)) == Some(s@),
            None => regex_replaced_by_table(pattern@, text@, table_view(table@)) is None,
        },
{
    regex::Regex::new(pattern).ok().map(|re| re.replace_all(text, |c: &regex::Captures| lookup_word(&c[0], table)).to_string())
}

} // verus!

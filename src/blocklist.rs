use vstd::prelude::*;

verus! {

/// What trimming leading and trailing whitespace leaves of `s`.
pub uninterp spec fn trim_of(s: Seq<char>) -> Seq<char>;

/// Relies on str::trim: leading and trailing whitespace removed; the result
/// depends on the characters alone.
#[verifier::external_body]
fn trim_text(s: &str) -> (r: String)
    ensures
        r@ == trim_of(s@),
{
    s.trim().to_string()
}

/// The blocklist entry for an already trimmed line: none for an empty line,
/// else the line itself.
pub fn entry_of_trimmed(t: String) -> (r: Option<String>)
    ensures
        r is None <==> t@.len() == 0,
        r matches Some(d) ==> d@ == t@,
{
    if t.as_str().is_empty() {
        None
    } else {
        Some(t)
    }
}

/// The domain that one line of a blocklist file contributes: the line with
/// surrounding whitespace removed, or none when nothing is left.
pub fn blocklist_entry(line: &str) -> (r: Option<String>)
    ensures
        r is None <==> trim_of(line@).len() == 0,
        r matches Some(d) ==> d@ == trim_of(line@),
{
    entry_of_trimmed(trim_text(line))
}

} // verus!

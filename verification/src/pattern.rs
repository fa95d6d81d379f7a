use vstd::prelude::*;

verus! {

/// The characters that part a pattern into sections.
pub open spec fn is_separator(c: char) -> bool {
    c == '/' || c == '.'
}

/// Whether a section of the pattern begins at `i`: at the start, or behind a separator.
pub open spec fn starts_section(pattern: Seq<char>, i: int) -> bool {
    i == 0 || is_separator(pattern[i - 1])
}

/// Whether a section of the pattern ends before `i`: at the end, or before a separator.
pub open spec fn ends_section(pattern: Seq<char>, i: int) -> bool {
    i == pattern.len() || is_separator(pattern[i])
}

/// Whether a wildcard stands at `i`: a `*` that begins a section.
pub open spec fn wildcard_at(pattern: Seq<char>, i: int) -> bool {
    starts_section(pattern, i) && pattern[i] == '*'
}

/// Whether a named parameter begins at `i`: a `:` that begins a section.
pub open spec fn param_at(pattern: Seq<char>, i: int) -> bool {
    starts_section(pattern, i) && pattern[i] == ':'
}

/// Whether every character is one of the 128 of ASCII.
pub open spec fn is_ascii(text: Seq<char>) -> bool {
    forall|i: int| 0 <= i < text.len() ==> #[trigger] text[i] <= '\u{7f}'
}

/// The patterns that a router takes. A pattern is ASCII text in sections
/// parted by `/` and `.`; a section that begins with `:` names a parameter
/// and has a name behind the colon; a section that begins with `*` is the
/// wildcard: it is the `*` alone, and nothing but slashes comes behind it.
pub open spec fn well_formed(pattern: Seq<char>) -> bool {
    &&& is_ascii(pattern)
    &&& forall|i: int|
        0 <= i < pattern.len() && #[trigger] param_at(pattern, i) ==> !ends_section(pattern, i + 1)
    &&& forall|i: int, j: int|
        0 <= i < j < pattern.len() && #[trigger] wildcard_at(pattern, i) ==> #[trigger] pattern[j] == '/'
}

/// Whether the scan of a prefix of a pattern has met nothing that `well_formed` refuses.
spec fn prefix_fine(pattern: Seq<char>, upto: int) -> bool {
    &&& forall|i: int| 0 <= i < upto ==> #[trigger] pattern[i] <= '\u{7f}'
    &&& forall|i: int|
        0 <= i && i + 1 < upto && #[trigger] param_at(pattern, i) ==> !is_separator(pattern[i + 1])
    &&& forall|i: int, j: int|
        0 <= i < j < upto && #[trigger] wildcard_at(pattern, i) ==> #[trigger] pattern[j] == '/'
}

/// Tells whether a router takes a pattern.
pub fn is_well_formed(pattern: &str) -> (ok: bool)
    ensures
        ok == well_formed(pattern@),
{
    let ghost text = pattern@;
    let mut fine = true;
    let mut at_start = true;
    let mut named = false;
    let mut closed = false;
    for c in it: pattern.chars()
        invariant
            text == pattern@,
            it.seq() == text,
            at_start == starts_section(text, it.index()),
            fine ==> prefix_fine(text, it.index()),
            !fine ==> !well_formed(text),
            named == (it.index() > 0 && param_at(text, it.index() - 1)),
            closed == (exists|i: int| 0 <= i < it.index() && wildcard_at(text, i)),
    {
        let ghost n = it.index();
        let separator = c == '/' || c == '.';
        if fine {
            if c > '\u{7f}' {
                fine = false;
            } else if closed && c != '/' {
                fine = false;
            } else if named && separator {
                fine = false;
            }
        }
        let was_closed = closed;
        named = at_start && c == ':';
        if at_start && c == '*' {
            closed = true;
        }
        at_start = separator;
        proof {
            if !was_closed && closed {
                assert(wildcard_at(text, n));
            }
        }
    }
    if fine && named {
        return false;
    }
    fine
}

} // verus!

verus! {

/// The patterns that `routefinder` parses into a route. In each section a
/// leading `*` must be the whole section and a leading `:` must not be.
pub open spec fn parses(pattern: Seq<char>) -> bool {
    &&& forall|i: int|
        0 <= i < pattern.len() && #[trigger] wildcard_at(pattern, i) ==> ends_section(pattern, i + 1)
    &&& forall|i: int|
        0 <= i < pattern.len() && #[trigger] param_at(pattern, i) ==> !ends_section(pattern, i + 1)
}

/// A pattern that a router takes is one that `routefinder` parses.
pub proof fn well_formed_parses(pattern: Seq<char>)
    requires
        well_formed(pattern),
    ensures
        parses(pattern),
{
}

} // verus!

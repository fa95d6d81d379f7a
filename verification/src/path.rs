use vstd::prelude::*;

verus! {

/// How many slashes a text begins with.
pub open spec fn leading_slashes(text: Seq<char>) -> nat
    decreases text.len(),
{
    if text.len() > 0 && text[0] == '/' {
        1 + leading_slashes(text.skip(1))
    } else {
        0
    }
}

/// How many slashes a text ends with.
pub open spec fn trailing_slashes(text: Seq<char>) -> nat
    decreases text.len(),
{
    if text.len() > 0 && text.last() == '/' {
        1 + trailing_slashes(text.drop_last())
    } else {
        0
    }
}

/// How many slashes a text ends with once the slashes it begins with are
/// gone: none where the text is nothing but slashes.
pub open spec fn slack(text: Seq<char>) -> nat {
    trailing_slashes(text.skip(leading_slashes(text) as int))
}

/// A path as routes are matched against it: without the slashes it begins
/// with, and then without those it ends with.
pub open spec fn trimmed(text: Seq<char>) -> Seq<char> {
    text.subrange(leading_slashes(text) as int, text.len() - slack(text))
}

/// Whether a text ends with another.
pub open spec fn ends_with(text: Seq<char>, tail: Seq<char>) -> bool {
    tail.len() <= text.len() && text.skip(text.len() - tail.len()) == tail
}

/// A text begins with no more slashes than it has characters.
pub proof fn leading_slashes_fit(text: Seq<char>)
    ensures
        leading_slashes(text) <= text.len(),
    decreases text.len(),
{
    if text.len() > 0 && text[0] == '/' {
        leading_slashes_fit(text.skip(1));
    }
}

/// A text ends with no more slashes than it has characters.
pub proof fn trailing_slashes_fit(text: Seq<char>)
    ensures
        trailing_slashes(text) <= text.len(),
    decreases text.len(),
{
    if text.len() > 0 && text.last() == '/' {
        trailing_slashes_fit(text.drop_last());
    }
}

/// The characters that `trailing_slashes` counts are slashes.
pub proof fn trailing_are_slashes(text: Seq<char>, i: int)
    requires
        text.len() - trailing_slashes(text) <= i < text.len(),
    ensures
        text[i] == '/',
    decreases text.len(),
{
    trailing_slashes_fit(text);
    if text.len() > 0 && text.last() == '/' {
        if i < text.len() - 1 {
            trailing_are_slashes(text.drop_last(), i);
        }
    }
}

/// The slashes at both ends of a text lie apart: together they are no more
/// than the text has characters, so `trimmed` is a part of the text.
pub proof fn slashes_fit(text: Seq<char>)
    ensures
        leading_slashes(text) + slack(text) <= text.len(),
{
    leading_slashes_fit(text);
    trailing_slashes_fit(text.skip(leading_slashes(text) as int));
}

/// One more character behind a text: how the count of the slashes it begins
/// with changes.
proof fn leading_slashes_push(text: Seq<char>, c: char)
    ensures
        leading_slashes(text.push(c)) == if leading_slashes(text) == text.len() && c == '/' {
            leading_slashes(text) + 1
        } else {
            leading_slashes(text)
        },
    decreases text.len(),
{
    if text.len() > 0 && text[0] == '/' {
        assert(text.push(c).skip(1) =~= text.skip(1).push(c));
        leading_slashes_push(text.skip(1), c);
    } else if text.len() == 0 {
        assert(leading_slashes(text.push(c).skip(1)) == 0);
    }
}

/// One more character behind a text: how `slack` changes.
proof fn slack_push(text: Seq<char>, c: char)
    ensures
        slack(text.push(c)) == if c != '/' {
            0
        } else if leading_slashes(text) == text.len() {
            0
        } else {
            slack(text) + 1
        },
{
    leading_slashes_push(text, c);
    leading_slashes_fit(text);
    let lead = leading_slashes(text) as int;
    if leading_slashes(text) < text.len() || c != '/' {
        assert(text.push(c).skip(lead) =~= text.skip(lead).push(c));
        assert(text.skip(lead).push(c).drop_last() =~= text.skip(lead));
    }
}

/// Counts the slashes that a path ends with beyond those that it begins with.
pub fn slack_of(path: &str) -> (n: usize)
    ensures
        n == slack(path@),
{
    let ghost text = path@;
    let total = path.unicode_len();
    let mut only_slashes = true;
    let mut run: usize = 0;
    for c in it: path.chars()
        invariant
            text == path@,
            it.seq() == text,
            total == text.len(),
            it.index() <= total,
            only_slashes == (leading_slashes(text.take(it.index())) == it.index()),
            run == slack(text.take(it.index())),
            run <= it.index(),
    {
        let ghost seen = text.take(it.index());
        proof {
            assert(text.take(it.index() + 1) =~= seen.push(c));
            slack_push(seen, c);
            leading_slashes_push(seen, c);
            leading_slashes_fit(seen);
        }
        if c != '/' {
            only_slashes = false;
            run = 0;
        } else if !only_slashes {
            run = run + 1;
        }
    }
    proof {
        assert(text.take(text.len() as int) =~= text);
    }
    run
}

} // verus!

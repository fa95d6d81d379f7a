use vstd::prelude::*;

use crate::request::text_of;

verus! {

/// One end of a range of bytes as a request may ask for it.
#[derive(Clone, Copy, Debug, PartialEq, Eq, Structural)]
pub enum Bound {
    Included(u64),
    Excluded(u64),
    Unbounded,
}

/// The first byte that a range asks for.
pub open spec fn first_byte(from: Bound) -> int {
    match from {
        Bound::Included(n) => n as int,
        Bound::Excluded(n) => n + 1,
        Bound::Unbounded => 0,
    }
}

/// The last byte that a range asks for, of a file of `total` bytes.
pub open spec fn last_byte(to: Bound, total: u64) -> int {
    match to {
        Bound::Included(n) => n as int,
        Bound::Excluded(n) => n - 1,
        Bound::Unbounded => total - 1,
    }
}

/// How many bytes are sent for a range: those asked for, but no more than
/// the file has from the first of them on.
pub open spec fn bytes_sent(total: u64, first: int, last: int) -> int {
    if total - first <= last - first + 1 {
        total - first
    } else {
        last - first + 1
    }
}

/// The ranges that a file of `total` bytes can be read for. The range begins
/// within the file or at its end and does not end before it begins; its
/// length is a number that can be held; and the last byte that is sent has a
/// number, so a range that begins with the first byte of the file holds at
/// least one byte.
pub open spec fn can_serve(total: u64, from: Bound, to: Bound) -> bool {
    let first = first_byte(from);
    let last = last_byte(to, total);
    &&& 0 <= first <= total
    &&& first <= last <= u64::MAX
    &&& last - first + 1 <= u64::MAX
    &&& first + bytes_sent(total, first, last) >= 1
}

/// How a file is sent.
#[derive(Clone, Copy, Debug, PartialEq, Eq)]
pub struct FilePlan {
    /// The status of the response: 200 for the whole file, 206 for a part.
    pub status: u16,
    /// Where in the file to begin reading.
    pub start: u64,
    /// How many bytes to read and to announce as the length of the body.
    pub length: u64,
    /// The first and last byte to announce as the range of the body, where
    /// a part is sent.
    pub range: Option<(u64, u64)>,
    /// The length of the whole file, announced beside the range.
    pub total: u64,
}

/// How a file of `total` bytes is sent in answer to a request with the given
/// range, or with none: the whole file with 200, or the part asked for with 206.
pub open spec fn plan_of(total: u64, range: Option<(Bound, Bound)>) -> FilePlan {
    match range {
        Some((from, to)) => {
            let first = first_byte(from);
            let length = bytes_sent(total, first, last_byte(to, total));
            FilePlan {
                status: 206,
                start: first as u64,
                length: length as u64,
                range: Some((first as u64, (first + length - 1) as u64)),
                total,
            }
        },
        None => FilePlan { status: 200, start: 0, length: total, range: None, total },
    }
}

/// Tells whether a file of `total` bytes can be read for a range.
pub fn is_servable(total: u64, from: Bound, to: Bound) -> (ok: bool)
    ensures
        ok == can_serve(total, from, to),
{
    let first = match from {
        Bound::Included(n) => n,
        Bound::Excluded(n) => {
            if n == u64::MAX {
                return false;
            }
            n + 1
        },
        Bound::Unbounded => 0,
    };
    let last = match to {
        Bound::Included(n) => n,
        Bound::Excluded(n) => {
            if n == 0 {
                return false;
            }
            n - 1
        },
        Bound::Unbounded => {
            if total == 0 {
                return false;
            }
            total - 1
        },
    };
    if first > total || first > last {
        return false;
    }
    if last - first == u64::MAX {
        return false;
    }
    let asked = last - first + 1;
    let left = total - first;
    let length = if left <= asked {
        left
    } else {
        asked
    };
    first >= 1 || length >= 1
}

/// Plans how a file of `total` bytes is sent in answer to a request with the
/// given range, or with none.
pub fn plan(total: u64, range: Option<(Bound, Bound)>) -> (plan: FilePlan)
    requires
        range matches Some((from, to)) ==> can_serve(total, from, to),
    ensures
        plan == plan_of(total, range),
        plan.start + plan.length <= total,
{
    match range {
        Some((from, to)) => {
            let first = match from {
                Bound::Included(n) => n,
                Bound::Excluded(n) => n + 1,
                Bound::Unbounded => 0,
            };
            let last = match to {
                Bound::Included(n) => n,
                Bound::Excluded(n) => n - 1,
                Bound::Unbounded => total - 1,
            };
            let asked = last - first + 1;
            let left = total - first;
            let length = if left <= asked {
                left
            } else {
                asked
            };
            FilePlan { status: 206, start: first, length, range: Some((first, first + length - 1)), total }
        },
        None => FilePlan { status: 200, start: 0, length: total, range: None, total },
    }
}

/// The media type that `mime_guess` names first for a file extension, as
/// text; `None` where it knows none for the extension.
pub uninterp spec fn media_type_of(extension: Seq<char>) -> Option<Seq<char>>;

/// `mime_guess::from_ext` and `MimeGuess::first` of what it returns, as text.
#[verifier::external_body]
fn guess_media_type(extension: &str) -> (guess: Option<String>)
    ensures
        text_of(guess) == media_type_of(extension@),
{
    mime_guess::from_ext(extension).first().map(|mime| mime.to_string())
}

/// The content type to send a file with, for what was guessed of its
/// extension: the guess, or `video/*` where there is none.
pub open spec fn content_type_for(guess: Option<Seq<char>>) -> Seq<char> {
    match guess {
        Some(media_type) => media_type,
        None => "video/*"@,
    }
}

/// The content type to send a file with, given the guess for its extension.
pub fn content_type_or_default(guess: Option<String>) -> (content_type: String)
    ensures
        content_type@ == content_type_for(text_of(guess)),
{
    match guess {
        Some(media_type) => media_type,
        None => "video/*".to_owned(),
    }
}

/// The content type to send a file with, by its extension if it has one.
pub fn content_type(extension: Option<&str>) -> (content_type: String)
    ensures
        content_type@ == content_type_for(
            match extension {
                Some(ext) => media_type_of(ext@),
                None => None,
            },
        ),
{
    match extension {
        Some(ext) => content_type_or_default(guess_media_type(ext)),
        None => content_type_or_default(None),
    }
}

} // verus!

//! Trailing white space.

use vstd::prelude::*;
use vstd::string::StrSliceExecFns;
use vstd::string::StringExecFns;

verus! {

/// Whether `c` is white space: a character with the Unicode property
/// `White_Space`.
pub open spec fn is_space(c: char) -> bool {
    let code = c as u32;
    ||| 0x09 <= code <= 0x0D
    ||| code == 0x20
    ||| code == 0x85
    ||| code == 0xA0
    ||| code == 0x1680
    ||| 0x2000 <= code <= 0x200A
    ||| code == 0x2028
    ||| code == 0x2029
    ||| code == 0x202F
    ||| code == 0x205F
    ||| code == 0x3000
}

/// `text` without the white space at its end.
pub open spec fn trimmed(text: Seq<char>) -> Seq<char>
    decreases text.len(),
{
    if text.len() > 0 && is_space(text.last()) {
        trimmed(text.drop_last())
    } else {
        text
    }
}

/// Whether `c` is white space.
pub fn space(c: char) -> (white: bool)
    ensures
        white == is_space(c),
{
    let code = c as u32;
    (0x09 <= code && code <= 0x0D) || code == 0x20 || code == 0x85 || code == 0xA0 || code
        == 0x1680 || (0x2000 <= code && code <= 0x200A) || code == 0x2028 || code == 0x2029 || code
        == 0x202F || code == 0x205F || code == 0x3000
}

/// A copy of `text` without the white space at its end: the longest
/// beginning of `text` that does not end in white space.
pub fn trim_end(text: &str) -> (kept: String)
    ensures
        kept@ == trimmed(text@),
        kept@ == text@.subrange(0, kept@.len() as int),
        kept@.len() > 0 ==> !is_space(kept@.last()),
        forall|i: int| kept@.len() <= i < text@.len() ==> is_space(text@[i]),
{
    proof {
        lemma_trimmed(text@);
    }
    let mut len = text.unicode_len();
    assert(text@.subrange(0, text@.len() as int) =~= text@);
    while len > 0 && space(text.get_char(len - 1))
        invariant
            len <= text@.len(),
            trimmed(text@) == trimmed(text@.subrange(0, len as int)),
        decreases len,
    {
        assert(text@.subrange(0, len as int).drop_last() =~= text@.subrange(0, len as int - 1));
        len -= 1;
    }
    String::from_str(text.substring_char(0, len))
}

/// Trimming leaves no white space at the end and takes nothing else away.
pub proof fn lemma_trimmed(text: Seq<char>)
    ensures
        trimmed(text).len() <= text.len(),
        trimmed(text) == text.subrange(0, trimmed(text).len() as int),
        trimmed(text).len() > 0 ==> !is_space(trimmed(text).last()),
        forall|i: int| trimmed(text).len() <= i < text.len() ==> is_space(text[i]),
    decreases text.len(),
{
    if text.len() > 0 && is_space(text.last()) {
        lemma_trimmed(text.drop_last());
        assert(text.drop_last().subrange(0, trimmed(text).len() as int) =~= text.subrange(
            0,
            trimmed(text).len() as int,
        ));
        assert forall|i: int| trimmed(text).len() <= i < text.len() implies is_space(text[i]) by {
            if i < text.len() - 1 {
                assert(text[i] == text.drop_last()[i]);
            }
        }
    } else {
        assert(text.subrange(0, text.len() as int) =~= text);
    }
}

} // verus!

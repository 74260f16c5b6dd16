//! The submission filter: which records count toward the report.

use vstd::prelude::*;
use vstd::string::StrSliceExecFns;

verus! {

/// `c` with the letters `A` to `Z` turned into `a` to `z`.
pub open spec fn lowered(c: char) -> char {
    if 'A' <= c && c <= 'Z' {
        ((c as u8) + 32) as char
    } else {
        c
    }
}

/// Whether `text` is `word` once its capital ASCII letters are lowered.
pub open spec fn reads_as(text: Seq<char>, word: Seq<char>) -> bool {
    &&& text.len() == word.len()
    &&& forall|i: int| 0 <= i < text.len() ==> lowered(#[trigger] text[i]) == word[i]
}

/// Whether `text` says that the record was submitted: `y`, `yes` or `true`
/// in any mix of upper and lower case.
pub open spec fn is_affirmative(text: Seq<char>) -> bool {
    reads_as(text, seq!['y']) || reads_as(text, seq!['y', 'e', 's']) || reads_as(
        text,
        seq!['t', 'r', 'u', 'e'],
    )
}

/// Whether `text` says that the record is not to be submitted: `n`, `no` or
/// `false` in any mix of upper and lower case.
pub open spec fn is_negative(text: Seq<char>) -> bool {
    reads_as(text, seq!['n']) || reads_as(text, seq!['n', 'o']) || reads_as(
        text,
        seq!['f', 'a', 'l', 's', 'e'],
    )
}

/// Whether a record with this submission field counts toward the report.
///
/// With `ignore_submitted` every record counts. Without it a record counts
/// unless its field is an affirmative or a negative token: any other text,
/// the empty one too, leaves the record pending, and pending records count.
pub open spec fn counts(submitted: Seq<char>, ignore_submitted: bool) -> bool {
    ignore_submitted || !(is_affirmative(submitted) || is_negative(submitted))
}

/// Lowers one character.
pub fn lower(c: char) -> (low: char)
    ensures
        low == lowered(c),
{
    if 'A' <= c && c <= 'Z' {
        let code: u8 = c as u8;
        (code + 32) as char
    } else {
        c
    }
}

/// Compares `text` with `word`, taking capital ASCII letters in `text` for
/// their small ones.
pub fn matches_word(text: &str, word: &str) -> (same: bool)
    ensures
        same == reads_as(text@, word@),
{
    let n: usize = text.unicode_len();
    if n != word.unicode_len() {
        return false;
    }
    let mut i: usize = 0;
    while i < n
        invariant
            n == text@.len(),
            n == word@.len(),
            i <= n,
            forall|j: int| 0 <= j < i ==> lowered(#[trigger] text@[j]) == word@[j],
        decreases n - i,
    {
        if lower(text.get_char(i)) != word.get_char(i) {
            return false;
        }
        i += 1;
    }
    true
}

/// Decides whether a record with this submission field counts.
pub fn is_counted(submitted: &str, ignore_submitted: bool) -> (counted: bool)
    ensures
        counted == counts(submitted@, ignore_submitted),
{
    if ignore_submitted {
        return true;
    }
    proof {
        reveal_strlit("y");
        reveal_strlit("yes");
        reveal_strlit("true");
        reveal_strlit("n");
        reveal_strlit("no");
        reveal_strlit("false");
        assert("y"@ =~= seq!['y']);
        assert("yes"@ =~= seq!['y', 'e', 's']);
        assert("true"@ =~= seq!['t', 'r', 'u', 'e']);
        assert("n"@ =~= seq!['n']);
        assert("no"@ =~= seq!['n', 'o']);
        assert("false"@ =~= seq!['f', 'a', 'l', 's', 'e']);
    }
    let marked = matches_word(submitted, "y") || matches_word(submitted, "yes") || matches_word(
        submitted,
        "true",
    ) || matches_word(submitted, "n") || matches_word(submitted, "no") || matches_word(
        submitted,
        "false",
    );
    !marked
}

} // verus!

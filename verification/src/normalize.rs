//! Word normalizer: maps a surface string to its canonical folded form.
//!
//! The transformation replaces a closed set of diacritic/ligature characters
//! with ASCII digraphs (umlaut vowels gain a trailing `e`, the sharp-s
//! ligature becomes a double `s`), strips hyphens and slashes, and finally
//! lower-cases what remains.  Dictionary stores index headwords both in
//! native orthography and in this folded ASCII form, and a query must match
//! either.

use crate::text::{ascii_lowercase, lower_chars};
use vstd::prelude::*;
use vstd::utf8::is_ascii_chars;

verus! {

/// What one character contributes to the folded form: umlaut vowels and the
/// sharp-s ligature are replaced by digraphs, hyphen and slash are dropped,
/// everything else passes through unchanged.
pub open spec fn fold_char(c: char) -> Seq<char> {
    if c == '\u{e4}' {  // a-umlaut
        seq!['a', 'e']
    } else if c == '\u{c4}' {  // capital a-umlaut
        seq!['A', 'e']
    } else if c == '\u{f6}' {  // o-umlaut
        seq!['o', 'e']
    } else if c == '\u{d6}' {  // capital o-umlaut
        seq!['O', 'e']
    } else if c == '\u{fc}' {  // u-umlaut
        seq!['u', 'e']
    } else if c == '\u{dc}' {  // capital u-umlaut
        seq!['U', 'e']
    } else if c == '\u{df}' {  // sharp s
        seq!['s', 's']
    } else if c == '\u{1e9e}' {  // capital sharp s
        seq!['S', 's']
    } else if c == '-' || c == '/' {
        Seq::<char>::empty()
    } else {
        seq![c]
    }
}

/// The folded form of a whole character sequence.
pub open spec fn fold_chars(s: Seq<char>) -> Seq<char>
    decreases s.len(),
{
    if s.len() == 0 {
        Seq::<char>::empty()
    } else {
        fold_chars(s.drop_last()) + fold_char(s.last())
    }
}

/// The result of full Unicode case folding, named but not written out: it is
/// a function of the input characters alone.
pub uninterp spec fn lower_of(s: Seq<char>) -> Seq<char>;

/// Case folding of a character sequence: an all-ASCII sequence is lower-cased
/// character by character, any other sequence by full Unicode case folding.
pub open spec fn lowered(s: Seq<char>) -> Seq<char> {
    if is_ascii_chars(s) {
        lower_chars(s)
    } else {
        lower_of(s)
    }
}

/// The canonical folded form of a surface word.
pub open spec fn normalized(s: Seq<char>) -> Seq<char> {
    lowered(fold_chars(s))
}

/// Relies on str::to_lowercase: the result depends on the characters alone,
/// and an empty string stays empty.
#[verifier::external_body]
fn unicode_lowercase(s: &str) -> (r: String)
    ensures
        r@ == lower_of(s@),
        s@.len() == 0 ==> r@.len() == 0,
{
    s.to_lowercase()
}

/// Lower-cases a string: by the verified ASCII folding when every character
/// is ASCII, otherwise by full Unicode case folding.
pub fn lowercase_str(s: &str) -> (r: String)
    ensures
        r@ == lowered(s@),
{
    if s.is_ascii() {
        ascii_lowercase(s)
    } else {
        unicode_lowercase(s)
    }
}

/// Applies the diacritic/ligature replacements and strips hyphens and
/// slashes, leaving letter case untouched.
fn fold_str(s: &str) -> (r: String)
    ensures
        r@ == fold_chars(s@),
{
    let n: usize = s.unicode_len();
    let mut out = String::new();
    let mut i: usize = 0;
    while i < n
        invariant
            n == s@.len(),
            i <= n,
            out@ == fold_chars(s@.subrange(0, i as int)),
        decreases n - i,
    {
        let c = s.get_char(i);
        if c == '\u{e4}' {
            out.push('a');
            out.push('e');
        } else if c == '\u{c4}' {
            out.push('A');
            out.push('e');
        } else if c == '\u{f6}' {
            out.push('o');
            out.push('e');
        } else if c == '\u{d6}' {
            out.push('O');
            out.push('e');
        } else if c == '\u{fc}' {
            out.push('u');
            out.push('e');
        } else if c == '\u{dc}' {
            out.push('U');
            out.push('e');
        } else if c == '\u{df}' {
            out.push('s');
            out.push('s');
        } else if c == '\u{1e9e}' {
            out.push('S');
            out.push('s');
        } else if c == '-' || c == '/' {
        } else {
            out.push(c);
        }
        proof {
            assert(s@.subrange(0, (i + 1) as int).drop_last() =~= s@.subrange(0, i as int));
            assert(s@.subrange(0, (i + 1) as int).last() == s@[i as int]);
            assert(out@ =~= fold_chars(s@.subrange(0, (i + 1) as int)));
        }
        i = i + 1;
    }
    proof {
        assert(s@.subrange(0, n as int) =~= s@);
    }
    out
}

/// Normalizes a surface word: diacritic/ligature folding, hyphen and slash
/// stripping, then case folding.  Total and deterministic: the result is a
/// function of the input characters alone.
pub fn normalize_word(word: &str) -> (r: String)
    ensures
        r@ == normalized(word@),
{
    let folded = fold_str(word);
    lowercase_str(folded.as_str())
}

/// The characters the folding step rewrites or strips.
pub open spec fn foldable_char(c: char) -> bool {
    c == '\u{e4}' || c == '\u{c4}' || c == '\u{f6}' || c == '\u{d6}' || c == '\u{fc}' || c
        == '\u{dc}' || c == '\u{df}' || c == '\u{1e9e}' || c == '-' || c == '/'
}

/// The folded form never contains a foldable character.
proof fn lemma_fold_output_clean(s: Seq<char>)
    ensures
        forall|k: int|
            0 <= k < fold_chars(s).len() ==> !foldable_char(#[trigger] fold_chars(s)[k]),
    decreases s.len(),
{
    if s.len() != 0 {
        lemma_fold_output_clean(s.drop_last());
        let prev = fold_chars(s.drop_last());
        assert forall|k: int| 0 <= k < fold_chars(s).len() implies !foldable_char(
            #[trigger] fold_chars(s)[k],
        ) by {
            if k < prev.len() {
                assert(fold_chars(s)[k] == prev[k]);
            } else {
                assert(fold_chars(s)[k] == fold_char(s.last())[k - prev.len()]);
            }
        }
    }
}

/// Folding a sequence with no foldable character leaves it unchanged.
proof fn lemma_fold_neutral(r: Seq<char>)
    requires
        forall|k: int| 0 <= k < r.len() ==> !foldable_char(#[trigger] r[k]),
    ensures
        fold_chars(r) == r,
    decreases r.len(),
{
    if r.len() != 0 {
        assert forall|k: int| 0 <= k < r.drop_last().len() implies !foldable_char(
            #[trigger] r.drop_last()[k],
        ) by {
            assert(r.drop_last()[k] == r[k]);
        }
        lemma_fold_neutral(r.drop_last());
        assert(fold_char(r.last()) =~= seq![r.last()]);
        assert(fold_chars(r) =~= r);
    }
}

/// ASCII lower-casing keeps a character free of foldable characters, is
/// idempotent, and keeps it ASCII.
proof fn lemma_lower_char_props(c: char)
    ensures
        !foldable_char(c) ==> !foldable_char(crate::text::lower_char(c)),
        crate::text::lower_char(crate::text::lower_char(c)) == crate::text::lower_char(c),
        '\0' <= c <= '\u{7f}' ==> '\0' <= crate::text::lower_char(c) <= '\u{7f}',
{
}

/// Normalization is idempotent on words whose folded form is all ASCII: the
/// normalized word then contains no foldable character and is already
/// lower-case, so a second normalization returns it unchanged.
pub proof fn lemma_normalize_idempotent_ascii(w: Seq<char>)
    requires
        is_ascii_chars(fold_chars(w)),
    ensures
        normalized(normalized(w)) == normalized(w),
{
    let f = fold_chars(w);
    let r = lower_chars(f);
    assert(normalized(w) == r);
    lemma_fold_output_clean(w);
    assert forall|k: int| 0 <= k < r.len() implies !foldable_char(#[trigger] r[k]) by {
        assert(r[k] == crate::text::lower_char(f[k]));
        lemma_lower_char_props(f[k]);
    }
    assert(is_ascii_chars(r)) by {
        assert forall|k: int| 0 <= k < r.len() implies '\0' <= #[trigger] r[k] <= '\u{7f}' by {
            assert(r[k] == crate::text::lower_char(f[k]));
            assert('\0' <= f[k] <= '\u{7f}');
            lemma_lower_char_props(f[k]);
        }
    }
    lemma_fold_neutral(r);
    assert(fold_chars(r) == r);
    assert(lower_chars(r) =~= r) by {
        assert forall|k: int| 0 <= k < r.len() implies lower_chars(r)[k] == r[k] by {
            assert(lower_chars(r)[k] == crate::text::lower_char(r[k]));
            assert(r[k] == crate::text::lower_char(f[k]));
            lemma_lower_char_props(f[k]);
        }
    }
    assert(normalized(r) == r);
}

} // verus!

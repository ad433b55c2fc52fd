//! What the text operations do, seen from their results.
use crate::outside::digits_value;
use crate::text::{
    decimal, digit, is_space, labelled_text, lemma_decimal_digits, lower, lowered, replaced,
    split_at_first, trimmed, trimmed_end, trimmed_start, upper, uppered,
};
use vstd::prelude::*;
use vstd::string::*;

verus! {

/// A decimal numeral reads back as the number that was written: it is made of digits, has their
/// value, and no zero stands before it. So two numbers never have the same numeral.
pub proof fn law_numeral_reads_back(n: nat)
    ensures
        digits_value(decimal(n)) == n,
        decimal(n).len() > 0,
        forall|i: int|
            0 <= i < decimal(n).len() ==> '0' <= (#[trigger] decimal(n)[i]) && decimal(n)[i]
                <= '9',
        n > 0 ==> decimal(n)[0] != '0',
        n == 0 ==> decimal(n) == seq!['0'],
    decreases n,
{
    lemma_decimal_digits(n);
    let last = n % 10;
    assert(digit(last) as u32 == 48 + last);
    if n >= 10 {
        law_numeral_reads_back(n / 10);
        assert(decimal(n).drop_last() =~= decimal(n / 10));
        assert(decimal(n)[0] == decimal(n / 10)[0]);
    } else {
        reveal_with_fuel(digits_value, 2);
        assert(decimal(n).drop_last() =~= Seq::empty());
    }
}

/// The characters that Unicode counts as white space, and no others, are spaces.
pub proof fn law_characters_that_are_spaces(c: char)
    ensures
        is_space(c) <==> ('\t' <= c && c <= '\r') || c == ' ' || c == '\u{85}' || c == '\u{a0}' || c
            == '\u{1680}' || ('\u{2000}' <= c && c <= '\u{200a}') || c == '\u{2028}' || c
            == '\u{2029}' || c == '\u{202f}' || c == '\u{205f}' || c == '\u{3000}',
{
}

/// Trimming takes white space, and nothing but white space, from the two ends of a text, and
/// leaves none there.
pub proof fn law_trimming_takes_only_spaces(s: Seq<char>)
    ensures
        exists|a: int, b: int|
            0 <= a <= b <= s.len() && trimmed(s) == #[trigger] s.subrange(a, b) && all_spaces(
                s.take(a),
            ) && all_spaces(s.skip(b)),
        trimmed(s).len() > 0 ==> !is_space(trimmed(s).first()) && !is_space(trimmed(s).last()),
{
    let t = trimmed_start(s);
    lemma_start(s);
    lemma_end(t);
    let a = s.len() - t.len();
    let b = a + trimmed(s).len();
    assert(s.subrange(a, b) =~= trimmed(s));
    assert forall|i: int| 0 <= i < s.skip(b).len() implies is_space(#[trigger] s.skip(b)[i]) by {
        assert(t.skip(b - a)[i] == s.skip(b)[i]);
    }
}

/// Every character is white space.
pub open spec fn all_spaces(s: Seq<char>) -> bool {
    forall|i: int| 0 <= i < s.len() ==> is_space(#[trigger] s[i])
}

proof fn lemma_start(s: Seq<char>)
    ensures
        trimmed_start(s).len() <= s.len(),
        trimmed_start(s) == s.skip(s.len() - trimmed_start(s).len()),
        all_spaces(s.take(s.len() - trimmed_start(s).len())),
        trimmed_start(s).len() > 0 ==> !is_space(trimmed_start(s).first()),
    decreases s.len(),
{
    if s.len() > 0 && is_space(s.first()) {
        let rest = s.drop_first();
        lemma_start(rest);
        let k = s.len() - trimmed_start(s).len();
        assert(s.skip(k) =~= rest.skip(k - 1));
        assert forall|i: int| 0 <= i < k implies is_space(#[trigger] s.take(k)[i]) by {
            if i > 0 {
                assert(rest.take(k - 1)[i - 1] == s[i]);
            }
        }
    } else {
        assert(s.skip(0) =~= s);
    }
}

proof fn lemma_end(s: Seq<char>)
    ensures
        trimmed_end(s).len() <= s.len(),
        trimmed_end(s) == s.take(trimmed_end(s).len() as int),
        all_spaces(s.skip(trimmed_end(s).len() as int)),
        trimmed_end(s).len() > 0 ==> !is_space(trimmed_end(s).last()) && trimmed_end(s).first()
            == s.first(),
    decreases s.len(),
{
    if s.len() > 0 && is_space(s.last()) {
        let rest = s.drop_last();
        lemma_end(rest);
        let k = trimmed_end(s).len() as int;
        assert(s.take(k) =~= rest.take(k));
        assert forall|i: int| 0 <= i < s.skip(k).len() implies is_space(
            #[trigger] s.skip(k)[i],
        ) by {
            if k + i < rest.len() {
                assert(rest.skip(k)[i] == s.skip(k)[i]);
            }
        }
    } else {
        assert(s.take(s.len() as int) =~= s);
    }
}

/// A text is split where the separator first occurs: the two parts with the separator between
/// them are the text, the first part does not hold it, and only a text without it is not split.
pub proof fn law_split_is_at_the_first(s: Seq<char>, separator: char)
    ensures
        match split_at_first(s, separator) {
            Some((before, after)) => s == before.push(separator) + after && !before.contains(
                separator,
            ),
            None => !s.contains(separator),
        },
{
    s.index_of_first_ensures(separator);
    if let Some((before, after)) = split_at_first(s, separator) {
        assert(s =~= before.push(separator) + after);
        if before.contains(separator) {
            let k = choose|k: int| 0 <= k < before.len() && before[k] == separator;
            assert(s[k] == separator);
        }
    }
}

/// `pattern` stands in `s` at `i`.
pub open spec fn stands_at(pattern: Seq<char>, s: Seq<char>, i: int) -> bool {
    0 <= i && i + pattern.len() <= s.len() && s.subrange(i, i + pattern.len()) == pattern
}

/// Replacing goes from one occurrence to the next: what comes before the first one stays, the
/// occurrence becomes `with`, and the same is done to what follows; without one nothing changes.
pub proof fn law_replacing_goes_on_after_the_first(
    s: Seq<char>,
    pattern: Seq<char>,
    with: Seq<char>,
    k: int,
)
    requires
        pattern.len() > 0,
        0 <= k <= s.len(),
        forall|i: int| 0 <= i < k ==> !#[trigger] stands_at(pattern, s, i),
    ensures
        stands_at(pattern, s, k) ==> replaced(s, pattern, with) == s.take(k) + with + replaced(
            s.skip(k + pattern.len()),
            pattern,
            with,
        ),
        k == s.len() ==> replaced(s, pattern, with) == s,
    decreases s.len(),
{
    if s.len() > 0 {
        if k == 0 {
            if stands_at(pattern, s, 0) {
                assert(pattern.is_prefix_of(s));
                assert(s.take(0) + with =~= with);
            }
        } else {
            assert(!stands_at(pattern, s, 0));
            assert(!pattern.is_prefix_of(s));
            let rest = s.skip(1);
            assert forall|i: int| 0 <= i < k - 1 implies !#[trigger] stands_at(
                pattern,
                rest,
                i,
            ) by {
                if stands_at(pattern, rest, i) {
                    assert(s.subrange(i + 1, i + 1 + pattern.len()) =~= rest.subrange(
                        i,
                        i + pattern.len(),
                    ));
                    assert(stands_at(pattern, s, i + 1));
                }
            }
            law_replacing_goes_on_after_the_first(rest, pattern, with, k - 1);
            if stands_at(pattern, s, k) {
                assert(s.subrange(k, k + pattern.len()) =~= rest.subrange(
                    k - 1,
                    k - 1 + pattern.len(),
                ));
                assert(stands_at(pattern, rest, k - 1));
                assert(rest.skip(k - 1 + pattern.len()) =~= s.skip(k + pattern.len()));
                let tail = replaced(s.skip(k + pattern.len()), pattern, with);
                assert(seq![s.first()] + (rest.take(k - 1) + with + tail) =~= s.take(k) + with
                    + tail);
            }
            if k == s.len() {
                assert(seq![s.first()] + rest =~= s);
            }
        }
    }
}

/// Lower case changes the 26 letters from A to Z, each into the letter 32 places on, and upper
/// case undoes exactly that; no other character changes.
pub proof fn law_case_of_letters(c: char)
    ensures
        'A' <= c && c <= 'Z' ==> lower(c) as u32 == c as u32 + 32 && upper(lower(c)) == c,
        'a' <= c && c <= 'z' ==> upper(c) as u32 == c as u32 - 32 && lower(upper(c)) == c,
        !('A' <= c && c <= 'Z') ==> lower(c) == c,
        !('a' <= c && c <= 'z') ==> upper(c) == c,
{
}

/// The case of a text is changed letter by letter, and the case that it had makes no difference.
pub proof fn law_case_of_texts(s: Seq<char>, i: int)
    ensures
        lowered(s).len() == s.len(),
        uppered(s).len() == s.len(),
        0 <= i < s.len() ==> lowered(s)[i] == lower(s[i]) && uppered(s)[i] == upper(s[i]),
        lowered(uppered(s)) == lowered(s),
        uppered(lowered(s)) == uppered(s),
        lowered(lowered(s)) == lowered(s),
{
    assert(lowered(uppered(s)) =~= lowered(s));
    assert(uppered(lowered(s)) =~= uppered(s));
    assert(lowered(lowered(s)) =~= lowered(s));
}

/// A label comes before its text, with a colon and a space between them.
pub proof fn law_label_and_text(label: Seq<char>, text: Seq<char>)
    ensures
        labelled_text(label, text) == label + ": "@ + text,
{
    reveal_strlit(": ");
    assert(labelled_text(label, text) =~= label + ": "@ + text);
}

} // verus!

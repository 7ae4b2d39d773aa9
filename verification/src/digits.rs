//! Identifier extraction: the decimal digits of a run of tokens.
//!
//! Tokens are joined without a separator and every character that is not an
//! ASCII decimal digit is struck out. Nothing is rejected: dashes, spaces and
//! punctuation simply disappear.

use vstd::prelude::*;

verus! {

/// Whether `c` is one of the ten ASCII decimal digits.
pub open spec fn is_decimal_digit(c: char) -> bool {
    '0' <= c <= '9'
}

/// Whether every character of `text` is a decimal digit.
pub open spec fn all_digits(text: Seq<char>) -> bool {
    forall|i: int| 0 <= i < text.len() ==> is_decimal_digit(#[trigger] text[i])
}

/// The decimal digits of `text`, in the order in which they occur.
pub open spec fn digits_of(text: Seq<char>) -> Seq<char> {
    text.filter(|c: char| is_decimal_digit(c))
}

/// The digits of the tokens joined without a separator.
pub open spec fn extracted(tokens: Seq<Seq<char>>) -> Seq<char> {
    digits_of(tokens.flatten())
}

/// The texts of a run of strings.
pub open spec fn texts(tokens: Seq<String>) -> Seq<Seq<char>> {
    tokens.map_values(|t: String| t@)
}

/// The positions of the decimal digits of `text`, in rising order.
pub open spec fn digit_positions(text: Seq<char>) -> Seq<int>
    decreases text.len(),
{
    if text.len() == 0 {
        Seq::empty()
    } else if is_decimal_digit(text.last()) {
        digit_positions(text.drop_last()).push(text.len() - 1)
    } else {
        digit_positions(text.drop_last())
    }
}

/// Whether `sub` is what is left of `text` when only the characters at the
/// positions `at` are kept, `at` rising strictly.
pub open spec fn kept_at(sub: Seq<char>, text: Seq<char>, at: Seq<int>) -> bool {
    &&& at.len() == sub.len()
    &&& forall|i: int| 0 <= i < at.len() ==> 0 <= #[trigger] at[i] < text.len()
    &&& forall|i: int| 0 <= i < at.len() ==> text[#[trigger] at[i]] == sub[i]
    &&& forall|i: int, j: int| 0 <= i < j < at.len() ==> #[trigger] at[i] < #[trigger] at[j]
}

/// Tests a character for being an ASCII decimal digit.
pub fn decimal_digit(c: char) -> (r: bool)
    ensures
        r == is_decimal_digit(c),
{
    '0' <= c && c <= '9'
}

/// Appends the decimal digits of `text` to `out`.
fn push_digits(out: &mut String, text: &str)
    ensures
        final(out)@ == old(out)@ + digits_of(text@),
{
    let ghost before = out@;
    for c in it: text.chars()
        invariant
            it.seq() == text@,
            out@ == before + digits_of(text@.take(it.index())),
    {
        proof {
            let prefix = text@.take(it.index());
            assert(text@.take(it.index() + 1) == prefix.push(c));
            prefix.lemma_filter_push(c, |c: char| is_decimal_digit(c));
        }
        if decimal_digit(c) {
            out.push(c);
        }
    }
    assert(text@.take(text@.len() as int) == text@);
}

/// Joins the tokens without a separator and keeps the decimal digits.
pub fn extract_digits(tokens: &[String]) -> (id: String)
    ensures
        id@ == extracted(texts(tokens@)),
{
    let mut id = String::new();
    let mut i: usize = 0;
    while i < tokens.len()
        invariant
            i <= tokens.len(),
            id@ == extracted(texts(tokens@).take(i as int)),
        decreases tokens.len() - i,
    {
        push_digits(&mut id, tokens[i].as_str());
        proof {
            let done = texts(tokens@).take(i as int);
            let token = tokens@[i as int]@;
            assert(texts(tokens@).take(i + 1) == done.push(token));
            lemma_extracted_push(done, token);
        }
        i += 1;
    }
    assert(texts(tokens@).take(tokens.len() as int) == texts(tokens@));
    id
}

/// Extraction works token by token: a further token adds its own digits at the end.
pub proof fn lemma_extracted_push(tokens: Seq<Seq<char>>, token: Seq<char>)
    ensures
        extracted(tokens.push(token)) == extracted(tokens) + digits_of(token),
{
    tokens.lemma_flatten_push(token);
    Seq::filter_distributes_over_add(tokens.flatten(), token, |c: char| is_decimal_digit(c));
}

/// Extraction from tokens laid end to end is the extractions laid end to end.
pub proof fn lemma_extracted_concat(front: Seq<Seq<char>>, back: Seq<Seq<char>>)
    ensures
        extracted(front + back) == extracted(front) + extracted(back),
{
    vstd::seq_lib::lemma_flatten_concat(front, back);
    Seq::filter_distributes_over_add(front.flatten(), back.flatten(), |c: char| is_decimal_digit(c));
}

/// The digits of a single token are the extraction from that token alone.
pub proof fn lemma_extracted_single(token: Seq<char>)
    ensures
        extracted(seq![token]) == digits_of(token),
{
    seq![token].lemma_flatten_one_element();
}

/// What extraction yields holds decimal digits only, and no more characters
/// than went in.
pub proof fn lemma_digits_are_digits(text: Seq<char>)
    ensures
        all_digits(digits_of(text)),
        digits_of(text).len() <= text.len(),
{
    let keep = |c: char| is_decimal_digit(c);
    text.lemma_filter_len(keep);
    assert forall|i: int| 0 <= i < digits_of(text).len() implies is_decimal_digit(
        #[trigger] digits_of(text)[i],
    ) by {
        text.lemma_filter_pred(keep, i);
    }
}

/// A text made of decimal digits comes out unchanged.
pub proof fn lemma_digits_of_all_digits(text: Seq<char>)
    requires
        all_digits(text),
    ensures
        digits_of(text) == text,
    decreases text.len(),
{
    reveal(Seq::filter);
    if text.len() > 0 {
        lemma_digits_of_all_digits(text.drop_last());
    }
}

/// A text without a decimal digit yields the empty text.
pub proof fn lemma_digits_of_no_digits(text: Seq<char>)
    requires
        forall|i: int| 0 <= i < text.len() ==> !is_decimal_digit(#[trigger] text[i]),
    ensures
        digits_of(text) == Seq::<char>::empty(),
    decreases text.len(),
{
    reveal(Seq::filter);
    if text.len() > 0 {
        lemma_digits_of_no_digits(text.drop_last());
    }
}

/// Extraction is idempotent: applied to its own result it changes nothing.
pub proof fn lemma_extraction_idempotent(tokens: Seq<Seq<char>>)
    ensures
        extracted(seq![extracted(tokens)]) == extracted(tokens),
        digits_of(extracted(tokens)) == extracted(tokens),
{
    lemma_digits_are_digits(tokens.flatten());
    lemma_digits_of_all_digits(extracted(tokens));
    lemma_extracted_single(extracted(tokens));
}

/// Extraction keeps the order of the input: the result is the joined text read
/// at the positions of its decimal digits, which rise strictly and leave out
/// no digit.
pub proof fn lemma_extraction_keeps_order(text: Seq<char>)
    ensures
        kept_at(digits_of(text), text, digit_positions(text)),
        forall|p: int|
            0 <= p < text.len() && is_decimal_digit(text[p]) ==> digit_positions(text).contains(p),
    decreases text.len(),
{
    reveal(Seq::filter);
    if text.len() > 0 {
        let front = text.drop_last();
        lemma_extraction_keeps_order(front);
        let at = digit_positions(text);
        let before = digit_positions(front);
        assert forall|p: int| 0 <= p < text.len() && is_decimal_digit(text[p]) implies at.contains(
            p,
        ) by {
            if p < text.len() - 1 {
                assert(front[p] == text[p]);
                assert(before.contains(p));
                let k = choose|k: int| 0 <= k < before.len() && before[k] == p;
                assert(at[k] == p);
            } else {
                assert(at[at.len() - 1] == p);
            }
        }
    }
}

} // verus!

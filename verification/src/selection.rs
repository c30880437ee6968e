//! Reading which volumes of a book are wanted: numbers and ranges of
//! numbers, separated by white space, such as `1 3-5 7`.

use crate::text::chars_of;
use crate::text::find_chars_from;
use crate::text::first_match;
use crate::text::first_match_from;
use crate::text::is_white_space;
use crate::text::string_of;
use crate::text::white_space;
use vstd::prelude::*;

verus! {

/// What is wrong with a word of a selection.
#[derive(Clone, Copy, Debug, PartialEq, Eq, Structural)]
pub enum SelectionFault {
    /// A range with more than one hyphen.
    InvalidRange,
    /// The start of a range is no number below 256.
    RangeStart,
    /// The end of a range is no number below 256.
    RangeEnd,
    /// A range whose start is above its end.
    Reversed { start: u8, end: u8 },
    /// A word that is no number below 256.
    NotANumber,
}

/// The first word of a selection that cannot be read, and what is wrong
/// with it.
#[derive(Debug)]
pub struct SelectionError {
    pub fault: SelectionFault,
    pub token: String,
}

/// Whether a character is a decimal digit.
pub open spec fn is_digit(c: char) -> bool {
    '0' <= c <= '9'
}

/// The number that decimal digits stand for.
pub open spec fn digits_value(s: Seq<char>) -> nat
    decreases s.len(),
{
    if s.len() == 0 {
        0
    } else {
        digits_value(s.drop_last()) * 10 + (s.last() as nat - '0' as nat) as nat
    }
}

/// The number below 256 that a word stands for: decimal digits, at least
/// one, after at most one plus sign.
pub open spec fn parse_u8(s: Seq<char>) -> Option<u8> {
    digits_number(
        if s.len() > 0 && s[0] == '+' {
            s.drop_first()
        } else {
            s
        },
    )
}

/// The number below 256 that decimal digits, at least one, stand for.
pub open spec fn digits_number(digits: Seq<char>) -> Option<u8> {
    if digits.len() > 0 && (forall|i: int| 0 <= i < digits.len() ==> is_digit(digits[i]))
        && digits_value(digits) <= 255 {
        Some(digits_value(digits) as u8)
    } else {
        None
    }
}

/// The numbers that a word selects, from the first to the last, or what is
/// wrong with the word.
pub open spec fn token_range(token: Seq<char>) -> Result<(u8, u8), SelectionFault> {
    match first_match(token, seq!['-']) {
        Some(p) => {
            let start = token.subrange(0, p);
            let end = token.subrange(p + 1, token.len() as int);
            if first_match_from(token, seq!['-'], p + 1) is Some {
                Err(SelectionFault::InvalidRange)
            } else if parse_u8(start) is None {
                Err(SelectionFault::RangeStart)
            } else if parse_u8(end) is None {
                Err(SelectionFault::RangeEnd)
            } else if parse_u8(start)->Some_0 > parse_u8(end)->Some_0 {
                Err(
                    SelectionFault::Reversed {
                        start: parse_u8(start)->Some_0,
                        end: parse_u8(end)->Some_0,
                    },
                )
            } else {
                Ok((parse_u8(start)->Some_0, parse_u8(end)->Some_0))
            }
        },
        None => match parse_u8(token) {
            Some(n) => Ok((n, n)),
            None => Err(SelectionFault::NotANumber),
        },
    }
}

/// The words of a text from `from` on, after the characters `current` of a
/// word that has begun. White space separates words.
pub open spec fn words_from(s: Seq<char>, from: int, current: Seq<char>) -> Seq<Seq<char>>
    decreases s.len() - from,
{
    let done = if current.len() > 0 {
        seq![current]
    } else {
        Seq::empty()
    };
    if from < 0 || from >= s.len() {
        done
    } else if is_white_space(s[from]) {
        done + words_from(s, from + 1, Seq::empty())
    } else {
        words_from(s, from + 1, current.push(s[from]))
    }
}

/// The words of a text.
pub open spec fn words(s: Seq<char>) -> Seq<Seq<char>> {
    words_from(s, 0, Seq::empty())
}

/// The marks after the numbers from `a` to `b` have been marked.
pub open spec fn mark_range(marks: Seq<bool>, a: u8, b: u8) -> Seq<bool> {
    Seq::new(marks.len(), |i: int| marks[i] || a <= i <= b)
}

/// The marks after the first `n` words, or the first word among them that
/// cannot be read, with what is wrong with it.
pub open spec fn marks_after(tokens: Seq<Seq<char>>, n: nat) -> Result<
    Seq<bool>,
    (SelectionFault, Seq<char>),
>
    decreases n,
{
    if n == 0 {
        Ok(Seq::new(256, |i: int| false))
    } else {
        match marks_after(tokens, (n - 1) as nat) {
            Err(e) => Err(e),
            Ok(marks) => match token_range(tokens[n - 1]) {
                Ok((a, b)) => Ok(mark_range(marks, a, b)),
                Err(fault) => Err((fault, tokens[n - 1])),
            },
        }
    }
}

/// The marked numbers below `n`, in rising order.
pub open spec fn marked_below(marks: Seq<bool>, n: nat) -> Seq<u8>
    decreases n,
{
    if n == 0 {
        Seq::empty()
    } else if marks[n - 1] {
        marked_below(marks, (n - 1) as nat).push((n - 1) as u8)
    } else {
        marked_below(marks, (n - 1) as nat)
    }
}

/// The numbers that a text selects, in rising order and each once, or the
/// first of its words that cannot be read.
pub open spec fn selection(input: Seq<char>) -> Result<Seq<u8>, (SelectionFault, Seq<char>)> {
    match marks_after(words(input), words(input).len()) {
        Ok(marks) => Ok(marked_below(marks, 256)),
        Err(e) => Err(e),
    }
}

/// The list of marked numbers rises, and holds exactly the marked numbers.
pub proof fn lemma_marked_below(marks: Seq<bool>, n: nat)
    requires
        n <= marks.len(),
        n <= 256,
    ensures
        ({
            let m = marked_below(marks, n);
            &&& forall|a: int, b: int| 0 <= a < b < m.len() ==> m[a] < m[b]
            &&& forall|k: int| 0 <= k < m.len() ==> #[trigger] m[k] < n
            &&& forall|x: u8| m.contains(x) <==> x < n && marks[x as int]
        }),
    decreases n,
{
    if n > 0 {
        let before = marked_below(marks, (n - 1) as nat);
        let m = marked_below(marks, n);
        lemma_marked_below(marks, (n - 1) as nat);
        assert forall|x: u8| m.contains(x) <==> x < n && marks[x as int] by {
            if marks[n - 1] {
                if x == n - 1 {
                    assert(m[m.len() - 1] == x);
                } else {
                    if before.contains(x) {
                        let a = choose|a: int| 0 <= a < before.len() && before[a] == x;
                        assert(m[a] == x);
                    }
                    if m.contains(x) {
                        let a = choose|a: int| 0 <= a < m.len() && m[a] == x;
                        assert(before[a] == x);
                    }
                }
            }
        }
    }
}

/// A number is marked after the first `n` words exactly if one of them
/// selects it.
pub proof fn lemma_marks_after(tokens: Seq<Seq<char>>, n: nat)
    requires
        n <= tokens.len(),
    ensures
        match marks_after(tokens, n) {
            Ok(marks) => marks.len() == 256 && (forall|k: int|
                0 <= k < n ==> token_range(#[trigger] tokens[k]) is Ok) && forall|x: int|
                0 <= x < 256 ==> (marks[x] <==> exists|k: int|
                    0 <= k < n && (#[trigger] token_range(tokens[k]))->Ok_0.0 <= x
                        <= token_range(tokens[k])->Ok_0.1),
            Err((fault, token)) => exists|k: int|
                0 <= k < n && token == tokens[k] && #[trigger] token_range(tokens[k]) == Err::<
                    (u8, u8),
                    SelectionFault,
                >(fault) && forall|j: int| 0 <= j < k ==> token_range(#[trigger] tokens[j]) is Ok,
        },
    decreases n,
{
    if n > 0 {
        lemma_marks_after(tokens, (n - 1) as nat);
        match marks_after(tokens, (n - 1) as nat) {
            Ok(before) => {
                match token_range(tokens[n - 1]) {
                    Ok((a, b)) => {
                        let marks = mark_range(before, a, b);
                        assert forall|x: int| 0 <= x < 256 implies (marks[x] <==> exists|k: int|
                            0 <= k < n && (#[trigger] token_range(tokens[k]))->Ok_0.0 <= x
                                <= token_range(tokens[k])->Ok_0.1) by {
                            if a <= x <= b {
                                assert(token_range(tokens[n - 1])->Ok_0.0 <= x);
                            }
                            if before[x] {
                                let k = choose|k: int|
                                    0 <= k < n - 1 && (#[trigger] token_range(tokens[k]))->Ok_0.0
                                        <= x <= token_range(tokens[k])->Ok_0.1;
                                assert(token_range(tokens[k])->Ok_0.0 <= x);
                            }
                        }
                    },
                    Err(fault) => {
                        assert(token_range(tokens[n - 1]) == Err::<(u8, u8), SelectionFault>(fault));
                    },
                }
            },
            Err((fault, token)) => {
                let k = choose|k: int|
                    0 <= k < n - 1 && token == tokens[k] && #[trigger] token_range(tokens[k])
                        == Err::<(u8, u8), SelectionFault>(fault) && forall|j: int|
                        0 <= j < k ==> token_range(#[trigger] tokens[j]) is Ok;
                assert(token_range(tokens[k]) == Err::<(u8, u8), SelectionFault>(fault));
            },
        }
    }
}

/// Once a word has been refused, the later words change nothing.
pub proof fn lemma_refusal_stays(tokens: Seq<Seq<char>>, m: nat, n: nat)
    requires
        m <= n,
        marks_after(tokens, m) is Err,
    ensures
        marks_after(tokens, n) == marks_after(tokens, m),
    decreases n,
{
    if m < n {
        lemma_refusal_stays(tokens, m, (n - 1) as nat);
    }
}

/// The number below 256 that the characters of `v` from `from` up to `to`
/// stand for, if they stand for one.
pub fn parse_number(v: &Vec<char>, from: usize, to: usize) -> (r: Option<u8>)
    requires
        from <= to <= v@.len(),
    ensures
        r == parse_u8(v@.subrange(from as int, to as int)),
{
    let ghost word = v@.subrange(from as int, to as int);
    let mut i = from;
    if i < to && v[i] == '+' {
        i += 1;
    }
    let ghost digits = v@.subrange(i as int, to as int);
    assert(digits =~= if word.len() > 0 && word[0] == '+' {
        word.drop_first()
    } else {
        word
    });
    assert(parse_u8(word) == digits_number(digits));
    if i >= to {
        return None;
    }
    let first = i;
    let mut value: u32 = 0;
    assert(digits.take(0) =~= Seq::<char>::empty());
    while i < to
        invariant
            first <= i <= to <= v@.len(),
            digits == v@.subrange(first as int, to as int),
            parse_u8(v@.subrange(from as int, to as int)) == digits_number(digits),
            forall|k: int| 0 <= k < i - first ==> is_digit(digits[k]),
            value == if digits_value(digits.take(i - first)) <= 255 {
                digits_value(digits.take(i - first))
            } else {
                256
            },
        decreases to - i,
    {
        let c = v[i];
        assert(digits[i - first] == c);
        if !('0' <= c && c <= '9') {
            assert(!is_digit(digits[i - first]));
            return None;
        }
        let d = (c as u32) - ('0' as u32);
        assert(digits.take(i - first + 1).drop_last() =~= digits.take(i - first));
        assert(digits.take(i - first + 1).last() == c);
        let next = value * 10 + d;
        value = if next > 255 {
            256
        } else {
            next
        };
        i += 1;
    }
    assert(digits.take(digits.len() as int) =~= digits);
    if value > 255 {
        None
    } else {
        Some(value as u8)
    }
}

fn read_token(token: &Vec<char>) -> (r: Result<(u8, u8), SelectionFault>)
    ensures
        r == token_range(token@),
{
    let mut hyphen: Vec<char> = Vec::new();
    hyphen.push('-');
    assert(hyphen@ =~= seq!['-']);
    match find_chars_from(token, &hyphen, 0) {
        Some(p) => {
            if find_chars_from(token, &hyphen, p + 1).is_some() {
                return Err(SelectionFault::InvalidRange);
            }
            let a = match parse_number(token, 0, p) {
                Some(a) => a,
                None => {
                    return Err(SelectionFault::RangeStart);
                },
            };
            let b = match parse_number(token, p + 1, token.len()) {
                Some(b) => b,
                None => {
                    return Err(SelectionFault::RangeEnd);
                },
            };
            if a > b {
                return Err(SelectionFault::Reversed { start: a, end: b });
            }
            Ok((a, b))
        },
        None => {
            assert(token@.subrange(0, token@.len() as int) =~= token@);
            match parse_number(token, 0, token.len()) {
                Some(n) => Ok((n, n)),
                None => Err(SelectionFault::NotANumber),
            }
        },
    }
}

/// The characters of each of a list of words.
pub open spec fn word_views(v: Seq<Vec<char>>) -> Seq<Seq<char>> {
    v.map_values(|w: Vec<char>| w@)
}

fn split_words(text: &Vec<char>) -> (r: Vec<Vec<char>>)
    ensures
        word_views(r@) == words(text@),
{
    let mut out: Vec<Vec<char>> = Vec::new();
    let mut current: Vec<char> = Vec::new();
    let mut i: usize = 0;
    assert(word_views(out@) + words_from(text@, 0, current@) =~= words(text@));
    while i < text.len()
        invariant
            i <= text@.len(),
            word_views(out@) + words_from(text@, i as int, current@) == words(text@),
        decreases text@.len() - i,
    {
        let c = text[i];
        let ghost before = word_views(out@);
        if white_space(c) {
            let ghost word = current@;
            if current.len() > 0 {
                out.push(current);
                current = Vec::new();
                assert(word_views(out@) =~= before + seq![word]);
                assert(words_from(text@, i as int, word) == seq![word] + words_from(
                    text@,
                    i + 1,
                    Seq::empty(),
                ));
                assert(before + (seq![word] + words_from(text@, i + 1, Seq::empty())) =~= (before
                    + seq![word]) + words_from(text@, i + 1, Seq::empty()));
            } else {
                assert(words_from(text@, i as int, word) == Seq::<Seq<char>>::empty()
                    + words_from(text@, i + 1, Seq::empty()));
                assert(Seq::<Seq<char>>::empty() + words_from(text@, i + 1, Seq::empty())
                    =~= words_from(text@, i + 1, Seq::empty()));
            }
            assert(current@ =~= Seq::<char>::empty());
            assert(word_views(out@) + words_from(text@, i + 1, current@) == words(text@));
        } else {
            let ghost word = current@;
            current.push(c);
            assert(words_from(text@, i as int, word) == words_from(text@, i + 1, current@));
        }
        i += 1;
    }
    let ghost before = word_views(out@);
    if current.len() > 0 {
        let ghost word = current@;
        out.push(current);
        assert(word_views(out@) =~= before + seq![word]);
    } else {
        assert(before + Seq::<Seq<char>>::empty() =~= before);
    }
    out
}

/// Reads a selection: numbers below 256 and ranges `a-b` of them, separated
/// by white space. The result holds every selected number once, in rising
/// order. The first word that cannot be read is refused, with what is wrong
/// with it.
pub fn get_index_from_stdin(input: &str) -> (r: Result<Vec<u8>, SelectionError>)
    ensures
        match r {
            Ok(numbers) => {
                &&& selection(input@) == Ok::<Seq<u8>, (SelectionFault, Seq<char>)>(numbers@)
                &&& forall|a: int, b: int| 0 <= a < b < numbers@.len() ==> numbers@[a] < numbers@[b]
                &&& forall|x: u8|
                    numbers@.contains(x) <==> exists|k: int|
                        0 <= k < words(input@).len() && (#[trigger] token_range(
                            words(input@)[k],
                        ))->Ok_0.0 <= x <= token_range(words(input@)[k])->Ok_0.1
            },
            Err(e) => {
                &&& selection(input@) == Err::<Seq<u8>, (SelectionFault, Seq<char>)>(
                    (e.fault, e.token@),
                )
                &&& exists|k: int|
                    0 <= k < words(input@).len() && e.token@ == words(input@)[k]
                        && #[trigger] token_range(words(input@)[k]) == Err::<
                        (u8, u8),
                        SelectionFault,
                    >(e.fault) && forall|j: int|
                        0 <= j < k ==> token_range(#[trigger] words(input@)[j]) is Ok
            },
        },
{
    let text = chars_of(input);
    let tokens = split_words(&text);
    let ghost all = words(input@);
    let mut marks: Vec<bool> = Vec::new();
    let mut k: usize = 0;
    while k < 256
        invariant
            k <= 256,
            marks@ == Seq::new(k as nat, |i: int| false),
        decreases 256 - k,
    {
        marks.push(false);
        assert(marks@ =~= Seq::new((k + 1) as nat, |i: int| false));
        k += 1;
    }
    let mut t: usize = 0;
    while t < tokens.len()
        invariant
            t <= tokens@.len(),
            all == word_views(tokens@),
            all == words(input@),
            marks@.len() == 256,
            marks_after(all, t as nat) == Ok::<Seq<bool>, (SelectionFault, Seq<char>)>(marks@),
        decreases tokens@.len() - t,
    {
        let token = &tokens[t];
        assert(all[t as int] == token@);
        match read_token(token) {
            Ok((a, b)) => {
                let ghost before = marks@;
                let mut x: usize = a as usize;
                while x <= b as usize
                    invariant
                        a <= x <= b + 1,
                        b <= 255,
                        marks@.len() == 256,
                        before.len() == 256,
                        forall|i: int|
                            0 <= i < 256 ==> marks@[i] == (before[i] || a <= i < x),
                    decreases b + 1 - x,
                {
                    marks.set(x, true);
                    x += 1;
                }
                assert forall|i: int| 0 <= i < 256 implies marks@[i] == mark_range(
                    before,
                    a,
                    b,
                )[i] by {
                    assert(marks@[i] == (before[i] || a <= i < x));
                }
                assert(marks@ =~= mark_range(before, a, b));
            },
            Err(fault) => {
                proof {
                    lemma_refusal_stays(all, (t + 1) as nat, all.len());
                    lemma_marks_after(all, all.len());
                }
                return Err(SelectionError { fault, token: string_of(token) });
            },
        }
        t += 1;
    }
    let mut out: Vec<u8> = Vec::new();
    let mut n: usize = 0;
    while n < 256
        invariant
            n <= 256,
            marks@.len() == 256,
            out@ == marked_below(marks@, n as nat),
        decreases 256 - n,
    {
        if marks[n] {
            out.push(n as u8);
        }
        n += 1;
    }
    proof {
        lemma_marked_below(marks@, 256);
        lemma_marks_after(all, all.len());
        assert forall|x: u8|
            out@.contains(x) <==> exists|k: int|
                0 <= k < all.len() && (#[trigger] token_range(all[k]))->Ok_0.0 <= x
                    <= token_range(all[k])->Ok_0.1 by {
            assert(out@.contains(x) <==> marks@[x as int]);
        }
    }
    Ok(out)
}

} // verus!

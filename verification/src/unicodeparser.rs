//! Grapheme-level preprocessing of Envlang input
//!
//! Splitting an input into graphemes, dropping whitespace graphemes, and joining runs of
//! integer graphemes into single numbers.
use vstd::prelude::*;

use crate::chars::{ascii_digit, whitespace};
use crate::lexer::{lemma_span_one, lemma_span_split, span};
use crate::numerals::{decimal, digit_char, digits_value, i32_to_text, int_literal, literal_in_range, parse_i32};
use crate::unicodesegmenters::{all_nonempty, covers, extended_graphemes, segment_graphemes};

verus! {

/// The views of a vector of strings.
pub open spec fn texts(v: Seq<String>) -> Seq<Seq<char>> {
    v.map_values(|s: String| s@)
}

/// Parses a `String` input into Unicode extended grapheme clusters.
///
/// The clusters keep whitespace and newline characters; no other combination (such as word
/// boundaries) is attempted.
pub fn parse_into_graphemes(input: String) -> (collected: Vec<String>)
    ensures
        texts(collected@) == extended_graphemes(input@),
        covers(texts(collected@), input@),
        all_nonempty(texts(collected@)),
{
    segment_graphemes(input.as_str())
}

/// The segments of `inp` whose first character is not whitespace, in order.
pub open spec fn without_whitespace(inp: Seq<Seq<char>>) -> Seq<Seq<char>>
    decreases inp.len(),
{
    if inp.len() == 0 {
        seq![]
    } else {
        let rest = without_whitespace(inp.drop_last());
        if whitespace(inp.last()[0]) {
            rest
        } else {
            rest.push(inp.last())
        }
    }
}

/// The segments that [`drop_whitespace`] keeps: those whose first character is not whitespace.
pub open spec fn starts_visible() -> spec_fn(Seq<char>) -> bool {
    |s: Seq<char>| !whitespace(s[0])
}

/// Dropping whitespace keeps exactly the segments that do not begin with a whitespace
/// character, in their order: no kept segment begins with whitespace, and every segment that
/// does not is kept.
pub proof fn dropping_whitespace_keeps_the_rest(inp: Seq<Seq<char>>)
    ensures
        without_whitespace(inp) == inp.filter(starts_visible()),
        forall|k: int|
            0 <= k < without_whitespace(inp).len() ==> !whitespace(
                (#[trigger] without_whitespace(inp)[k])[0],
            ),
        forall|k: int|
            0 <= k < inp.len() && !whitespace(inp[k][0]) ==> without_whitespace(inp).contains(
                #[trigger] inp[k],
            ),
    decreases inp.len(),
{
    reveal(Seq::filter);
    if inp.len() > 0 {
        dropping_whitespace_keeps_the_rest(inp.drop_last());
    }
    let out = without_whitespace(inp);
    assert forall|k: int| 0 <= k < out.len() implies !whitespace((#[trigger] out[k])[0]) by {
        inp.lemma_filter_pred(starts_visible(), k);
    }
    assert forall|k: int| 0 <= k < inp.len() && !whitespace(inp[k][0]) implies out.contains(
        #[trigger] inp[k],
    ) by {
        inp.lemma_filter_contains(starts_visible(), k);
    }
}

/// Drops the segments that begin with a whitespace character.
///
/// Every segment must be non-empty: the first character of each is examined.
pub fn drop_whitespace(input: Vec<String>) -> (cleaned: Vec<String>)
    requires
        all_nonempty(texts(input@)),
    ensures
        texts(cleaned@) == without_whitespace(texts(input@)),
{
    let ghost inp = texts(input@);
    let mut cleaned: Vec<String> = Vec::new();
    let mut i: usize = 0;
    while i < input.len()
        invariant
            inp == texts(input@),
            all_nonempty(inp),
            i <= input.len(),
            texts(cleaned@) == without_whitespace(inp.take(i as int)),
        decreases input.len() - i,
    {
        let el = &input[i];
        assert(inp.take(i + 1).drop_last() =~= inp.take(i as int));
        assert(inp[i as int].len() > 0);
        let first = el.as_str().get_char(0);
        if !crate::chars::is_whitespace_char(first) {
            cleaned.push(el.clone());
            assert(texts(cleaned@) =~= without_whitespace(inp.take(i as int)).push(inp[i as int]));
        }
        i += 1;
    }
    assert(inp.take(input.len() as int) =~= inp);
    cleaned
}

/// The text of a sequence of integers written one after another in base ten.
pub open spec fn ints_text(ints: Seq<i32>) -> Seq<char>
    decreases ints.len(),
{
    if ints.len() == 0 {
        seq![]
    } else {
        ints_text(ints.drop_last()) + decimal(ints.last() as int)
    }
}

/// Writes integers one after another in base ten.
fn convert_ints(ints: &Vec<i32>) -> (s: String)
    ensures
        s@ == ints_text(ints@),
{
    let mut s = String::new();
    let mut i: usize = 0;
    while i < ints.len()
        invariant
            i <= ints.len(),
            s@ == ints_text(ints@.take(i as int)),
        decreases ints.len() - i,
    {
        assert(ints@.take(i + 1).drop_last() =~= ints@.take(i as int));
        let t = i32_to_text(ints[i]);
        s.append(t.as_str());
        i += 1;
    }
    assert(ints@.take(ints.len() as int) =~= ints@);
    s
}

/// The segment parses as an `i32`.
pub open spec fn is_int(s: Seq<char>) -> bool {
    literal_in_range(s, i32::MIN as int, i32::MAX as int)
}

/// The `i32` a segment parses to.
pub open spec fn int_of(s: Seq<char>) -> i32 {
    int_literal(s).unwrap() as i32
}

/// Reading a run of integers from segment `j` on, the integers read so far being `temp`:
/// the text pushed for the run and the index where the run ends; `None` if an empty segment
/// is met, whose first character cannot be examined.
///
/// Integer segments join the run, whitespace segments are passed over, and any other segment
/// or the end of the input ends it.
pub open spec fn int_run(inp: Seq<Seq<char>>, j: int, temp: Seq<i32>) -> Option<(Seq<char>, int)>
    decreases inp.len() - j,
{
    if j < 0 || j >= inp.len() {
        Some((ints_text(temp), j))
    } else if is_int(inp[j]) {
        int_run(inp, j + 1, temp.push(int_of(inp[j])))
    } else if inp[j].len() == 0 {
        None
    } else if whitespace(inp[j][0]) {
        int_run(inp, j + 1, temp)
    } else {
        Some((ints_text(temp), j))
    }
}

/// The result of joining integer runs from segment `i` on, or `None` if the joining would
/// examine an empty segment.
pub open spec fn joined_from(inp: Seq<Seq<char>>, i: int) -> Option<Seq<Seq<char>>>
    decreases inp.len() - i,
{
    if i < 0 || i >= inp.len() {
        Some(seq![])
    } else if is_int(inp[i]) {
        match int_run(inp, i, seq![]) {
            None => None,
            Some((t, j)) => {
                proof {
                    lemma_int_run_advances(inp, i, i, seq![]);
                }
                match joined_from(inp, j) {
                    None => None,
                    Some(rest) => Some(seq![t] + rest),
                }
            },
        }
    } else {
        match joined_from(inp, i + 1) {
            None => None,
            Some(rest) => Some(seq![inp[i]] + rest),
        }
    }
}

/// A run started at an integer segment `i` ends past it and not past the end of the input.
pub proof fn lemma_int_run_advances(inp: Seq<Seq<char>>, i: int, j: int, temp: Seq<i32>)
    requires
        0 <= i < inp.len(),
        i <= j <= inp.len(),
        i < j || is_int(inp[i]),
    ensures
        int_run(inp, j, temp) matches Some((_, k)) ==> i < k <= inp.len(),
    decreases inp.len() - j,
{
    if j < inp.len() {
        if is_int(inp[j]) {
            lemma_int_run_advances(inp, i, j + 1, temp.push(int_of(inp[j])));
        } else if inp[j].len() > 0 && whitespace(inp[j][0]) {
            lemma_int_run_advances(inp, i, j + 1, temp);
        }
    }
}

proof fn lemma_int_run_defined(inp: Seq<Seq<char>>, j: int, temp: Seq<i32>)
    requires
        all_nonempty(inp),
    ensures
        int_run(inp, j, temp) is Some,
    decreases inp.len() - j,
{
    if 0 <= j < inp.len() {
        assert(inp[j].len() > 0);
        if is_int(inp[j]) {
            lemma_int_run_defined(inp, j + 1, temp.push(int_of(inp[j])));
        } else if whitespace(inp[j][0]) {
            lemma_int_run_defined(inp, j + 1, temp);
        }
    }
}

/// Non-empty segments, such as [`segment_graphemes`] gives, can always be joined: they meet
/// what [`concatenate_ints`] requires (and what [`drop_whitespace`] requires, which is
/// that they be non-empty).
pub proof fn nonempty_segments_can_be_joined(inp: Seq<Seq<char>>, i: int)
    requires
        all_nonempty(inp),
        0 <= i <= inp.len(),
    ensures
        joined_from(inp, i) is Some,
    decreases inp.len() - i,
{
    if i < inp.len() {
        if is_int(inp[i]) {
            lemma_int_run_defined(inp, i, seq![]);
            lemma_int_run_advances(inp, i, i, seq![]);
            let (_, j) = int_run(inp, i, seq![]).unwrap();
            nonempty_segments_can_be_joined(inp, j);
        } else {
            nonempty_segments_can_be_joined(inp, i + 1);
        }
    }
}

/// Every segment holds exactly one character, and none is whitespace.
pub open spec fn single_visible_chars(inp: Seq<Seq<char>>) -> bool {
    forall|k: int| 0 <= k < inp.len() ==> (#[trigger] inp[k]).len() == 1 && !whitespace(inp[k][0])
}

/// A one-character segment that parses as an `i32` is an ASCII digit, written back as itself.
proof fn lemma_single_int(s: Seq<char>)
    requires
        s.len() == 1,
        is_int(s),
    ensures
        ascii_digit(s[0]),
        decimal(int_of(s) as int) == s,
{
    assert(s.drop_first().len() == 0);
    assert(ascii_digit(s[0]));
    assert(s.drop_last() =~= Seq::<char>::empty());
    let v = s[0] as int - '0' as int;
    assert(digits_value(s.drop_last()) == 0);
    assert(digits_value(s) == v);
    assert(int_literal(s) == Some(v));
    assert(int_of(s) as int == v);
    assert(decimal(v) == seq![digit_char(v)]);
    assert(digit_char(v) == s[0]);
    assert(seq![s[0]] =~= s);
}

/// Writing one more integer appends its numeral.
proof fn lemma_ints_text_push(temp: Seq<i32>, x: i32)
    ensures
        ints_text(temp.push(x)) == ints_text(temp) + decimal(x as int),
{
    assert(temp.push(x).drop_last() =~= temp);
}

/// On single visible characters, a run pushes the integers read so far and then exactly the
/// segments it passed over.
proof fn lemma_run_text(inp: Seq<Seq<char>>, j: int, temp: Seq<i32>)
    requires
        single_visible_chars(inp),
        0 <= j <= inp.len(),
    ensures
        int_run(inp, j, temp) matches Some((t, k)) && j <= k <= inp.len() && t == ints_text(temp)
            + span(inp, j, k),
    decreases inp.len() - j,
{
    if j == inp.len() {
        assert(inp.subrange(j, j) =~= Seq::<Seq<char>>::empty());
        assert(ints_text(temp) + Seq::<char>::empty() =~= ints_text(temp));
    } else {
        assert(inp[j].len() == 1 && !whitespace(inp[j][0]));
        if is_int(inp[j]) {
            let x = int_of(inp[j]);
            lemma_run_text(inp, j + 1, temp.push(x));
            let (t, k) = int_run(inp, j + 1, temp.push(x)).unwrap();
            lemma_single_int(inp[j]);
            lemma_ints_text_push(temp, x);
            lemma_span_one(inp, j);
            lemma_span_split(inp, j, j + 1, k);
            assert(t =~= ints_text(temp) + span(inp, j, k));
        } else {
            assert(inp.subrange(j, j) =~= Seq::<Seq<char>>::empty());
            assert(ints_text(temp) + Seq::<char>::empty() =~= ints_text(temp));
        }
    }
}

/// Flattening a sequence that starts with `t` gives `t` followed by the rest flattened.
proof fn lemma_flatten_cons(t: Seq<char>, rest: Seq<Seq<char>>)
    ensures
        (seq![t] + rest).flatten() == t + rest.flatten(),
{
    assert((seq![t] + rest).drop_first() =~= rest);
}

proof fn lemma_joined_text(inp: Seq<Seq<char>>, i: int)
    requires
        single_visible_chars(inp),
        0 <= i <= inp.len(),
    ensures
        joined_from(inp, i) matches Some(out) && out.flatten() == span(inp, i, inp.len() as int),
    decreases inp.len() - i,
{
    if i == inp.len() {
        assert(inp.subrange(i, i) =~= Seq::<Seq<char>>::empty());
    } else if is_int(inp[i]) {
        lemma_run_text(inp, i, seq![]);
        lemma_int_run_advances(inp, i, i, seq![]);
        let (t, j) = int_run(inp, i, seq![]).unwrap();
        assert(ints_text(seq![]) + span(inp, i, j) =~= span(inp, i, j));
        lemma_joined_text(inp, j);
        let rest = joined_from(inp, j).unwrap();
        lemma_flatten_cons(t, rest);
        lemma_span_split(inp, i, j, inp.len() as int);
    } else {
        lemma_joined_text(inp, i + 1);
        let rest = joined_from(inp, i + 1).unwrap();
        lemma_flatten_cons(inp[i], rest);
        lemma_span_one(inp, i);
        lemma_span_split(inp, i, i + 1, inp.len() as int);
    }
}

/// Joining integer runs neither adds nor loses text: when every segment is a single
/// character other than whitespace (no whitespace is passed over inside a run), the joined
/// segments concatenate back to the input.
pub proof fn joining_keeps_the_text(inp: Seq<Seq<char>>)
    requires
        single_visible_chars(inp),
    ensures
        joined_from(inp, 0) matches Some(out) && out.flatten() == inp.flatten(),
{
    lemma_joined_text(inp, 0);
    assert(inp.subrange(0, inp.len() as int) =~= inp);
}

/// Takes a vector of collected Unicode graphemes and 'concatenates' integers together.
///
/// Runs of segments that parse as `i32`, possibly separated by whitespace segments, become
/// one segment holding the integers written one after another; other segments are kept.
///
/// # Example
/// `["1", "2", "+", "3"] -> ["12", "+", "3"]`
pub fn concatenate_ints(input: Vec<String>) -> (constructed: Vec<String>)
    requires
        joined_from(texts(input@), 0) is Some,
    ensures
        joined_from(texts(input@), 0) == Some(texts(constructed@)),
{
    let ghost inp = texts(input@);
    let mut constructed: Vec<String> = Vec::new();
    let mut i: usize = 0;
    assert(texts(constructed@) + joined_from(inp, 0).unwrap() =~= joined_from(inp, 0).unwrap());
    while i < input.len()
        invariant
            inp == texts(input@),
            i <= input.len(),
            joined_from(inp, i as int) is Some,
            joined_from(inp, 0) == Some(texts(constructed@) + joined_from(inp, i as int).unwrap()),
        decreases input.len() - i,
    {
        assert(inp[i as int] == input@[i as int]@);
        let el = &input[i];
        let parse = parse_i32(el.as_str());
        match parse {
            Ok(_) => {
                let mut temp: Vec<i32> = Vec::new();
                let mut j = i;
                let ghost before = texts(constructed@);
                let ghost run = int_run(inp, i as int, seq![]);
                let mut closed = false;
                proof {
                    lemma_int_run_advances(inp, i as int, i as int, seq![]);
                }
                while j < input.len()
                    invariant_except_break
                        int_run(inp, j as int, temp@) == run,
                        texts(constructed@) == before,
                        !closed,
                    invariant
                        inp == texts(input@),
                        i <= j <= input.len(),
                        run == int_run(inp, i as int, seq![]),
                        run is Some,
                    ensures
                        closed ==> run == Some::<(Seq<char>, int)>((ints_text(temp@), j as int))
                            && texts(constructed@) == before.push(ints_text(temp@)),
                        !closed ==> j == input.len() && int_run(inp, j as int, temp@) == run
                            && texts(constructed@) == before,
                    decreases input.len() - j,
                {
                    let inner_el = &input[j];
                    match parse_i32(inner_el.as_str()) {
                        Ok(value) => {
                            temp.push(value);
                            j += 1;
                        },
                        Err(_) => {
                            let first = inner_el.as_str().get_char(0);
                            if crate::chars::is_whitespace_char(first) {
                                j += 1;
                                continue;
                            }
                            let converted_number = convert_ints(&temp);
                            constructed.push(converted_number);
                            assert(texts(constructed@) =~= before.push(ints_text(temp@)));
                            closed = true;
                            break;
                        },
                    }
                }
                if !closed {
                    // The input ended inside the run
                    let converted_number = convert_ints(&temp);
                    constructed.push(converted_number);
                    assert(texts(constructed@) =~= before.push(ints_text(temp@)));
                }
                proof {
                    let (t, k) = run.unwrap();
                    assert(k == j);
                    assert(joined_from(inp, i as int) == match joined_from(inp, k) {
                        None => None,
                        Some(rest) => Some(seq![t] + rest),
                    });
                    assert(before.push(t) + joined_from(inp, k).unwrap() =~= before + (seq![t]
                        + joined_from(inp, k).unwrap()));
                }
                i = j;
            },
            Err(_) => {
                let ghost before = texts(constructed@);
                constructed.push(el.clone());
                assert(texts(constructed@) =~= before.push(inp[i as int]));
                assert(before.push(inp[i as int]) + joined_from(inp, i + 1).unwrap() =~= before + (
                seq![inp[i as int]] + joined_from(inp, i + 1).unwrap()));
                i += 1;
            },
        }
    }
    assert(texts(constructed@) + Seq::<Seq<char>>::empty() =~= texts(constructed@));
    constructed
}

/// Joins integer runs as [`concatenate_ints`] does, after checking that every segment is
/// non-empty (which graphemes always are); `None` if some segment is empty.
pub fn try_concatenate_ints(input: Vec<String>) -> (r: Option<Vec<String>>)
    ensures
        r is Some <==> all_nonempty(texts(input@)),
        r matches Some(v) ==> joined_from(texts(input@), 0) == Some(texts(v@)),
{
    let ghost inp = texts(input@);
    let mut i: usize = 0;
    while i < input.len()
        invariant
            inp == texts(input@),
            i <= input.len(),
            forall|k: int| 0 <= k < i ==> (#[trigger] inp[k]).len() > 0,
        decreases input.len() - i,
    {
        assert(inp[i as int] == input@[i as int]@);
        if input[i].as_str().unicode_len() == 0 {
            return None;
        }
        i += 1;
    }
    proof {
        nonempty_segments_can_be_joined(inp, 0);
    }
    Some(concatenate_ints(input))
}

} // verus!

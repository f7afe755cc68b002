//! The prompt engine: how one line of input resolves a variable of each
//! kind, and the retry discipline that reads further lines until one
//! resolves. Input is modelled as the sequence of lines the input stream
//! yields; an exhausted stream is the one unrecoverable condition.

use vstd::prelude::*;
use crate::numbers::{parsed_i64, choice_pick, parse_i64, parse_choice_index};
use crate::text::{trimmed, trim_str, str_eq};
use crate::value::{VarValue, VarValueV, values_view};

verus! {

/// The input stream ended with no line left to read.
#[derive(Debug, PartialEq, Eq)]
pub enum PromptError {
    UnreadableInput,
}

/// The views of a list of input lines.
pub open spec fn lines_view(s: Seq<String>) -> Seq<Seq<char>> {
    s.map_values(|l: String| l@)
}

/// What a trimmed line says as a yes/no literal, if anything.
pub open spec fn bool_token(t: Seq<char>) -> Option<bool> {
    if t == "y"@ || t == "Y"@ || t == "yes"@ || t == "YES"@ || t == "true"@ {
        Some(true)
    } else if t == "n"@ || t == "N"@ || t == "no"@ || t == "NO"@ || t == "false"@ {
        Some(false)
    } else {
        None
    }
}

/// How one line answers a yes/no question with the given default: the line
/// is trimmed; a yes/no literal decides, an empty line takes the default,
/// and anything else resolves nothing (the question is asked again).
pub open spec fn bool_step(input: Seq<char>, default: bool) -> Option<bool> {
    let t = trimmed(input);
    match bool_token(t) {
        Some(b) => Some(b),
        None => if t.len() == 0 {
            Some(default)
        } else {
            None
        },
    }
}

/// How one line answers a free-text question: an empty line takes the
/// default, any other line is the answer verbatim.
pub open spec fn string_step(input: Seq<char>, default: Seq<char>) -> Seq<char> {
    if input.len() == 0 {
        default
    } else {
        input
    }
}

/// How one line answers an integer question: an empty line takes the
/// default; otherwise the line must read as a base-10 signed 64-bit
/// integer, and anything else resolves nothing.
pub open spec fn integer_step(input: Seq<char>, default: int) -> Option<int> {
    if input.len() == 0 {
        Some(default)
    } else {
        parsed_i64(input)
    }
}

/// How one line answers a choice question: an empty line returns the stored
/// default unchanged; otherwise the line must be a 1-based index into the
/// choices, and anything else resolves nothing.
pub open spec fn choice_step(input: Seq<char>, default: VarValueV, choices: Seq<VarValueV>) -> Option<
    VarValueV,
> {
    if input.len() == 0 {
        Some(default)
    } else {
        match choice_pick(input, choices.len() as int) {
            Some(k) => Some(choices[k]),
            None => None,
        }
    }
}

/// Resolves one yes/no line, as `bool_step` says.
pub fn interpret_bool(input: &str, default: bool) -> (r: Option<bool>)
    ensures
        r == bool_step(input@, default),
{
    let t = trim_str(input);
    let ts = t.as_str();
    if str_eq(ts, "y") || str_eq(ts, "Y") || str_eq(ts, "yes") || str_eq(ts, "YES") || str_eq(
        ts,
        "true",
    ) {
        Some(true)
    } else if str_eq(ts, "n") || str_eq(ts, "N") || str_eq(ts, "no") || str_eq(ts, "NO") || str_eq(
        ts,
        "false",
    ) {
        Some(false)
    } else if ts.unicode_len() == 0 {
        Some(default)
    } else {
        None
    }
}

/// Resolves one free-text line, as `string_step` says.
pub fn interpret_string(input: &str, default: &str) -> (r: String)
    ensures
        r@ == string_step(input@, default@),
{
    if input.unicode_len() == 0 {
        default.to_owned()
    } else {
        input.to_owned()
    }
}

/// Resolves one integer line, as `integer_step` says.
pub fn interpret_integer(input: &str, default: i64) -> (r: Option<i64>)
    ensures
        match r {
            Some(v) => integer_step(input@, default as int) == Some(v as int),
            None => integer_step(input@, default as int) is None,
        },
{
    if input.unicode_len() == 0 {
        Some(default)
    } else {
        parse_i64(input)
    }
}

/// Resolves one choice line, as `choice_step` says.
pub fn interpret_choice(input: &str, default: &VarValue, choices: &Vec<VarValue>) -> (r: Option<VarValue>)
    ensures
        match r {
            Some(v) => choice_step(input@, default@, values_view(choices@)) == Some(v@),
            None => choice_step(input@, default@, values_view(choices@)) is None,
        },
{
    if input.unicode_len() == 0 {
        Some(default.dup())
    } else {
        match parse_choice_index(input, choices.len()) {
            Some(k) => Some(choices[k].dup()),
            None => None,
        }
    }
}

/// The 1-based position shown as the default in a displayed choice list:
/// the position of the last occurrence of `default` among `choices`, or 1
/// when it does not occur.
pub open spec fn displayed_default_index(default: VarValueV, choices: Seq<VarValueV>) -> int
    decreases choices.len(),
{
    if choices.len() == 0 {
        1
    } else if choices.last() == default {
        choices.len() as int
    } else {
        displayed_default_index(default, choices.drop_last())
    }
}

/// Computes the 1-based default position a choice prompt displays, as
/// `displayed_default_index` says.
pub fn choice_default_index(default: &VarValue, choices: &Vec<VarValue>) -> (r: usize)
    ensures
        r as int == displayed_default_index(default@, values_view(choices@)),
{
    let mut idx: usize = 1;
    let mut i: usize = 0;
    while i < choices.len()
        invariant
            0 <= i <= choices.len(),
            idx as int == displayed_default_index(default@, values_view(choices@).take(i as int)),
        decreases choices.len() - i,
    {
        proof {
            assert(values_view(choices@).take(i + 1).drop_last() =~= values_view(choices@).take(
                i as int,
            ));
            assert(values_view(choices@).take(i + 1).last() == choices@[i as int]@);
        }
        if choices[i].same(default) {
            idx = i + 1;
        }
        i = i + 1;
    }
    proof {
        assert(values_view(choices@).take(choices@.len() as int) =~= values_view(choices@));
    }
    idx
}

/// What repeatedly asking one question resolves to, given the lines the
/// input stream will yield and how one line answers (`step`): the value of
/// the first line that resolves, paired with how many lines were read.
/// `None` means the stream ends before any line resolves.
pub open spec fn resolution<T>(lines: Seq<Seq<char>>, step: spec_fn(Seq<char>) -> Option<T>) -> Option<
    (T, int),
>
    decreases lines.len(),
{
    if lines.len() == 0 {
        None
    } else {
        match step(lines[0]) {
            Some(v) => Some((v, 1)),
            None => match resolution(lines.drop_first(), step) {
                Some(p) => Some((p.0, p.1 + 1)),
                None => None,
            },
        }
    }
}

/// Lines that resolve nothing only shift the count of the final resolution.
pub proof fn lemma_resolution_skip<T>(
    lines: Seq<Seq<char>>,
    step: spec_fn(Seq<char>) -> Option<T>,
    j: int,
)
    requires
        0 <= j <= lines.len(),
        forall|k: int| 0 <= k < j ==> step(lines[k]) is None,
    ensures
        resolution(lines, step) == match resolution(lines.skip(j), step) {
            Some(p) => Some((p.0, p.1 + j)),
            None => None::<(T, int)>,
        },
    decreases j,
{
    if j == 0 {
        assert(lines.skip(0) =~= lines);
        assert(resolution(lines, step) == match resolution(lines, step) {
            Some(p) => Some((p.0, p.1 + 0)),
            None => None::<(T, int)>,
        });
    } else {
        assert(step(lines[0]) is None);
        assert(lines.drop_first() =~= lines.skip(1));
        lemma_resolution_skip(lines.drop_first(), step, j - 1);
        assert(lines.drop_first().skip(j - 1) =~= lines.skip(j));
    }
}

/// What asking a yes/no question against the given lines resolves to.
pub open spec fn bool_resolution(lines: Seq<Seq<char>>, default: bool) -> Option<(bool, int)> {
    resolution(lines, |s: Seq<char>| bool_step(s, default))
}

/// What asking a free-text question against the given lines resolves to.
pub open spec fn string_resolution(lines: Seq<Seq<char>>, default: Seq<char>) -> Option<
    (Seq<char>, int),
> {
    resolution(lines, |s: Seq<char>| Some(string_step(s, default)))
}

/// What asking an integer question against the given lines resolves to.
pub open spec fn integer_resolution(lines: Seq<Seq<char>>, default: int) -> Option<(int, int)> {
    resolution(lines, |s: Seq<char>| integer_step(s, default))
}

/// What asking a choice question against the given lines resolves to.
pub open spec fn choice_resolution(
    lines: Seq<Seq<char>>,
    default: VarValueV,
    choices: Seq<VarValueV>,
) -> Option<(VarValueV, int)> {
    resolution(lines, |s: Seq<char>| choice_step(s, default, choices))
}

/// Asks a yes/no question: reads lines from position `start` on until one
/// resolves, as `bool_resolution` says; returns the value and the position
/// after the lines read. Fails only when the lines run out.
pub fn ask_bool(lines: &Vec<String>, start: usize, default: bool) -> (r: Result<
    (bool, usize),
    PromptError,
>)
    requires
        start <= lines.len(),
    ensures
        ({
            let res = bool_resolution(lines_view(lines@).skip(start as int), default);
            match r {
                Ok(p) => start < p.1 <= lines.len() && res == Some((p.0, p.1 - start as int)),
                Err(_) => res is None,
            }
        }),
{
    let ghost lv = lines_view(lines@);
    let ghost step = |s: Seq<char>| bool_step(s, default);
    let mut i: usize = start;
    while i < lines.len()
        invariant
            start <= i <= lines.len(),
            lv == lines_view(lines@),
            step == (|s: Seq<char>| bool_step(s, default)),
            forall|k: int| start <= k < i ==> step(lv[k]) is None,
        decreases lines.len() - i,
    {
        let got = interpret_bool(lines[i].as_str(), default);
        proof {
            assert(lv.skip(start as int).skip(i - start) =~= lv.skip(i as int));
            assert(forall|k: int|
                0 <= k < i - start ==> step(#[trigger] lv.skip(start as int)[k]) is None);
            lemma_resolution_skip(lv.skip(start as int), step, i - start);
            assert(lv.skip(i as int)[0] == lv[i as int]);
        }
        match got {
            Some(b) => {
                return Ok((b, i + 1));
            },
            None => {
                i = i + 1;
            },
        }
    }
    proof {
        assert(forall|k: int|
            0 <= k < i - start ==> step(#[trigger] lv.skip(start as int)[k]) is None);
        lemma_resolution_skip(lv.skip(start as int), step, i - start);
        assert(lv.skip(start as int).skip(i - start) =~= lv.skip(i as int));
    }
    Err(PromptError::UnreadableInput)
}

/// Asks a free-text question: the next line resolves at once, as
/// `string_resolution` says. Fails only when no line is left.
pub fn ask_string(lines: &Vec<String>, start: usize, default: &str) -> (r: Result<
    (String, usize),
    PromptError,
>)
    requires
        start <= lines.len(),
    ensures
        ({
            let res = string_resolution(lines_view(lines@).skip(start as int), default@);
            match r {
                Ok(p) => start < p.1 <= lines.len() && res == Some((p.0@, p.1 - start as int)),
                Err(_) => res is None,
            }
        }),
{
    let ghost lv = lines_view(lines@);
    if start < lines.len() {
        let v = interpret_string(lines[start].as_str(), default);
        proof {
            assert(lv.skip(start as int)[0] == lv[start as int]);
        }
        Ok((v, start + 1))
    } else {
        proof {
            assert(lv.skip(start as int).len() == 0);
        }
        Err(PromptError::UnreadableInput)
    }
}

/// Asks an integer question: reads lines from position `start` on until one
/// resolves, as `integer_resolution` says. Fails only when the lines run
/// out.
pub fn ask_integer(lines: &Vec<String>, start: usize, default: i64) -> (r: Result<
    (i64, usize),
    PromptError,
>)
    requires
        start <= lines.len(),
    ensures
        ({
            let res = integer_resolution(lines_view(lines@).skip(start as int), default as int);
            match r {
                Ok(p) => start < p.1 <= lines.len() && res == Some(
                    (p.0 as int, p.1 - start as int),
                ),
                Err(_) => res is None,
            }
        }),
{
    let ghost lv = lines_view(lines@);
    let ghost step = |s: Seq<char>| integer_step(s, default as int);
    let mut i: usize = start;
    while i < lines.len()
        invariant
            start <= i <= lines.len(),
            lv == lines_view(lines@),
            step == (|s: Seq<char>| integer_step(s, default as int)),
            forall|k: int| start <= k < i ==> step(lv[k]) is None,
        decreases lines.len() - i,
    {
        let got = interpret_integer(lines[i].as_str(), default);
        proof {
            assert(lv.skip(start as int).skip(i - start) =~= lv.skip(i as int));
            assert(forall|k: int|
                0 <= k < i - start ==> step(#[trigger] lv.skip(start as int)[k]) is None);
            lemma_resolution_skip(lv.skip(start as int), step, i - start);
            assert(lv.skip(i as int)[0] == lv[i as int]);
        }
        match got {
            Some(v) => {
                return Ok((v, i + 1));
            },
            None => {
                i = i + 1;
            },
        }
    }
    proof {
        assert(forall|k: int|
            0 <= k < i - start ==> step(#[trigger] lv.skip(start as int)[k]) is None);
        lemma_resolution_skip(lv.skip(start as int), step, i - start);
        assert(lv.skip(start as int).skip(i - start) =~= lv.skip(i as int));
    }
    Err(PromptError::UnreadableInput)
}

/// Asks a choice question: reads lines from position `start` on until one
/// resolves, as `choice_resolution` says. Fails only when the lines run
/// out.
pub fn ask_choices(lines: &Vec<String>, start: usize, default: &VarValue, choices: &Vec<VarValue>) -> (r:
    Result<(VarValue, usize), PromptError>)
    requires
        start <= lines.len(),
    ensures
        ({
            let res = choice_resolution(
                lines_view(lines@).skip(start as int),
                default@,
                values_view(choices@),
            );
            match r {
                Ok(p) => start < p.1 <= lines.len() && res == Some((p.0@, p.1 - start as int)),
                Err(_) => res is None,
            }
        }),
{
    let ghost lv = lines_view(lines@);
    let ghost step = |s: Seq<char>| choice_step(s, default@, values_view(choices@));
    let mut i: usize = start;
    while i < lines.len()
        invariant
            start <= i <= lines.len(),
            lv == lines_view(lines@),
            step == (|s: Seq<char>| choice_step(s, default@, values_view(choices@))),
            forall|k: int| start <= k < i ==> step(lv[k]) is None,
        decreases lines.len() - i,
    {
        let got = interpret_choice(lines[i].as_str(), default, choices);
        proof {
            assert(lv.skip(start as int).skip(i - start) =~= lv.skip(i as int));
            assert(forall|k: int|
                0 <= k < i - start ==> step(#[trigger] lv.skip(start as int)[k]) is None);
            lemma_resolution_skip(lv.skip(start as int), step, i - start);
            assert(lv.skip(i as int)[0] == lv[i as int]);
        }
        match got {
            Some(v) => {
                return Ok((v, i + 1));
            },
            None => {
                i = i + 1;
            },
        }
    }
    proof {
        assert(forall|k: int|
            0 <= k < i - start ==> step(#[trigger] lv.skip(start as int)[k]) is None);
        lemma_resolution_skip(lv.skip(start as int), step, i - start);
        assert(lv.skip(start as int).skip(i - start) =~= lv.skip(i as int));
    }
    Err(PromptError::UnreadableInput)
}

} // verus!

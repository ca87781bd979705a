//! Interactive prompts: the decisions taken on each answer.
use vstd::prelude::*;

use crate::text::{lower_seq, to_lower, trim, trim_seq};

verus! {

/// A source of answers to interactive questions (a terminal, or a script of
/// answers in tests).
pub trait PromptIo {
    fn is_terminal(&self) -> bool;

    fn prompt_line(&mut self, label: &str, default: Option<&str>) -> Result<String, String>;

    /// Tells the user why an answer was not taken before asking again.
    fn report(&mut self, message: &str);
}

/// The answer to a prompt: `None` when input was closed before an answer,
/// else the line without surrounding whitespace.
pub fn normalize_prompt_response(input: String, bytes_read: usize) -> (res: Result<String, String>)
    ensures
        bytes_read == 0 ==> res is Err && res->Err_0@ == "interactive input closed before a response was entered"@,
        bytes_read != 0 ==> res is Ok && res->Ok_0@ == trim_seq(input@),
{
    if bytes_read == 0 {
        return Err(String::from_str("interactive input closed before a response was entered"));
    }
    Ok(trim(input.as_str()))
}

/// Refuses to prompt when no terminal is attached.
pub fn ensure_prompt_terminal(is_terminal: bool, message: &str) -> (res: Result<(), String>)
    ensures
        is_terminal ==> res is Ok,
        !is_terminal ==> res is Err && res->Err_0@ == message@,
{
    if is_terminal {
        Ok(())
    } else {
        Err(String::from_str(message))
    }
}

/// A blank answer takes the default.
pub fn answer_with_default(raw: String, default: &str) -> (res: String)
    ensures
        res@ == if raw@.len() == 0 { default@ } else { raw@ },
{
    if raw.as_str().unicode_len() == 0 {
        String::from_str(default)
    } else {
        raw
    }
}

/// A blank answer means no value.
pub fn optional_answer(raw: String) -> (res: Option<String>)
    ensures
        raw@.len() == 0 ==> res is None,
        raw@.len() != 0 ==> res is Some && res->Some_0@ == raw@,
{
    if raw.as_str().unicode_len() == 0 {
        None
    } else {
        Some(raw)
    }
}

/// A blank answer takes the default, unless the default is missing or blank.
pub fn optional_answer_with_default(raw: String, default: Option<&str>) -> (res: Option<String>)
    ensures
        raw@.len() != 0 ==> res is Some && res->Some_0@ == raw@,
        raw@.len() == 0 ==> match default {
            Some(d) => if d@.len() == 0 { res is None } else { res is Some && res->Some_0@ == d@ },
            None => res is None,
        },
{
    if raw.as_str().unicode_len() != 0 {
        return Some(raw);
    }
    match default {
        Some(d) => {
            if d.unicode_len() == 0 {
                None
            } else {
                Some(String::from_str(d))
            }
        },
        None => None,
    }
}

/// A yes/no answer: `y`, `yes`, `true` and `n`, `no`, `false` in any case,
/// around whitespace; anything else is no answer.
pub open spec fn bool_answer_spec(raw: Seq<char>) -> Option<bool> {
    let t = lower_seq(trim_seq(raw));
    if t == "y"@ || t == "yes"@ || t == "true"@ {
        Some(true)
    } else if t == "n"@ || t == "no"@ || t == "false"@ {
        Some(false)
    } else {
        None
    }
}

pub fn parse_bool_answer(raw: &str) -> (res: Option<bool>)
    ensures
        res == bool_answer_spec(raw@),
{
    let t = trim(raw);
    let l = to_lower(t.as_str());
    let s = l.as_str();
    if crate::text::str_eq(s, "y") || crate::text::str_eq(s, "yes") || crate::text::str_eq(s, "true") {
        Some(true)
    } else if crate::text::str_eq(s, "n") || crate::text::str_eq(s, "no") || crate::text::str_eq(s, "false") {
        Some(false)
    } else {
        None
    }
}

/// Asks with a default, which a blank answer takes.
pub fn prompt_with_default<P: PromptIo>(prompt_io: &mut P, label: &str, default: &str) -> (res: Result<String, String>)
    ensures
        res is Ok ==> res->Ok_0@.len() > 0 || res->Ok_0@ == default@,
{
    let raw = prompt_io.prompt_line(label, Some(default))?;
    Ok(answer_with_default(raw, default))
}

/// Asks for an optional value; a blank answer takes the default, unless the
/// default is missing or blank.
pub fn prompt_optional_with_default<P: PromptIo>(prompt_io: &mut P, label: &str, default: Option<&str>) -> (res: Result<Option<String>, String>)
    ensures
        res matches Ok(Some(v)) ==> v@.len() > 0,
        res matches Ok(None) ==> default is None || default->Some_0@.len() == 0,
{
    let raw = prompt_io.prompt_line(label, default)?;
    Ok(optional_answer_with_default(raw, default))
}

/// Asks for an optional value; a blank answer means none.
pub fn prompt_optional<P: PromptIo>(prompt_io: &mut P, label: &str, default: Option<&str>) -> (res: Result<Option<String>, String>)
    ensures
        res matches Ok(Some(v)) ==> v@.len() > 0,
{
    let raw = prompt_io.prompt_line(label, default)?;
    Ok(optional_answer(raw))
}

/// The message that ends a question once `u64::MAX` answers were refused.
pub open spec fn attempts_exhausted(label: Seq<char>) -> Seq<char> {
    "no acceptable answer to `"@ + label + "`"@
}

pub fn attempts_exhausted_message(label: &str) -> (res: String)
    ensures
        res@ == attempts_exhausted(label@),
{
    let mut m = String::from_str("no acceptable answer to `");
    m.append(label);
    m.append("`");
    m
}

/// The default that a yes/no question shows: `yes` or `no`.
pub open spec fn bool_default_text(default: bool) -> Seq<char> {
    if default { "yes"@ } else { "no"@ }
}

/// What a yes/no answer reads as, a blank answer counting as the default.
pub open spec fn bool_answer_or_default(raw: Seq<char>, default: bool) -> Option<bool> {
    bool_answer_spec(if raw.len() == 0 { bool_default_text(default) } else { raw })
}

pub fn bool_prompt_default(default: bool) -> (res: &'static str)
    ensures
        res@ == bool_default_text(default),
{
    if default { "yes" } else { "no" }
}

/// Asks `label` as a yes/no question, showing `bool_prompt_default(default)`
/// as its default, until the answer is one (a blank answer takes the
/// default); any other answer is reported and the question asked again. The
/// result is what `bool_answer_spec` reads from an answer, a blank one
/// counting as the default.
pub fn prompt_bool<P: PromptIo>(prompt_io: &mut P, label: &str, default: bool) -> (res: Result<bool, String>)
    ensures
        res matches Ok(v) ==> exists|raw: Seq<char>| #[trigger] bool_answer_or_default(raw, default) == Some(v),
{
    let default_value = bool_prompt_default(default);
    let mut attempts: u64 = 0;
    loop
        invariant
            default_value@ == bool_default_text(default),
        decreases u64::MAX - attempts,
    {
        if attempts == u64::MAX {
            return Err(attempts_exhausted_message(label));
        }
        attempts = attempts + 1;
        let raw = prompt_io.prompt_line(label, Some(default_value))?;
        let ghost rv = raw@;
        let answer = answer_with_default(raw, default_value);
        match parse_bool_answer(answer.as_str()) {
            Some(value) => {
                let ghost r = rv;
                assert(answer@ == (if r.len() == 0 { bool_default_text(default) } else { r }));
                assert(bool_answer_or_default(r, default) == Some(value));
                return Ok(value);
            },
            None => {
                prompt_io.report("Please enter yes or no.");
            },
        }
    }
}

} // verus!

//! Checks on what the user typed, and the wording of error reports.

use crate::text::{trim_text, trimmed};
use vstd::prelude::*;
use vstd::string::*;

verus! {

/// The longest field that is accepted, in characters.
pub const MAX_FIELD_LENGTH: usize = 255;

/// What is said of a field that holds nothing but white space.
pub open spec fn empty_field_text(field: Seq<char>) -> Seq<char> {
    field + " cannot be empty"@
}

/// What is said of a field that is too long.
pub open spec fn long_field_text(field: Seq<char>) -> Seq<char> {
    field + " too long (max 255 characters)"@
}

/// What the check of a field says, given what is left of it after
/// trimming and how many characters it has.
pub open spec fn field_verdict(rest: Seq<char>, length: nat, field: Seq<char>) -> Result<
    (),
    Seq<char>,
> {
    if rest.len() == 0 {
        Err(empty_field_text(field))
    } else if length > MAX_FIELD_LENGTH {
        Err(long_field_text(field))
    } else {
        Ok(())
    }
}

/// The text of an error, if there is one.
pub open spec fn verdict_of(res: Result<(), String>) -> Result<(), Seq<char>> {
    match res {
        Ok(()) => Ok(()),
        Err(e) => Err(e@),
    }
}

/// Checks a field of which `rest` is left after trimming and which is
/// `length` characters long: it must not be blank, and not longer than
/// [`MAX_FIELD_LENGTH`]. `field` is the field's name in the error.
pub fn check_field(rest: &str, length: usize, field: &str) -> (res: Result<(), String>)
    ensures
        verdict_of(res) == field_verdict(rest@, length as nat, field@),
{
    if rest.is_empty() {
        let mut message = field.to_owned();
        message.append(" cannot be empty");
        Err(message)
    } else if length > MAX_FIELD_LENGTH {
        let mut message = field.to_owned();
        message.append(" too long (max 255 characters)");
        Err(message)
    } else {
        Ok(())
    }
}

/// Checks what the user typed into the field named `field`: it must hold
/// more than white space, and at most [`MAX_FIELD_LENGTH`] characters.
pub fn validate_input(input: &str, field: &str) -> (res: Result<(), String>)
    ensures
        verdict_of(res) == field_verdict(trimmed(input@), input@.len(), field@),
        input@.len() == 0 ==> res is Err,
{
    let rest = trim_text(input);
    check_field(rest, input.unicode_len(), field)
}

/// The lines that report an error and, one by one, what caused it.
pub fn error_report(error: &str, causes: &Vec<String>) -> (lines: Vec<String>)
    ensures
        lines.len() == causes.len() + 1,
        lines[0]@ == "Error occurred: "@ + error@,
        forall|i: int| 0 <= i < causes.len() ==> (#[trigger] lines[i + 1])@ == "Caused by: "@ + causes[i]@,
{
    let mut lines: Vec<String> = Vec::new();
    let mut first = "Error occurred: ".to_owned();
    first.append(error);
    lines.push(first);
    let mut i: usize = 0;
    while i < causes.len()
        invariant
            i <= causes.len(),
            lines.len() == i + 1,
            lines[0]@ == "Error occurred: "@ + error@,
            forall|j: int| 0 <= j < i ==> (#[trigger] lines[j + 1])@ == "Caused by: "@ + causes[j]@,
        decreases causes.len() - i,
    {
        let mut line = "Caused by: ".to_owned();
        line.append(causes[i].as_str());
        lines.push(line);
        i += 1;
    }
    lines
}

} // verus!

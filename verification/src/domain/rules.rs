//! The field rules that the brand and category forms share, and the
//! messages (in Arabic, as the pages show them) that report a broken rule.
use vstd::prelude::*;
use crate::text::{char_count, opt_chars, owned, trim, trim_str};

verus! {

/// Reported for a name that is empty after trimming.
pub open spec fn msg_required() -> Seq<char> {
    "لا يمكن ترك هذه القيمة فارغة"@
}

/// Reported for a name longer than 100 characters after trimming.
pub open spec fn msg_name_too_long() -> Seq<char> {
    "لا يمكن أن يزيد عدد أحرف هذه الخانة عن 100 حرف"@
}

/// Reported for notes longer than 500 characters after trimming.
pub open spec fn msg_notes_too_long() -> Seq<char> {
    "لا يمكن أن يزيد عدد أحرف الملاحظات عن 500 حرف"@
}

/// Reported for a parent category name longer than 500 characters after
/// trimming.
pub open spec fn msg_parent_too_long() -> Seq<char> {
    "لا يمكن أن يزيد عدد أحرف الفئة عن 500 حرف"@
}

/// The longest name, in characters, that a form accepts.
pub const NAME_MAX_CHARS: usize = 100;

/// The longest notes (or parent name), in characters, that a form accepts.
pub const TEXT_MAX_CHARS: usize = 500;

/// What is wrong with a required name: empty, or too long, after trimming.
pub open spec fn name_error(name: Seq<char>) -> Option<Seq<char>> {
    let t = trim(name);
    if t.len() == 0 {
        Some(msg_required())
    } else if t.len() > NAME_MAX_CHARS {
        Some(msg_name_too_long())
    } else {
        None
    }
}

/// What is wrong with an optional text that may hold at most
/// `TEXT_MAX_CHARS` characters after trimming: `msg` when it is too long.
pub open spec fn text_error(text: Option<Seq<char>>, msg: Seq<char>) -> Option<Seq<char>> {
    match text {
        Some(t) => if trim(t).len() > TEXT_MAX_CHARS {
            Some(msg)
        } else {
            None
        },
        None => None,
    }
}

/// Checks a required name.
pub fn check_name(name: &str) -> (r: Option<String>)
    ensures
        opt_chars(r) == name_error(name@),
{
    let trimmed = trim_str(name);
    if char_count(trimmed) == 0 {
        Some(owned("لا يمكن ترك هذه القيمة فارغة"))
    } else if char_count(trimmed) > NAME_MAX_CHARS {
        Some(owned("لا يمكن أن يزيد عدد أحرف هذه الخانة عن 100 حرف"))
    } else {
        None
    }
}

/// Checks optional notes.
pub fn check_notes(notes: &Option<String>) -> (r: Option<String>)
    ensures
        opt_chars(r) == text_error(opt_chars(*notes), msg_notes_too_long()),
{
    match notes {
        Some(n) => {
            if char_count(trim_str(n.as_str())) > TEXT_MAX_CHARS {
                Some(owned("لا يمكن أن يزيد عدد أحرف الملاحظات عن 500 حرف"))
            } else {
                None
            }
        },
        None => None,
    }
}

/// Checks an optional parent category name.
pub fn check_parent_name(parent_name: &Option<String>) -> (r: Option<String>)
    ensures
        opt_chars(r) == text_error(opt_chars(*parent_name), msg_parent_too_long()),
{
    match parent_name {
        Some(n) => {
            if char_count(trim_str(n.as_str())) > TEXT_MAX_CHARS {
                Some(owned("لا يمكن أن يزيد عدد أحرف الفئة عن 500 حرف"))
            } else {
                None
            }
        },
        None => None,
    }
}

} // verus!

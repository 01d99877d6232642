//! Choice of the audio backend.
//!
//! A backend that the environment names is taken, whether or not it looks
//! ready; otherwise the first one that works is left to be probed.

use oxideav_sysaudio::Driver;
use vstd::prelude::*;

verus! {

/// `oxideav_sysaudio::Driver`, a handle to an audio backend; opaque.
#[verifier::external_type_specification]
#[verifier::external_body]
pub struct ExDriver(oxideav_sysaudio::Driver);

/// The outcome of the choice.
pub enum Selection {
    /// This backend, under its name.
    Chosen { driver: Driver, name: String },
    /// None, and why.
    Refused(String),
    /// Whichever backend works.
    Preferred,
}

/// The characters that Unicode calls white space.
pub open spec fn is_white_space(c: char) -> bool {
    let n = c as u32;
    ||| 0x09 <= n <= 0x0d
    ||| n == 0x20
    ||| n == 0x85
    ||| n == 0xa0
    ||| n == 0x1680
    ||| 0x2000 <= n <= 0x200a
    ||| n == 0x2028
    ||| n == 0x2029
    ||| n == 0x202f
    ||| n == 0x205f
    ||| n == 0x3000
}

/// A text from its first character that is not white space.
pub open spec fn without_leading(text: Seq<char>) -> Seq<char>
    decreases text.len(),
{
    if text.len() > 0 && is_white_space(text.first()) {
        without_leading(text.drop_first())
    } else {
        text
    }
}

/// A text up to its last character that is not white space.
pub open spec fn without_trailing(text: Seq<char>) -> Seq<char>
    decreases text.len(),
{
    if text.len() > 0 && is_white_space(text.last()) {
        without_trailing(text.drop_last())
    } else {
        text
    }
}

/// A text without the white space around it.
pub open spec fn trimmed(text: Seq<char>) -> Seq<char> {
    without_trailing(without_leading(text))
}

/// Calls `str::trim`: the text without the white space, as Unicode has it,
/// at either end.
#[verifier::external_body]
fn trim(text: &str) -> (inner: &str)
    ensures
        inner@ == trimmed(text@),
{
    text.trim()
}

/// Calls `oxideav_sysaudio::driver_by_name`, and `Driver::name` on what it
/// finds: a backend that is found has exactly the name looked for. Which
/// backends there are is left open: it depends on what was built in for the
/// platform.
#[verifier::external_body]
fn driver_by_name(name: &str) -> (found: Option<(Driver, String)>)
    ensures
        found matches Some((_, found_name)) ==> found_name@ == name@,
{
    oxideav_sysaudio::driver_by_name(name).map(|d| (d, d.name().to_string()))
}

/// Whether `found` is what looking for a backend of that name gave.
pub closed spec fn looked_up(name: Seq<char>, found: Option<(Driver, String)>) -> bool {
    exists|text: &str|
        text@ == name && #[trigger] call_ensures(driver_by_name, (text,), found)
}

/// Looks for a backend by name.
fn look_up<F: Fn(&str) -> Option<(Driver, String)>>(finder: F, name: &str) -> (found: Option<
    (Driver, String),
>)
    requires
        call_requires(finder, (name,)),
    ensures
        call_ensures(finder, (name,), found),
{
    finder(name)
}

/// The backend that the environment names, if it names one.
pub open spec fn named(variable: Option<Seq<char>>) -> Option<Seq<char>> {
    match variable {
        Some(text) if trimmed(text).len() > 0 => Some(trimmed(text)),
        _ => None,
    }
}

/// The complaint about a name that no backend has.
pub open spec fn no_such_backend(name: Seq<char>) -> Seq<char> {
    "OXIDEPLAY_AUDIO_DRIVER="@ + name + " — no such sysaudio backend"@
}

/// The complaint about a backend that cannot be opened.
pub open spec fn open_failure(name: Seq<char>, cause: Seq<char>) -> Seq<char> {
    "sysaudio: open("@ + name + "): "@ + cause
}

/// Reads the name of a backend out of the environment variable's value: the
/// value without the white space around it, unless nothing is left.
pub fn backend_name(variable: Option<String>) -> (name: Option<String>)
    ensures
        match (name, named(match variable {
            Some(text) => Some(text@),
            None => None,
        })) {
            (Some(n), Some(expected)) => n@ == expected,
            (None, None) => true,
            _ => false,
        },
{
    match variable {
        Some(text) => {
            let inner = trim(text.as_str());
            if inner.unicode_len() > 0 {
                Some(inner.to_string())
            } else {
                None
            }
        },
        None => None,
    }
}

/// Settles the choice for a name, given the backend of that name, if there
/// is one.
pub fn settle(name: &str, found: Option<(Driver, String)>) -> (selection: Selection)
    ensures
        match found {
            Some((d, n)) => selection == (Selection::Chosen { driver: d, name: n }),
            None => selection matches Selection::Refused(e) && e@ == no_such_backend(name@),
        },
{
    match found {
        Some((driver, found_name)) => Selection::Chosen { driver, name: found_name },
        None => {
            let mut text = "OXIDEPLAY_AUDIO_DRIVER=".to_string();
            text.append(name);
            text.append(" — no such sysaudio backend");
            Selection::Refused(text)
        },
    }
}

/// Chooses the backend. Where the environment variable names one, it is the
/// one found under that name, or an error if none was found; where it is
/// unset or blank, the choice is left to probing.
pub fn select_driver(variable: Option<String>) -> (selection: Selection)
    ensures
        match named(match variable {
            Some(text) => Some(text@),
            None => None,
        }) {
            None => selection is Preferred,
            Some(name) => match selection {
                Selection::Chosen { driver, name: chosen } => {
                    &&& chosen@ == name
                    &&& looked_up(name, Some((driver, chosen)))
                },
                Selection::Refused(e) => e@ == no_such_backend(name) && looked_up(name, None),
                Selection::Preferred => false,
            },
        },
{
    match backend_name(variable) {
        Some(name) => {
            let found = look_up(driver_by_name, name.as_str());
            settle(name.as_str(), found)
        },
        None => Selection::Preferred,
    }
}

/// What to report when probing finds no backend.
pub fn no_backend_message() -> (text: String)
    ensures
        text@ == "sysaudio: no audio backend is available"@,
{
    "sysaudio: no audio backend is available".to_string()
}

/// What to report when a backend cannot be opened.
pub fn open_failure_message(name: &str, cause: &str) -> (text: String)
    ensures
        text@ == open_failure(name@, cause@),
{
    let mut text = "sysaudio: open(".to_string();
    text.append(name);
    text.append("): ");
    text.append(cause);
    text
}

proof fn lemma_without_leading(text: Seq<char>) -> (start: int)
    ensures
        0 <= start <= text.len(),
        without_leading(text) == text.subrange(start, text.len() as int),
        forall|k: int| 0 <= k < start ==> is_white_space(#[trigger] text[k]),
        start < text.len() ==> !is_white_space(text[start]),
    decreases text.len(),
{
    if text.len() > 0 && is_white_space(text.first()) {
        let rest = text.drop_first();
        let after = lemma_without_leading(rest);
        assert(rest.subrange(after, rest.len() as int) =~= text.subrange(
            after + 1,
            text.len() as int,
        ));
        assert forall|k: int| 0 <= k < after + 1 implies is_white_space(#[trigger] text[k]) by {
            if k > 0 {
                assert(rest[k - 1] == text[k]);
            }
        }
        after + 1
    } else {
        assert(text.subrange(0, text.len() as int) =~= text);
        0
    }
}

proof fn lemma_without_trailing(text: Seq<char>) -> (end: int)
    ensures
        0 <= end <= text.len(),
        without_trailing(text) == text.subrange(0, end),
        forall|k: int| end <= k < text.len() ==> is_white_space(#[trigger] text[k]),
        end > 0 ==> !is_white_space(text[end - 1]),
    decreases text.len(),
{
    if text.len() > 0 && is_white_space(text.last()) {
        let rest = text.drop_last();
        let end = lemma_without_trailing(rest);
        assert(rest.subrange(0, end) =~= text.subrange(0, end));
        assert forall|k: int| end <= k < text.len() implies is_white_space(#[trigger] text[k]) by {
            if k < rest.len() {
                assert(rest[k] == text[k]);
            }
        }
        end
    } else {
        assert(text.subrange(0, text.len() as int) =~= text);
        text.len() as int
    }
}

proof fn lemma_trimmed(text: Seq<char>)
    ensures
        trimmed(text).len() == 0 <==> forall|k: int|
            0 <= k < text.len() ==> is_white_space(#[trigger] text[k]),
        forall|start: int, end: int|
            #![trigger text.subrange(start, end)]
            0 <= start < end <= text.len() && !is_white_space(text[start]) && !is_white_space(
                text[end - 1],
            ) && (forall|k: int|
                0 <= k < start || end <= k < text.len() ==> is_white_space(#[trigger] text[k]))
                ==> trimmed(text) == text.subrange(start, end),
{
    let a = lemma_without_leading(text);
    let mid = without_leading(text);
    let b = lemma_without_trailing(mid);
    assert(mid.subrange(0, b) =~= text.subrange(a, a + b));
    assert forall|k: int| a + b <= k < text.len() implies is_white_space(#[trigger] text[k]) by {
        assert(mid[k - a] == text[k]);
    }
    if b > 0 {
        assert(mid[b - 1] == text[a + b - 1]);
    }
    assert forall|start: int, end: int|
        #![trigger text.subrange(start, end)]
        0 <= start < end <= text.len() && !is_white_space(text[start]) && !is_white_space(
            text[end - 1],
        ) && (forall|k: int|
            0 <= k < start || end <= k < text.len() ==> is_white_space(
                #[trigger] text[k],
            )) implies trimmed(text) == text.subrange(start, end) by {
        assert(a < text.len());
        assert(a == start);
        if b == 0 {
            assert(is_white_space(text[a]));
        }
        assert(a + b == end);
    }
}

/// The name of a backend is the variable's value without the white space
/// around it: it starts and ends at the first and the last character that is
/// not white space. There is none where the variable is unset or blank.
pub proof fn law_name_is_the_value_without_space_around(
    variable: Option<String>,
    name: Option<String>,
    start: int,
    end: int,
)
    requires
        call_ensures(backend_name, (variable,), name),
    ensures
        variable is None ==> name is None,
        variable matches Some(text) ==> {
            &&& name is None <==> forall|k: int|
                0 <= k < text@.len() ==> is_white_space(#[trigger] text@[k])
            &&& 0 <= start < end <= text@.len() && !is_white_space(text@[start])
                && !is_white_space(text@[end - 1]) && (forall|k: int|
                0 <= k < start || end <= k < text@.len() ==> is_white_space(#[trigger] text@[k]))
                ==> (name matches Some(n) && n@ == text@.subrange(start, end))
        },
{
    if let Some(text) = variable {
        lemma_trimmed(text@);
        if 0 <= start < end <= text@.len() && !is_white_space(text@[start]) {
            let whole = text@.subrange(start, end);
            assert(whole.len() > 0);
        }
    }
}

/// A named backend that was found is taken as it is; one that was not is
/// refused by its name.
pub proof fn law_named_backend_is_taken_or_refused(
    name: &str,
    found: Option<(Driver, String)>,
    selection: Selection,
)
    requires
        call_ensures(settle, (name, found), selection),
    ensures
        found matches Some((d, n)) ==> selection == (Selection::Chosen { driver: d, name: n }),
        found is None ==> (selection matches Selection::Refused(e) && e@
            == "OXIDEPLAY_AUDIO_DRIVER="@ + name@ + " — no such sysaudio backend"@),
{
}

/// The choice follows the name in the environment: what was found under that
/// name, or a refusal of it where nothing was; without a name it is left to
/// probing.
pub proof fn law_choice_follows_the_name(
    variable: Option<String>,
    name: Option<String>,
    selection: Selection,
)
    requires
        call_ensures(backend_name, (variable,), name),
        call_ensures(select_driver, (variable,), selection),
    ensures
        match name {
            None => selection is Preferred,
            Some(n) => match selection {
                Selection::Chosen { driver, name: chosen } => {
                    &&& chosen@ == n@
                    &&& looked_up(n@, Some((driver, chosen)))
                },
                Selection::Refused(e) => {
                    &&& e@ == "OXIDEPLAY_AUDIO_DRIVER="@ + n@ + " — no such sysaudio backend"@
                    &&& looked_up(n@, None)
                },
                Selection::Preferred => false,
            },
        },
{
}

/// A backend that cannot be opened is reported by its name and the cause.
pub proof fn law_failed_opening_names_backend_and_cause(name: &str, cause: &str, text: String)
    requires
        call_ensures(open_failure_message, (name, cause), text),
    ensures
        text@ == "sysaudio: open("@ + name@ + "): "@ + cause@,
{
}

} // verus!

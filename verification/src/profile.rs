//! The network that the machine is connected to, as the system's own query reports it.
use crate::text::{
    decimal, digit, lemma_decimal_digits, lemma_decimal_reads_back, lemma_split_undoes_join,
    lemma_trimmed, lemma_untouched_by_trimming, parse_u32, parsed_u32, split_first, split_once,
    trim, trimmed,
};
use vstd::prelude::*;
use vstd::utf8::{decode_utf8, valid_utf8};

verus! {

/// What came of asking the system for the connected network.
#[derive(Debug)]
pub enum ProfileQuery {
    /// The system has no such query.
    Unsupported,
    /// The query could not be run.
    NotRun,
    /// The query ran to its end.
    Ran {
        /// Whether it reported success.
        success: bool,
        /// What it printed.
        stdout: Vec<u8>,
    },
}

/// The text that bytes stand for when read as UTF-8 with replacement characters for what is none.
pub uninterp spec fn lossy_text(bytes: Seq<u8>) -> Seq<char>;

/// `String::from_utf8_lossy`: bytes read as UTF-8.
///
/// Claimed: the text depends on the bytes alone, and where they are valid UTF-8 it is the text
/// they encode. Which replacement characters stand for the other bytes is left to the name.
#[verifier::external_body]
fn decode_lossy(bytes: &Vec<u8>) -> (text: String)
    ensures
        text@ == lossy_text(bytes@),
        valid_utf8(bytes@) ==> text@ == decode_utf8(bytes@),
{
    String::from_utf8_lossy(bytes).into_owned()
}

/// The text that the query printed: what its bytes encode, where they are valid UTF-8.
pub open spec fn printed_text(bytes: Seq<u8>) -> Seq<char> {
    if valid_utf8(bytes) {
        decode_utf8(bytes)
    } else {
        lossy_text(bytes)
    }
}

/// Index of the interface and display text that the query's answer names: the index before the
/// first semicolon, the display text after it, each without white space around it.
pub open spec fn profile_in(text: Seq<char>) -> Option<(u32, Seq<char>)> {
    match split_first(trimmed(text), ';') {
        None => None,
        Some((index, display)) => match parsed_u32(trimmed(index)) {
            None => None,
            Some(n) => Some((n, trimmed(display))),
        },
    }
}

/// Reads the query's answer.
pub fn parse_profile(text: &str) -> (r: Option<(u32, String)>)
    ensures
        match r {
            None => profile_in(text@) is None,
            Some((index, display)) => profile_in(text@) == Some((index, display@)),
        },
{
    if let Some((index, display)) = split_once(trim(text), ';') {
        if let Some(n) = parse_u32(trim(index)) {
            return Some((n, trim(display).to_owned()));
        }
    }
    None
}

/// The answer that a query gives, if it gives one.
pub open spec fn answer_of(query: ProfileQuery) -> Option<(u32, Seq<char>)> {
    match query {
        ProfileQuery::Ran { success, stdout } => if success {
            profile_in(printed_text(stdout@))
        } else {
            None
        },
        _ => None,
    }
}

/// Index of the active interface and the text to show for it: what the query answered, or the
/// index zero and a text that says that there is no answer.
pub fn get_network_profile_info(query: ProfileQuery) -> (r: (u32, String))
    ensures
        match answer_of(query) {
            Some((index, display)) => r.0 == index && r.1@ == display,
            None => r.0 == 0 && r.1@ == (if query is Unsupported {
                "Network info not available on this OS"@
            } else {
                "Network info not available"@
            }),
        },
{
    match query {
        ProfileQuery::Unsupported => (0, "Network info not available on this OS".to_owned()),
        ProfileQuery::NotRun => (0, "Network info not available".to_owned()),
        ProfileQuery::Ran { success, stdout } => {
            if success {
                let text = decode_lossy(&stdout);
                if let Some(found) = parse_profile(text.as_str()) {
                    return found;
                }
            }
            (0, "Network info not available".to_owned())
        },
    }
}

/// An answer reads back: the index of the interface in decimal, a semicolon, and a display text
/// without white space around it, which may itself hold semicolons.
pub proof fn lemma_answer_reads_back(index: u32, display: Seq<char>)
    requires
        trimmed(display) == display,
    ensures
        profile_in(decimal(index as nat) + seq![';'] + display) == Some((index, display)),
{
    let number = decimal(index as nat);
    let answer = number + seq![';'] + display;
    lemma_decimal_digits(index as nat);
    lemma_decimal_reads_back(index);
    lemma_trimmed(display);
    assert(digit(number[0]) && digit(number.last()));
    assert(answer.first() == number[0]);
    assert(answer.last() == (if display.len() > 0 {
        display.last()
    } else {
        ';'
    }));
    lemma_untouched_by_trimming(answer);
    lemma_untouched_by_trimming(number);
    assert(!number.contains(';')) by {
        if number.contains(';') {
            let i = choose|i: int| 0 <= i < number.len() && number[i] == ';';
            assert(digit(number[i]));
        }
    }
    lemma_split_undoes_join(number, ';', display);
}

/// Without a semicolon, or without a number before the first one, an answer names no network.
pub proof fn lemma_no_answer(text: Seq<char>)
    ensures
        !trimmed(text).contains(';') ==> profile_in(text) is None,
        match split_first(trimmed(text), ';') {
            Some((index, _)) => parsed_u32(trimmed(index)) is None ==> profile_in(text) is None,
            None => profile_in(text) is None,
        },
{
    crate::text::lemma_split_parts(trimmed(text), ';');
    if let Some((before, after)) = split_first(trimmed(text), ';') {
        assert(trimmed(text)[before.len() as int] == ';');
    }
}

/// An answer is taken apart at its first semicolon, once the white space around it is gone: the
/// number before it and the text after it, each without white space around it, are what it names,
/// and it names nothing where no number stands there.
pub proof fn lemma_answer_taken_apart(text: Seq<char>, before: Seq<char>, after: Seq<char>)
    requires
        trimmed(text) == before + seq![';'] + after,
        !before.contains(';'),
    ensures
        parsed_u32(trimmed(before)) matches Some(n) ==> profile_in(text) == Some(
            (n, trimmed(after)),
        ),
        parsed_u32(trimmed(before)) is None ==> profile_in(text) is None,
{
    lemma_split_undoes_join(before, ';', after);
}

/// Only a query that ran and reported success answers, and then with what its bytes say, read as
/// UTF-8 where they are that.
pub proof fn lemma_only_success_answers(query: ProfileQuery)
    ensures
        query matches ProfileQuery::Ran { success: true, stdout } ==> {
            &&& valid_utf8(stdout@) ==> answer_of(query) == profile_in(decode_utf8(stdout@))
            &&& !valid_utf8(stdout@) ==> answer_of(query) == profile_in(lossy_text(stdout@))
        },
        query matches ProfileQuery::Ran { success: false, stdout } ==> answer_of(query) is None,
        query is Unsupported || query is NotRun ==> answer_of(query) is None,
{
}

} // verus!

//! The information letter of a station's automatic terminal broadcast, read
//! from a snapshot of the controller network.

use vstd::prelude::*;
use vstd::string::*;

use crate::text::{
    char_to_string, chars_of, contains_str, join, joined, matches_at, occurs_at, occurs_in,
    starts_with, texts,
};

verus! {

/// One terminal broadcast of the snapshot.
#[derive(Debug, PartialEq, Eq)]
pub struct Atis {
    pub callsign: String,
    /// The letter that the network lists for the broadcast.
    pub atis_code: Option<String>,
    /// The lines of the broadcast's text.
    pub text_atis: Option<Vec<String>>,
}

/// Whether `word` stands in `text` at `at` with a capital letter after it.
pub open spec fn letter_follows(text: Seq<char>, word: Seq<char>, at: int) -> bool {
    &&& occurs_at(text, word, at)
    &&& at + word.len() < text.len()
    &&& 'A' <= text[at + word.len()] <= 'Z'
}

/// The capital letter after the first `word` that has one after it, looking
/// from `from` on.
pub open spec fn letter_after(text: Seq<char>, word: Seq<char>, from: int) -> Option<char>
    decreases text.len() - from,
{
    if from < 0 || from >= text.len() {
        None
    } else if letter_follows(text, word, from) {
        Some(text[from + word.len()])
    } else {
        letter_after(text, word, from + 1)
    }
}

/// The word `INFO` and a space.
pub open spec fn short_marker() -> Seq<char> {
    seq!['I', 'N', 'F', 'O', ' ']
}

/// The word `INFORMATION` and a space.
pub open spec fn long_marker() -> Seq<char> {
    seq!['I', 'N', 'F', 'O', 'R', 'M', 'A', 'T', 'I', 'O', 'N', ' ']
}

/// The information letter that a broadcast's text names: the capital letter
/// after the first `INFO `, or else after the first `INFORMATION `, in the
/// lines joined by spaces.
pub open spec fn code_in_text(lines: Seq<String>) -> Option<char> {
    let text = joined(texts(lines), seq![' ']);
    match letter_after(text, short_marker(), 0) {
        Some(letter) => Some(letter),
        None => letter_after(text, long_marker(), 0),
    }
}

/// The letter to show for one broadcast. Where the text already names the
/// letter after the listed one, the text is ahead of the listing and its
/// letter stands.
pub open spec fn code_of(atis: Atis) -> Seq<char> {
    match (atis.atis_code, atis.text_atis) {
        (Some(code), Some(lines)) => match code_in_text(lines@) {
            Some(in_text) => if code@.len() == 0 {
                code@
            } else if in_text as u32 == code@[0] as u32 + 1 {
                seq![in_text]
            } else {
                seq![code@[0]]
            },
            None => code@,
        },
        (Some(code), None) => code@,
        (None, Some(lines)) => match code_in_text(lines@) {
            Some(in_text) => seq![in_text],
            None => seq!['-'],
        },
        (None, None) => seq!['-'],
    }
}

/// Those of `list` whose callsign begins with `prefix`, in order.
pub open spec fn with_callsign_prefix(list: Seq<Atis>, prefix: Seq<char>) -> Seq<Atis>
    decreases list.len(),
{
    if list.len() == 0 {
        Seq::empty()
    } else {
        let rest = with_callsign_prefix(list.drop_last(), prefix);
        if occurs_at(list.last().callsign@, prefix, 0) {
            rest.push(list.last())
        } else {
            rest
        }
    }
}

/// The letter of the first of `found`, looking from `from` on, whose
/// callsign holds `pat`; a dash where there is none.
pub open spec fn code_of_first_with(found: Seq<Atis>, pat: Seq<char>, from: int) -> Seq<char>
    decreases found.len() - from,
{
    if from < 0 || from >= found.len() {
        seq!['-']
    } else if occurs_in(found[from].callsign@, pat) {
        code_of(found[from])
    } else {
        code_of_first_with(found, pat, from + 1)
    }
}

/// The letter to show for the station `icao_id`: that of its one
/// broadcast; for two, the arrival and the departure letter with a stroke
/// between them; a dash for none or more.
pub open spec fn letter_for(list: Seq<Atis>, icao_id: Seq<char>) -> Seq<char> {
    let found = with_callsign_prefix(list, icao_id);
    if found.len() == 1 {
        code_of(found[0])
    } else if found.len() == 2 {
        code_of_first_with(found, seq!['_', 'A', '_'], 0) + seq!['/'] + code_of_first_with(
            found,
            seq!['_', 'D', '_'],
            0,
        )
    } else {
        seq!['-']
    }
}

/// The broadcasts that a slice of references points to.
pub open spec fn pointed(found: Seq<&Atis>) -> Seq<Atis> {
    Seq::new(found.len(), |i: int| *found[i])
}

fn find_letter_after(text: &Vec<char>, word: &Vec<char>) -> (letter: Option<char>)
    ensures
        letter == letter_after(text@, word@, 0),
{
    let mut at: usize = 0;
    while at < text.len()
        invariant
            at <= text.len(),
            letter_after(text@, word@, 0) == letter_after(text@, word@, at as int),
        decreases text.len() - at,
    {
        if matches_at(text, word, at) && word.len() < text.len() - at {
            let letter = text[at + word.len()];
            if 'A' <= letter && letter <= 'Z' {
                return Some(letter);
            }
        }
        at += 1;
    }
    None
}

/// The information letter that the lines of a broadcast's text name.
pub fn parse_code_from_text(text_lines: &Vec<String>) -> (letter: Option<char>)
    ensures
        letter == code_in_text(text_lines@),
{
    proof {
        reveal_strlit(" ");
        reveal_strlit("INFO ");
        reveal_strlit("INFORMATION ");
        assert(" "@ =~= seq![' ']);
        assert("INFO "@ =~= short_marker());
        assert("INFORMATION "@ =~= long_marker());
    }
    let joined = join(text_lines, " ");
    let text = chars_of(joined.as_str());
    let short = chars_of("INFO ");
    match find_letter_after(&text, &short) {
        Some(letter) => Some(letter),
        None => {
            let long = chars_of("INFORMATION ");
            find_letter_after(&text, &long)
        },
    }
}

fn dash() -> (text: String)
    ensures
        text@ == seq!['-'],
{
    proof {
        reveal_strlit("-");
        assert("-"@ =~= seq!['-']);
    }
    String::from_str("-")
}

/// The letter to show for one broadcast.
pub fn parse_atis_code(atis: &Atis) -> (letter: String)
    ensures
        letter@ == code_of(*atis),
{
    match (&atis.atis_code, &atis.text_atis) {
        (Some(code), Some(text_lines)) => {
            match parse_code_from_text(text_lines) {
                Some(in_text) => {
                    if code.as_str().is_empty() {
                        code.clone()
                    } else {
                        let listed = code.as_str().get_char(0);
                        if in_text as u32 == listed as u32 + 1 {
                            char_to_string(in_text)
                        } else {
                            char_to_string(listed)
                        }
                    }
                },
                None => code.clone(),
            }
        },
        (Some(code), None) => code.clone(),
        (None, Some(text_lines)) => match parse_code_from_text(text_lines) {
            Some(in_text) => char_to_string(in_text),
            None => dash(),
        },
        (None, None) => dash(),
    }
}

/// The letter of the first of `atises` whose callsign holds `pat`; a dash
/// where there is none.
pub fn filter_callsign_and_parse(atises: &[&Atis], pat: &str) -> (letter: String)
    ensures
        letter@ == code_of_first_with(pointed(atises@), pat@, 0),
{
    let mut i: usize = 0;
    while i < atises.len()
        invariant
            i <= atises@.len(),
            code_of_first_with(pointed(atises@), pat@, 0) == code_of_first_with(
                pointed(atises@),
                pat@,
                i as int,
            ),
        decreases atises.len() - i,
    {
        if contains_str(atises[i].callsign.as_str(), pat) {
            return parse_atis_code(atises[i]);
        }
        i += 1;
    }
    dash()
}

/// The letter to show for the station `icao_id`, out of the broadcasts of a snapshot.
pub fn atis_letter(atis: &Vec<Atis>, icao_id: &str) -> (letter: String)
    ensures
        letter@ == letter_for(atis@, icao_id@),
{
    let mut found_atis: Vec<&Atis> = Vec::new();
    let mut i: usize = 0;
    while i < atis.len()
        invariant
            i <= atis.len(),
            pointed(found_atis@) == with_callsign_prefix(atis@.take(i as int), icao_id@),
        decreases atis.len() - i,
    {
        proof {
            let next = atis@.take(i + 1);
            assert(next.drop_last() =~= atis@.take(i as int));
            assert(next.last() == atis@[i as int]);
        }
        let ghost before = found_atis@;
        if starts_with(atis[i].callsign.as_str(), icao_id) {
            found_atis.push(&atis[i]);
            assert(pointed(found_atis@) =~= pointed(before).push(atis@[i as int]));
        }
        i += 1;
    }
    proof {
        assert(atis@.take(atis.len() as int) =~= atis@);
    }
    if found_atis.len() == 1 {
        parse_atis_code(found_atis[0])
    } else if found_atis.len() == 2 {
        proof {
            reveal_strlit("_A_");
            reveal_strlit("_D_");
            reveal_strlit("/");
            assert("_A_"@ =~= seq!['_', 'A', '_']);
            assert("_D_"@ =~= seq!['_', 'D', '_']);
            assert("/"@ =~= seq!['/']);
        }
        let mut letter = filter_callsign_and_parse(found_atis.as_slice(), "_A_");
        let departure = filter_callsign_and_parse(found_atis.as_slice(), "_D_");
        letter.append("/");
        letter.append(departure.as_str());
        letter
    } else {
        dash()
    }
}

/// Whether a snapshot fetched `elapsed_nanos` nanoseconds ago is too old to
/// serve: older than sixty seconds.
pub fn datafeed_is_stale(elapsed_nanos: u128) -> (stale: bool)
    ensures
        stale == (elapsed_nanos > 60_000_000_000),
{
    elapsed_nanos > 60_000_000_000
}

} // verus!

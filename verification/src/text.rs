//! Operations on text that the rest of the crate shares: case, search,
//! joining, and the decimal rendering of whole numbers.

use vstd::prelude::*;
use vstd::string::*;

verus! {

/// The upper-case form of a text, as the standard library computes it.
pub uninterp spec fn uppercase(s: Seq<char>) -> Seq<char>;

/// `str::to_uppercase` of the standard library. Its result depends on the
/// text alone; the contract gives that result the name [`uppercase`] and
/// claims nothing else of it.
pub assume_specification[ str::to_uppercase ](s: &str) -> (upper: String)
    ensures
        upper@ == uppercase(s@),
;

/// `char::to_string` of the standard library: the text of one character.
#[verifier::external_body]
pub(crate) fn char_to_string(c: char) -> (text: String)
    ensures
        text@ == seq![c],
{
    c.to_string()
}

/// The characters of `s`, in order.
pub fn chars_of(s: &str) -> (chars: Vec<char>)
    ensures
        chars@ == s@,
{
    let mut chars: Vec<char> = Vec::new();
    for c in it: s.chars()
        invariant
            it.seq() == s@,
            chars@ == s@.take(it.index()),
    {
        chars.push(c);
    }
    chars
}

/// Whether `s` begins with the character `c`.
pub fn starts_with_char(s: &str, c: char) -> (found: bool)
    ensures
        found == (s@.len() > 0 && s@[0] == c),
{
    !s.is_empty() && s.get_char(0) == c
}

/// Whether the character `c` occurs in `s`.
pub fn contains_char(s: &str, c: char) -> (found: bool)
    ensures
        found == s@.contains(c),
{
    let chars = chars_of(s);
    let mut i: usize = 0;
    while i < chars.len()
        invariant
            chars@ == s@,
            i <= chars.len(),
            forall|j: int| 0 <= j < i ==> s@[j] != c,
        decreases chars.len() - i,
    {
        if chars[i] == c {
            return true;
        }
        i += 1;
    }
    false
}

/// Whether `word` stands in `text` at position `at`.
pub open spec fn occurs_at(text: Seq<char>, word: Seq<char>, at: int) -> bool {
    &&& 0 <= at
    &&& at + word.len() <= text.len()
    &&& text.subrange(at, at + word.len()) == word
}

/// Whether `word` stands somewhere in `text`.
pub open spec fn occurs_in(text: Seq<char>, word: Seq<char>) -> bool {
    exists|at: int| occurs_at(text, word, at)
}

/// Whether `word` stands in `text` at position `at`.
pub fn matches_at(text: &Vec<char>, word: &Vec<char>, at: usize) -> (found: bool)
    ensures
        found == occurs_at(text@, word@, at as int),
{
    if word.len() > text.len() || at > text.len() - word.len() {
        return false;
    }
    let mut k: usize = 0;
    while k < word.len()
        invariant
            at + word.len() <= text.len(),
            k <= word.len(),
            forall|j: int| 0 <= j < k ==> text@[at + j] == word@[j],
        decreases word.len() - k,
    {
        if text[at + k] != word[k] {
            assert(text@.subrange(at as int, at + word.len())[k as int] != word@[k as int]);
            return false;
        }
        k += 1;
    }
    assert(text@.subrange(at as int, at + word.len()) =~= word@);
    true
}

/// Whether `s` begins with `prefix`.
pub fn starts_with(s: &str, prefix: &str) -> (found: bool)
    ensures
        found == occurs_at(s@, prefix@, 0),
{
    let text = chars_of(s);
    let word = chars_of(prefix);
    matches_at(&text, &word, 0)
}

/// Whether `word` stands somewhere in `s`.
pub fn contains_str(s: &str, word: &str) -> (found: bool)
    ensures
        found == occurs_in(s@, word@),
{
    let text = chars_of(s);
    let sought = chars_of(word);
    let mut at: usize = 0;
    while at < text.len()
        invariant
            text@ == s@,
            sought@ == word@,
            at <= text.len(),
            forall|j: int| 0 <= j < at ==> !occurs_at(s@, word@, j),
        decreases text.len() - at,
    {
        if matches_at(&text, &sought, at) {
            return true;
        }
        at += 1;
    }
    matches_at(&text, &sought, at)
}

/// The text of each string of `parts`.
pub open spec fn texts(parts: Seq<String>) -> Seq<Seq<char>> {
    Seq::new(parts.len(), |i: int| parts[i]@)
}

/// The texts of `parts` in order, with `sep` between each two.
pub open spec fn joined(parts: Seq<Seq<char>>, sep: Seq<char>) -> Seq<char>
    decreases parts.len(),
{
    if parts.len() == 0 {
        Seq::empty()
    } else if parts.len() == 1 {
        parts[0]
    } else {
        joined(parts.drop_last(), sep) + sep + parts.last()
    }
}

/// Joins `parts` with `sep` between each two.
pub fn join(parts: &Vec<String>, sep: &str) -> (text: String)
    ensures
        text@ == joined(texts(parts@), sep@),
{
    let mut text = String::new();
    let mut i: usize = 0;
    while i < parts.len()
        invariant
            i <= parts.len(),
            text@ == joined(texts(parts@).take(i as int), sep@),
        decreases parts.len() - i,
    {
        proof {
            let next = texts(parts@).take(i + 1);
            assert(next.drop_last() =~= texts(parts@).take(i as int));
            assert(next.last() == parts@[i as int]@);
            if i == 0 {
                assert(joined(next, sep@) =~= parts@[0]@);
            }
        }
        if i > 0 {
            text.append(sep);
        }
        text.append(parts[i].as_str());
        i += 1;
    }
    proof {
        assert(texts(parts@).take(parts.len() as int) =~= texts(parts@));
    }
    text
}

/// The character of a decimal digit.
pub open spec fn digit_char(d: int) -> char {
    if d == 0 {
        '0'
    } else if d == 1 {
        '1'
    } else if d == 2 {
        '2'
    } else if d == 3 {
        '3'
    } else if d == 4 {
        '4'
    } else if d == 5 {
        '5'
    } else if d == 6 {
        '6'
    } else if d == 7 {
        '7'
    } else if d == 8 {
        '8'
    } else {
        '9'
    }
}

/// The decimal digits of `n`, most significant first; `0` for zero.
pub open spec fn digits(n: nat) -> Seq<char>
    decreases n,
{
    if n < 10 {
        seq![digit_char(n as int)]
    } else {
        digits(n / 10).push(digit_char((n % 10) as int))
    }
}

/// `value` in decimal, filled with zeros after the sign up to `width` characters.
pub open spec fn zero_padded(value: int, width: nat) -> Seq<char> {
    let sign = if value < 0 {
        seq!['-']
    } else {
        Seq::empty()
    };
    let body = digits((if value < 0 {
        -value
    } else {
        value
    }) as nat);
    let fill = if sign.len() + body.len() < width {
        (width - sign.len() - body.len()) as nat
    } else {
        0
    };
    sign + Seq::new(fill, |i: int| '0') + body
}

/// `value` in decimal.
pub open spec fn decimal(value: int) -> Seq<char> {
    zero_padded(value, 0)
}

fn digit_str(d: u32) -> (text: &'static str)
    requires
        d < 10,
    ensures
        text@ == seq![digit_char(d as int)],
{
    proof {
        reveal_strlit("0");
        reveal_strlit("1");
        reveal_strlit("2");
        reveal_strlit("3");
        reveal_strlit("4");
        reveal_strlit("5");
        reveal_strlit("6");
        reveal_strlit("7");
        reveal_strlit("8");
        reveal_strlit("9");
    }
    let text = if d == 0 {
        "0"
    } else if d == 1 {
        "1"
    } else if d == 2 {
        "2"
    } else if d == 3 {
        "3"
    } else if d == 4 {
        "4"
    } else if d == 5 {
        "5"
    } else if d == 6 {
        "6"
    } else if d == 7 {
        "7"
    } else if d == 8 {
        "8"
    } else {
        "9"
    };
    assert(text@ =~= seq![digit_char(d as int)]);
    text
}

fn push_digits(out: &mut String, n: u32)
    ensures
        final(out)@ == old(out)@ + digits(n as nat),
    decreases n,
{
    if n >= 10 {
        push_digits(out, n / 10);
    }
    out.append(digit_str(n % 10));
    assert(final(out)@ =~= old(out)@ + digits(n as nat));
}

fn count_digits(n: u32) -> (count: usize)
    ensures
        count == digits(n as nat).len(),
        1 <= count <= 10,
    decreases n,
{
    if n < 10 {
        1
    } else {
        let rest = count_digits(n / 10);
        assert(n / 10 < 1_000_000_000 ==> digits((n / 10) as nat).len() <= 9) by {
            lemma_digits_len((n / 10) as nat);
        }
        rest + 1
    }
}

/// A number below a power of ten has no more digits than the power has zeros.
proof fn lemma_digits_len(n: nat)
    ensures
        n < 10 ==> digits(n).len() == 1,
        n < 100 ==> digits(n).len() <= 2,
        n < 1_000 ==> digits(n).len() <= 3,
        n < 10_000 ==> digits(n).len() <= 4,
        n < 100_000 ==> digits(n).len() <= 5,
        n < 1_000_000 ==> digits(n).len() <= 6,
        n < 10_000_000 ==> digits(n).len() <= 7,
        n < 100_000_000 ==> digits(n).len() <= 8,
        n < 1_000_000_000 ==> digits(n).len() <= 9,
        n < 10_000_000_000 ==> digits(n).len() <= 10,
    decreases n,
{
    if n >= 10 {
        lemma_digits_len(n / 10);
    }
}

/// Renders `value` in decimal, filled with zeros after the sign up to
/// `width` characters.
pub fn format_padded(value: i32, width: usize) -> (text: String)
    ensures
        text@ == zero_padded(value as int, width as nat),
{
    let mut text = String::new();
    let magnitude: u32 = if value < 0 {
        (0 - value as i64) as u32
    } else {
        value as u32
    };
    let mut used: usize = count_digits(magnitude);
    if value < 0 {
        proof {
            reveal_strlit("-");
        }
        text.append("-");
        used += 1;
    }
    let ghost sign = text@;
    assert(sign =~= if value < 0 {
        seq!['-']
    } else {
        Seq::empty()
    });
    let mut filled: usize = 0;
    while used < width
        invariant
            text@ == sign + Seq::new(filled as nat, |i: int| '0'),
            used == sign.len() + digits(magnitude as nat).len() + filled,
            used <= width || filled == 0,
        decreases width - used,
    {
        proof {
            reveal_strlit("0");
        }
        text.append("0");
        assert(text@ =~= sign + Seq::new((filled + 1) as nat, |i: int| '0'));
        filled += 1;
        used += 1;
    }
    push_digits(&mut text, magnitude);
    text
}

/// Renders `value` in decimal.
pub fn format_decimal(value: i32) -> (text: String)
    ensures
        text@ == decimal(value as int),
{
    format_padded(value, 0)
}

} // verus!

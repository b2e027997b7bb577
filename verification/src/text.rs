//! Conversions between strings and sequences of characters or digits.

use vstd::prelude::*;
use vstd::string::*;

verus! {

/// `String::push` of the standard library: appends one character to the end
/// of the string and leaves the rest as it was.
#[verifier::external_body]
fn push_char(s: &mut String, c: char)
    ensures
        final(s)@ == old(s)@.push(c),
{
    s.push(c)
}

/// The string that holds exactly the given characters, in order.
pub fn string_from_chars(chars: &Vec<char>) -> (s: String)
    ensures
        s@ == chars@,
{
    let mut s = String::new();
    let mut i: usize = 0;
    while i < chars.len()
        invariant
            i <= chars.len(),
            s@ == chars@.take(i as int),
        decreases chars.len() - i,
    {
        push_char(&mut s, chars[i]);
        i = i + 1;
        assert(chars@.take(i as int) == chars@.take(i as int - 1).push(chars@[i as int - 1]));
    }
    assert(chars@.take(chars@.len() as int) == chars@);
    s
}

/// The characters of a string, in order.
pub fn chars_of(s: &str) -> (chars: Vec<char>)
    ensures
        chars@ == s@,
{
    let mut chars: Vec<char> = Vec::new();
    let n = s.unicode_len();
    let mut i: usize = 0;
    while i < n
        invariant
            n == s@.len(),
            i <= n,
            chars@ == s@.take(i as int),
        decreases n - i,
    {
        chars.push(s.get_char(i));
        i = i + 1;
        assert(s@.take(i as int) == s@.take(i as int - 1).push(s@[i as int - 1]));
    }
    assert(s@.take(s@.len() as int) == s@);
    chars
}

/// Whether two strings hold the same characters.
pub fn same_text(a: &str, b: &str) -> (same: bool)
    ensures
        same == (a@ == b@),
{
    let x = a.to_owned();
    let y = b.to_owned();
    x == y
}

/// Whether a result holds the bytes, or the message, that are expected of
/// it.
pub open spec fn bytes_result_is(r: Result<Vec<u8>, String>, expected: Result<Seq<u8>, Seq<char>>) -> bool {
    match expected {
        Ok(bytes) => r matches Ok(v) && v@ == bytes,
        Err(message) => r matches Err(e) && e@ == message,
    }
}

/// The character that writes a digit below ten.
pub open spec fn digit_char(d: nat) -> char {
    if d == 0 {
        '0'
    } else if d == 1 {
        '1'
    } else if d == 2 {
        '2'
    } else if d == 3 {
        '3'
    } else if d == 4 {
        '4'
    } else if d == 5 {
        '5'
    } else if d == 6 {
        '6'
    } else if d == 7 {
        '7'
    } else if d == 8 {
        '8'
    } else {
        '9'
    }
}

/// A natural number written in base ten, without leading zeros.
pub open spec fn decimal(n: nat) -> Seq<char>
    decreases n,
{
    if n < 10 {
        seq![digit_char(n)]
    } else {
        decimal(n / 10).push(digit_char(n % 10))
    }
}

fn digit(d: usize) -> (c: char)
    requires
        d < 10,
    ensures
        c == digit_char(d as nat),
{
    if d == 0 {
        '0'
    } else if d == 1 {
        '1'
    } else if d == 2 {
        '2'
    } else if d == 3 {
        '3'
    } else if d == 4 {
        '4'
    } else if d == 5 {
        '5'
    } else if d == 6 {
        '6'
    } else if d == 7 {
        '7'
    } else if d == 8 {
        '8'
    } else {
        '9'
    }
}

/// Writes a number in base ten.
pub fn decimal_string(n: usize) -> (s: String)
    ensures
        s@ == decimal(n as nat),
{
    // Collect the digits from the least significant one, then emit them in
    // reverse.
    let mut low_first: Vec<char> = Vec::new();
    let mut rest: usize = n;
    while rest >= 10
        invariant
            decimal(n as nat) == decimal(rest as nat) + low_first@.reverse(),
        decreases rest,
    {
        let ghost before = low_first@;
        low_first.push(digit(rest % 10));
        proof {
            let d = digit_char((rest % 10) as nat);
            assert(low_first@.reverse() == seq![d] + before.reverse());
            assert(decimal(rest as nat) == decimal((rest / 10) as nat).push(d));
            assert(decimal((rest / 10) as nat).push(d) + before.reverse() == decimal(
                (rest / 10) as nat,
            ) + (seq![d] + before.reverse()));
        }
        rest = rest / 10;
    }
    let ghost before = low_first@;
    low_first.push(digit(rest));
    proof {
        assert(low_first@.reverse() == seq![digit_char(rest as nat)] + before.reverse());
        assert(decimal(rest as nat) == seq![digit_char(rest as nat)]);
    }
    let mut s = String::new();
    let mut i: usize = low_first.len();
    while i > 0
        invariant
            i <= low_first.len(),
            s@ == low_first@.reverse().take(low_first.len() - i),
        decreases i,
    {
        i = i - 1;
        push_char(&mut s, low_first[i]);
        proof {
            let r = low_first@.reverse();
            let k = low_first.len() - i;
            assert(r.take(k) == r.take(k - 1).push(r[k - 1]));
        }
    }
    assert(low_first@.reverse().take(low_first.len() as int) == low_first@.reverse());
    s
}

/// The message of the standard library for bytes that are not UTF-8; it says
/// where the first fault lies.
pub uninterp spec fn utf8_fault(bytes: Seq<u8>) -> Seq<char>;

/// What decoding bytes as UTF-8 gives: the text, or the decoder's message.
pub open spec fn utf8_text(bytes: Seq<u8>) -> Result<Seq<char>, Seq<char>> {
    if vstd::utf8::valid_utf8(bytes) {
        Ok(vstd::utf8::decode_utf8(bytes))
    } else {
        Err(utf8_fault(bytes))
    }
}

/// `String::from_utf8` of the standard library: the string that the bytes
/// encode if they are well-formed UTF-8, else the error, as its message.
#[verifier::external_body]
pub(crate) fn string_from_utf8(bytes: Vec<u8>) -> (r: Result<String, String>)
    ensures
        match r {
            Ok(s) => vstd::utf8::valid_utf8(bytes@) && s@ == vstd::utf8::decode_utf8(bytes@),
            Err(e) => !vstd::utf8::valid_utf8(bytes@) && e@ == utf8_fault(bytes@),
        },
{
    match String::from_utf8(bytes) {
        Ok(s) => Ok(s),
        Err(e) => Err(e.to_string()),
    }
}

/// The number of characters before the first line feed, or the length of
/// the text if it has none.
pub open spec fn line_end(text: Seq<char>) -> nat
    decreases text.len(),
{
    if text.len() == 0 || text[0] == '\n' {
        0
    } else {
        1 + line_end(text.drop_first())
    }
}

/// A line without the carriage return at its end, if it has one.
pub open spec fn without_return(line: Seq<char>) -> Seq<char> {
    if line.len() > 0 && line.last() == '\r' {
        line.drop_last()
    } else {
        line
    }
}

/// The lines of a text. A line ends at a line feed, or at a carriage return
/// followed by a line feed, neither of which belongs to it; what follows the
/// last line feed is a line only if it is not empty.
pub open spec fn lines_of(text: Seq<char>) -> Seq<Seq<char>>
    decreases text.len(),
{
    if text.len() == 0 {
        Seq::empty()
    } else {
        let end = line_end(text);
        if end >= text.len() {
            seq![text]
        } else {
            seq![without_return(text.take(end as int))] + lines_of(text.skip(end as int + 1))
        }
    }
}

/// Where a text has its first line feed after `k` other characters, its
/// first line ends there.
proof fn lemma_line_end(text: Seq<char>, k: int)
    requires
        0 <= k <= text.len(),
        forall|i: int| 0 <= i < k ==> text[i] != '\n',
        k < text.len() ==> text[k] == '\n',
    ensures
        line_end(text) == k,
    decreases k,
{
    if k > 0 {
        let rest = text.drop_first();
        assert forall|i: int| 0 <= i < k - 1 implies rest[i] != '\n' by {
            assert(rest[i] == text[i + 1]);
        }
        lemma_line_end(rest, k - 1);
    }
}

/// Splits a text into its lines.
pub fn split_lines(text: &str) -> (lines: Vec<String>)
    ensures
        lines@.map_values(|s: String| s@) == lines_of(text@),
{
    let chars = chars_of(text);
    let mut lines: Vec<String> = Vec::new();
    let mut start: usize = 0;
    let mut i: usize = 0;
    assert(chars@.skip(0) == chars@);
    while i < chars.len()
        invariant
            start <= i <= chars.len(),
            chars@ == text@,
            forall|j: int| start <= j < i ==> chars@[j] != '\n',
            lines_of(chars@) == lines@.map_values(|s: String| s@) + lines_of(
                chars@.skip(start as int),
            ),
        decreases chars.len() - i,
    {
        if chars[i] == '\n' {
            let mut end: usize = i;
            if end > start && chars[end - 1] == '\r' {
                end = end - 1;
            }
            let mut line: Vec<char> = Vec::new();
            let mut k: usize = start;
            while k < end
                invariant
                    start <= k <= end <= chars.len(),
                    line@ == chars@.subrange(start as int, k as int),
                decreases end - k,
            {
                line.push(chars[k]);
                k = k + 1;
                assert(line@ =~= chars@.subrange(start as int, k as int));
            }
            let made = string_from_chars(&line);
            proof {
                let rest = chars@.skip(start as int);
                let len = i - start;
                assert forall|j: int| 0 <= j < len implies rest[j] != '\n' by {
                    assert(rest[j] == chars@[start + j]);
                }
                lemma_line_end(rest, len);
                assert(rest.take(len) =~= chars@.subrange(start as int, i as int));
                assert(made@ =~= without_return(rest.take(len)));
                assert(rest.skip(len + 1) =~= chars@.skip(i + 1));
                let before = lines@.map_values(|s: String| s@);
                assert(lines@.push(made).map_values(|s: String| s@) =~= before.push(made@));
                assert(before + (seq![made@] + lines_of(chars@.skip(i + 1))) =~= before.push(
                    made@,
                ) + lines_of(chars@.skip(i + 1)));
            }
            lines.push(made);
            start = i + 1;
        }
        i = i + 1;
    }
    if start < chars.len() {
        let mut line: Vec<char> = Vec::new();
        let mut k: usize = start;
        while k < chars.len()
            invariant
                start <= k <= chars.len(),
                line@ == chars@.subrange(start as int, k as int),
            decreases chars.len() - k,
        {
            line.push(chars[k]);
            k = k + 1;
            assert(line@ =~= chars@.subrange(start as int, k as int));
        }
        let made = string_from_chars(&line);
        proof {
            let rest = chars@.skip(start as int);
            assert forall|j: int| 0 <= j < rest.len() implies rest[j] != '\n' by {
                assert(rest[j] == chars@[start + j]);
            }
            lemma_line_end(rest, rest.len() as int);
            assert(made@ =~= rest);
            let before = lines@.map_values(|s: String| s@);
            assert(lines@.push(made).map_values(|s: String| s@) =~= before.push(made@));
            assert(before + seq![rest] =~= before.push(made@));
        }
        lines.push(made);
    } else {
        assert(chars@.skip(start as int).len() == 0);
        assert(lines@.map_values(|s: String| s@) + Seq::<Seq<char>>::empty()
            =~= lines@.map_values(|s: String| s@));
    }
    lines
}

} // verus!

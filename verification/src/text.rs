//! Small operations on text that the logging facility is built from.

use vstd::prelude::*;

verus! {

/// Whether two strings hold the same characters.
pub fn str_eq(a: &str, b: &str) -> (same: bool)
    ensures
        same == (a@ == b@),
{
    let a = a.to_owned();
    let b = b.to_owned();
    a == b
}

/// The length of a string in bytes.
pub fn byte_len(text: &str) -> (len: usize)
    ensures
        len == vstd::utf8::encode_utf8(text@).len(),
{
    text.as_bytes().len()
}

/// The decimal digits of `n`, most significant first, as ASCII bytes. Zero
/// is the single digit 0.
pub open spec fn decimal(n: nat) -> Seq<u8>
    decreases n,
{
    if n < 10 {
        seq![(48 + n) as u8]
    } else {
        decimal(n / 10).push((48 + n % 10) as u8)
    }
}

/// A number below 2^32 has at most ten decimal digits.
pub proof fn lemma_decimal_len(n: nat)
    ensures
        1 <= decimal(n).len(),
        n < 10 ==> decimal(n).len() == 1,
        n <= u32::MAX ==> decimal(n).len() <= 10,
    decreases n,
{
    reveal_with_fuel(decimal, 11);
    if n >= 10 {
        lemma_decimal_len(n / 10);
    }
}

/// The decimal digits of `n`, most significant first, as ASCII bytes.
pub fn decimal_digits(n: u32) -> (digits: Vec<u8>)
    ensures
        digits@ == decimal(n as nat),
{
    // collect the digits least significant first, then turn them round
    let mut reversed: Vec<u8> = Vec::new();
    let mut rest: u32 = n;
    while rest >= 10
        invariant
            decimal(n as nat) =~= decimal(rest as nat) + reversed@.reverse(),
        decreases rest,
    {
        let digit: u8 = (48 + rest % 10) as u8;
        proof {
            let longer = reversed@.push(digit);
            assert(longer.reverse() =~= seq![digit] + reversed@.reverse());
            assert(decimal(rest as nat) =~= decimal((rest / 10) as nat).push(digit));
        }
        reversed.push(digit);
        rest = rest / 10;
    }
    reversed.push((48 + rest) as u8);
    let mut digits: Vec<u8> = Vec::new();
    let mut i: usize = reversed.len();
    proof {
        let all = reversed@;
        assert(all.reverse() =~= seq![all.last()] + all.drop_last().reverse());
        assert(decimal(rest as nat) =~= seq![all.last()]);
    }
    while i > 0
        invariant
            0 <= i <= reversed.len(),
            digits@ =~= reversed@.reverse().take(reversed.len() - i),
        decreases i,
    {
        i -= 1;
        digits.push(reversed[i]);
    }
    assert(reversed@.reverse().take(reversed.len() as int) =~= reversed@.reverse());
    digits
}

/// The number of bytes of `text` before its first line feed, or all of them
/// where it has none.
pub open spec fn line_len(text: Seq<u8>) -> int
    decreases text.len(),
{
    if text.len() == 0 || text[0] == 10 {
        0
    } else {
        1 + line_len(text.skip(1))
    }
}

/// A line without the carriage return that ends it, if one does.
pub open spec fn strip_cr(line: Seq<u8>) -> Seq<u8> {
    if line.len() > 0 && line.last() == 13 {
        line.drop_last()
    } else {
        line
    }
}

/// The lines of `text`. A line ends at a line feed, or at a carriage return
/// followed by a line feed; neither is part of the line. What follows the
/// last line feed is a line only if it is not empty, and is returned as it
/// is.
pub open spec fn lines(text: Seq<u8>) -> Seq<Seq<u8>>
    decreases text.len(),
{
    if text.len() == 0 {
        Seq::empty()
    } else if line_len(text) == text.len() {
        seq![text]
    } else if 0 <= line_len(text) < text.len() {
        seq![strip_cr(text.take(line_len(text)))] + lines(text.skip(line_len(text) + 1))
    } else {
        Seq::empty()
    }
}

/// The first line of a text ends within the text, at a line feed if before
/// the end.
pub proof fn lemma_line_len(text: Seq<u8>)
    ensures
        0 <= line_len(text) <= text.len(),
        line_len(text) < text.len() ==> text[line_len(text)] == 10,
        forall|i: int| 0 <= i < line_len(text) ==> text[i] != 10,
    decreases text.len(),
{
    if text.len() == 0 || text[0] == 10 {
    } else {
        let rest = text.skip(1);
        lemma_line_len(rest);
        assert forall|i: int| 0 <= i < line_len(text) implies text[i] != 10 by {
            if i > 0 {
                assert(rest[i - 1] == text[i]);
            }
        }
        if line_len(text) < text.len() {
            assert(rest[line_len(rest)] == text[line_len(text)]);
        }
    }
}

/// The first position without a line feed before it is where the first
/// line ends.
pub proof fn lemma_line_len_is(text: Seq<u8>, end: int)
    requires
        0 <= end <= text.len(),
        forall|i: int| 0 <= i < end ==> text[i] != 10,
        end < text.len() ==> text[end] == 10,
    ensures
        line_len(text) == end,
{
    lemma_line_len(text);
    if line_len(text) < end {
        assert(text[line_len(text)] == 10);
    }
}

/// The position of the last line feed of `text`, if it has one.
pub open spec fn last_line_feed(text: Seq<u8>) -> Option<int> {
    if exists|i: int| 0 <= i < text.len() && text[i] == 10 {
        Some(
            choose|i: int|
                0 <= i < text.len() && text[i] == 10 && forall|j: int|
                    i < j < text.len() ==> text[j] != 10,
        )
    } else {
        None
    }
}

/// The position of the last line feed of `text`, if it has one.
pub fn find_last_line_feed(text: &Vec<u8>) -> (found: Option<usize>)
    ensures
        match found {
            Some(i) => last_line_feed(text@) == Some(i as int) && i < text@.len() && text@[i as int]
                == 10 && forall|j: int| i < j < text@.len() ==> text@[j] != 10,
            None => last_line_feed(text@) is None && forall|j: int|
                0 <= j < text@.len() ==> text@[j] != 10,
        },
{
    let mut i: usize = text.len();
    while i > 0
        invariant
            0 <= i <= text.len(),
            forall|j: int| i <= j < text@.len() ==> text@[j] != 10,
        decreases i,
    {
        i -= 1;
        if text[i] == 10 {
            proof {
                let chosen = choose|k: int|
                    0 <= k < text@.len() && text@[k] == 10 && forall|j: int|
                        k < j < text@.len() ==> text@[j] != 10;
                assert(0 <= chosen < text@.len() && text@[chosen] == 10 && forall|j: int|
                    chosen < j < text@.len() ==> text@[j] != 10);
                if chosen < i {
                    assert(text@[i as int] != 10);
                }
                if chosen > i {
                    assert(text@[chosen] != 10);
                }
            }
            return Some(i);
        }
    }
    None
}

/// What a vector of byte strings holds.
pub open spec fn byte_strings(strings: Seq<Vec<u8>>) -> Seq<Seq<u8>> {
    strings.map_values(|s: Vec<u8>| s@)
}

/// The lines of `text`, see [`lines`].
pub fn split_lines(text: &[u8]) -> (result: Vec<Vec<u8>>)
    ensures
        byte_strings(result@) == lines(text@),
{
    let mut result: Vec<Vec<u8>> = Vec::new();
    let mut start: usize = 0;
    assert(text@.skip(0) =~= text@);
    assert(byte_strings(result@) =~= Seq::<Seq<u8>>::empty());
    while start < text.len()
        invariant
            0 <= start <= text.len(),
            lines(text@) =~= byte_strings(result@) + lines(text@.skip(start as int)),
        decreases text.len() - start,
    {
        let ghost rest = text@.skip(start as int);
        let ghost done = byte_strings(result@);
        let mut end: usize = start;
        while end < text.len() && text[end] != 10
            invariant
                start <= end <= text.len(),
                forall|i: int| start <= i < end ==> text@[i] != 10,
            decreases text.len() - end,
        {
            end += 1;
        }
        proof {
            assert forall|i: int| 0 <= i < end - start implies rest[i] != 10 by {
                assert(rest[i] == text@[start + i]);
            }
            lemma_line_len_is(rest, end - start);
        }
        let mut line: Vec<u8> = Vec::new();
        let mut stop: usize = end;
        if end < text.len() && end > start && text[end - 1] == 13 {
            stop = end - 1;
        }
        let mut i: usize = start;
        while i < stop
            invariant
                start <= i <= stop <= text.len(),
                line@ =~= text@.subrange(start as int, i as int),
            decreases stop - i,
        {
            line.push(text[i]);
            i += 1;
        }
        proof {
            let whole = rest.take(end - start);
            assert(whole =~= text@.subrange(start as int, end as int));
            if end < text.len() {
                assert(line@ =~= strip_cr(whole));
                assert(text@.skip(start as int).skip(end - start + 1) =~= text@.skip(end + 1));
                assert(lines(rest) =~= seq![line@] + lines(text@.skip(end + 1)));
            } else {
                assert(whole =~= rest);
                assert(line@ =~= rest);
                assert(lines(rest) =~= seq![line@]);
                assert(text@.skip(text@.len() as int) =~= Seq::<u8>::empty());
            }
        }
        result.push(line);
        assert(byte_strings(result@) =~= done.push(line@));
        if end < text.len() {
            start = end + 1;
        } else {
            start = end;
        }
    }
    assert(lines(text@.skip(text@.len() as int)) =~= Seq::<Seq<u8>>::empty());
    result
}

/// The character for a hexadecimal digit, in lower case.
pub open spec fn hex_digit(d: nat) -> char {
    if d == 0 {
        '0'
    } else if d == 1 {
        '1'
    } else if d == 2 {
        '2'
    } else if d == 3 {
        '3'
    } else if d == 4 {
        '4'
    } else if d == 5 {
        '5'
    } else if d == 6 {
        '6'
    } else if d == 7 {
        '7'
    } else if d == 8 {
        '8'
    } else if d == 9 {
        '9'
    } else if d == 10 {
        'a'
    } else if d == 11 {
        'b'
    } else if d == 12 {
        'c'
    } else if d == 13 {
        'd'
    } else if d == 14 {
        'e'
    } else {
        'f'
    }
}

/// The hexadecimal digits of `n`, most significant first, in lower case and
/// without a prefix. Zero is the single digit 0.
pub open spec fn hex(n: nat) -> Seq<char>
    decreases n,
{
    if n < 16 {
        seq![hex_digit(n)]
    } else {
        hex(n / 16).push(hex_digit(n % 16))
    }
}

/// The text of one hexadecimal digit.
fn hex_digit_text(d: u8) -> (text: &'static str)
    requires
        d < 16,
    ensures
        text@ == seq![hex_digit(d as nat)],
{
    proof {
        reveal_strlit("0");
        reveal_strlit("1");
        reveal_strlit("2");
        reveal_strlit("3");
        reveal_strlit("4");
        reveal_strlit("5");
        reveal_strlit("6");
        reveal_strlit("7");
        reveal_strlit("8");
        reveal_strlit("9");
        reveal_strlit("a");
        reveal_strlit("b");
        reveal_strlit("c");
        reveal_strlit("d");
        reveal_strlit("e");
        reveal_strlit("f");
    }
    let text = if d == 0 {
        "0"
    } else if d == 1 {
        "1"
    } else if d == 2 {
        "2"
    } else if d == 3 {
        "3"
    } else if d == 4 {
        "4"
    } else if d == 5 {
        "5"
    } else if d == 6 {
        "6"
    } else if d == 7 {
        "7"
    } else if d == 8 {
        "8"
    } else if d == 9 {
        "9"
    } else if d == 10 {
        "a"
    } else if d == 11 {
        "b"
    } else if d == 12 {
        "c"
    } else if d == 13 {
        "d"
    } else if d == 14 {
        "e"
    } else {
        "f"
    };
    assert(text@ =~= seq![hex_digit(d as nat)]);
    text
}

/// `prefix` followed by the hexadecimal digits of `n`.
pub fn with_hex_suffix(prefix: &str, n: u64) -> (text: String)
    ensures
        text@ == prefix@ + hex(n as nat),
{
    // collect the digits least significant first, then append them in turn
    let mut reversed: Vec<u8> = Vec::new();
    let mut rest: u64 = n;
    let ghost mut tail: Seq<char> = Seq::empty();
    while rest >= 16
        invariant
            hex(n as nat) =~= hex(rest as nat) + tail,
            tail.len() == reversed@.len(),
            forall|k: int|
                0 <= k < reversed@.len() ==> reversed@[k] < 16 && tail[tail.len() - 1 - k]
                    == hex_digit(#[trigger] reversed@[k] as nat),
        decreases rest,
    {
        let digit: u8 = (rest % 16) as u8;
        proof {
            assert(hex(rest as nat) =~= hex((rest / 16) as nat).push(hex_digit(digit as nat)));
            tail = seq![hex_digit(digit as nat)] + tail;
        }
        reversed.push(digit);
        rest = rest / 16;
    }
    let mut text = prefix.to_owned();
    text.append(hex_digit_text(rest as u8));
    let mut i: usize = reversed.len();
    while i > 0
        invariant
            0 <= i <= reversed.len(),
            tail.len() == reversed@.len(),
            forall|k: int|
                0 <= k < reversed@.len() ==> reversed@[k] < 16 && tail[tail.len() - 1 - k]
                    == hex_digit(#[trigger] reversed@[k] as nat),
            text@ =~= prefix@ + hex(rest as nat) + tail.take(reversed.len() - i),
            rest < 16,
        decreases i,
    {
        i -= 1;
        let ghost before = text@;
        text.append(hex_digit_text(reversed[i]));
        proof {
            let done = reversed.len() - i - 1;
            assert(tail[done] == hex_digit(reversed@[i as int] as nat));
            assert(tail.take(done + 1) =~= tail.take(done).push(tail[done]));
        }
    }
    assert(tail.take(reversed.len() as int) =~= tail);
    text
}

} // verus!
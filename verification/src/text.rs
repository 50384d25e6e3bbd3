//! Character and byte arithmetic on UTF-8 lines.

use vstd::prelude::*;
use vstd::string::*;
use vstd::utf8::*;

verus! {

/// Number of bytes that `c` takes in UTF-8.
pub open spec fn utf8_width(c: char) -> nat {
    encode_scalar(c as u32).len()
}

/// Byte position at which character `k` of `s` starts in the UTF-8 encoding of `s`.
pub open spec fn byte_offset(s: Seq<char>, k: int) -> nat {
    encode_utf8(s.take(k)).len()
}

/// The smaller of two indices.
pub open spec fn min_int(a: int, b: int) -> int {
    if a <= b {
        a
    } else {
        b
    }
}

/// Encoding distributes over concatenation.
pub proof fn lemma_encode_concat(a: Seq<char>, b: Seq<char>)
    ensures
        encode_utf8(a + b) == encode_utf8(a) + encode_utf8(b),
    decreases a.len(),
{
    if a.len() > 0 {
        lemma_encode_concat(a.drop_first(), b);
        assert((a + b).drop_first() == a.drop_first() + b);
    }
}

/// Every character takes between one and four bytes.
pub proof fn lemma_width_bounds(c: char)
    ensures
        1 <= utf8_width(c) <= 4,
{
}

/// The offset of the next character is the offset of this one plus its width.
pub proof fn lemma_offset_step(s: Seq<char>, k: int)
    requires
        0 <= k < s.len(),
    ensures
        byte_offset(s, k + 1) == byte_offset(s, k) + utf8_width(s[k]),
{
    let one = seq![s[k]];
    assert(s.take(k + 1) == s.take(k) + one);
    lemma_encode_concat(s.take(k), one);
    assert(encode_utf8(one) == encode_scalar(s[k] as u32)) by {
        reveal_with_fuel(encode_utf8, 2);
    }
}

/// Offsets grow strictly with the character index.
pub proof fn lemma_offset_increasing(s: Seq<char>, i: int, j: int)
    requires
        0 <= i < j <= s.len(),
    ensures
        byte_offset(s, i) < byte_offset(s, j),
    decreases j - i,
{
    lemma_offset_step(s, j - 1);
    if i < j - 1 {
        lemma_offset_increasing(s, i, j - 1);
    }
}

/// Number of bytes that `c` takes in UTF-8.
pub fn width_of(c: char) -> (w: usize)
    ensures
        w == utf8_width(c),
        1 <= w <= 4,
{
    let v: u32 = c as u32;
    if v < 0x80 {
        1
    } else if v < 0x800 {
        2
    } else if v < 0x10000 {
        3
    } else {
        4
    }
}

/// Byte position of character `i` of `string`, or the byte length of `string`
/// where it has no more than `i` characters. The scan is linear in the length
/// of the line.
pub fn get_byte_i(string: &str, i: usize) -> (b: usize)
    ensures
        b == byte_offset(string@, min_int(i as int, string@.len() as int)),
{
    // the length in bytes, which no offset exceeds
    let total: usize = string.as_bytes().len();
    let mut b: usize = 0;
    let mut k: usize = 0;
    proof {
        assert(string@.take(string@.len() as int) == string@);
    }
    for c in it: string.chars()
        invariant
            it.seq() == string@,
            total == byte_offset(string@, string@.len() as int),
            k == min_int(i as int, it.index() as int),
            b == byte_offset(string@, k as int),
    {
        if k < i {
            proof {
                lemma_offset_step(string@, k as int);
                if k + 1 < string@.len() {
                    lemma_offset_increasing(string@, k + 1, string@.len() as int);
                }
            }
            b = b + width_of(c);
            k = k + 1;
        }
    }
    b
}

/// What `char::is_whitespace` answers for `c`: whether `c` has the Unicode
/// property `White_Space`.
pub uninterp spec fn is_whitespace(c: char) -> bool;

/// Calls `char::is_whitespace`, which depends on the character alone; its
/// answer is the one named by [`is_whitespace`].
#[verifier::external_body]
pub(crate) fn char_is_whitespace(c: char) -> (b: bool)
    ensures
        b == is_whitespace(c),
{
    c.is_whitespace()
}

/// Calls `String::insert`, which takes a byte position on a character
/// boundary and puts `ch` there: the characters before the position stay,
/// then comes `ch`, then the characters from the position on.
#[verifier::external_body]
pub(crate) fn string_insert(s: &mut String, idx: usize, ch: char)
    requires
        exists|k: int| 0 <= k <= old(s)@.len() && byte_offset(old(s)@, k) == idx,
    ensures
        forall|k: int|
            0 <= k <= old(s)@.len() && #[trigger] byte_offset(old(s)@, k) == idx ==> final(s)@
                == old(s)@.insert(k, ch),
{
    s.insert(idx, ch)
}

/// Calls `String::insert_str`, which takes a byte position on a character
/// boundary and puts the characters of `text` there, in their order.
#[verifier::external_body]
pub(crate) fn string_insert_str(s: &mut String, idx: usize, text: &str)
    requires
        exists|k: int| 0 <= k <= old(s)@.len() && byte_offset(old(s)@, k) == idx,
    ensures
        forall|k: int|
            0 <= k <= old(s)@.len() && #[trigger] byte_offset(old(s)@, k) == idx ==> final(s)@
                == old(s)@.take(k) + text@ + old(s)@.skip(k),
{
    s.insert_str(idx, text)
}

/// Calls `String::remove`, which takes the byte position at which a
/// character starts, takes that character out and returns it.
#[verifier::external_body]
pub(crate) fn string_remove(s: &mut String, idx: usize) -> (ch: char)
    requires
        exists|k: int| 0 <= k < old(s)@.len() && byte_offset(old(s)@, k) == idx,
    ensures
        forall|k: int|
            0 <= k < old(s)@.len() && #[trigger] byte_offset(old(s)@, k) == idx ==> final(s)@
                == old(s)@.remove(k) && ch == old(s)@[k],
{
    s.remove(idx)
}

/// Puts `c` before character `k` of `line`, or at its end where the line has
/// no more than `k` characters. Returns the number of characters that the
/// line then has.
pub fn insert_char(line: &mut String, k: usize, c: char) -> (n: usize)
    ensures
        final(line)@ == old(line)@.insert(min_int(k as int, old(line)@.len() as int), c),
        n == final(line)@.len(),
{
    let b = get_byte_i(line.as_str(), k);
    string_insert(line, b, c);
    line.as_str().unicode_len()
}

/// Puts the characters of `text` before character `k` of `line`, or at its
/// end where the line has no more than `k` characters. Returns the number of
/// characters that the line then has.
pub fn insert_text(line: &mut String, k: usize, text: &str) -> (n: usize)
    ensures
        final(line)@ == ({
            let at = min_int(k as int, old(line)@.len() as int);
            old(line)@.take(at) + text@ + old(line)@.skip(at)
        }),
        n == final(line)@.len(),
{
    let b = get_byte_i(line.as_str(), k);
    string_insert_str(line, b, text);
    line.as_str().unicode_len()
}

/// Takes character `k` out of `line` and returns it; a line with no more
/// than `k` characters stays as it is.
pub fn remove_char(line: &mut String, k: usize) -> (removed: Option<char>)
    ensures
        k < old(line)@.len() ==> removed == Some(old(line)@[k as int]) && final(line)@ == old(
            line,
        )@.remove(k as int),
        k >= old(line)@.len() ==> removed.is_none() && final(line)@ == old(line)@,
{
    let n = line.as_str().unicode_len();
    if k < n {
        let b = get_byte_i(line.as_str(), k);
        Some(string_remove(line, b))
    } else {
        None
    }
}

/// A run of `n` spaces.
pub open spec fn blanks(n: nat) -> Seq<char> {
    Seq::new(n, |i: int| ' ')
}

/// A line of `n` spaces.
pub fn spaces(n: usize) -> (s: String)
    ensures
        s@ == blanks(n as nat),
{
    let mut s = String::new();
    let mut i: usize = 0;
    proof {
        reveal_strlit(" ");
    }
    while i < n
        invariant
            i <= n,
            s@ == blanks(i as nat),
            " "@ == seq![' '],
        decreases n - i,
    {
        s.append(" ");
        i = i + 1;
    }
    s
}

/// Whether every character of `s` is whitespace: what is left of such a line
/// after trimming is empty.
pub open spec fn is_blank(s: Seq<char>) -> bool {
    forall|i: int| 0 <= i < s.len() ==> is_whitespace(#[trigger] s[i])
}

/// Whether `s` holds nothing but whitespace.
pub fn blank(s: &str) -> (b: bool)
    ensures
        b == is_blank(s@),
{
    let mut all = true;
    for c in it: s.chars()
        invariant
            it.seq() == s@,
            all == is_blank(s@.take(it.index() as int)),
    {
        let w = char_is_whitespace(c);
        proof {
            let i = it.index() as int;
            let after = s@.take(i + 1);
            assert(after[i] == c);
        }
        all = all && w;
    }
    proof {
        assert(s@.take(s@.len() as int) == s@);
    }
    all
}

/// Number of whitespace characters at the start of `s`.
pub open spec fn leading_blanks(s: Seq<char>) -> nat
    decreases s.len(),
{
    if s.len() > 0 && is_whitespace(s[0]) {
        1 + leading_blanks(s.drop_first())
    } else {
        0
    }
}

/// A prefix of whitespace followed by another character, or by the end,
/// is the leading whitespace.
pub proof fn lemma_leading_blanks_is(s: Seq<char>, n: int)
    requires
        0 <= n <= s.len(),
        is_blank(s.take(n)),
        n < s.len() ==> !is_whitespace(s[n]),
    ensures
        leading_blanks(s) == n,
    decreases s.len(),
{
    if n > 0 {
        assert(s.take(n)[0] == s[0]);
        let t = s.drop_first();
        assert forall|i: int| 0 <= i < n - 1 implies is_whitespace(#[trigger] t.take(n - 1)[i]) by {
            assert(t.take(n - 1)[i] == s.take(n)[i + 1]);
        }
        lemma_leading_blanks_is(t, n - 1);
    }
}

/// Number of bytes that the whitespace at the start of `s` takes.
pub fn leading_blank_bytes(s: &str) -> (b: usize)
    ensures
        b == byte_offset(s@, leading_blanks(s@) as int),
{
    // the length in bytes, which no offset exceeds
    let total: usize = s.as_bytes().len();
    let mut b: usize = 0;
    let mut open = true;
    let ghost mut k: int = 0;
    proof {
        assert(s@.take(s@.len() as int) == s@);
    }
    for c in it: s.chars()
        invariant
            it.seq() == s@,
            total == byte_offset(s@, s@.len() as int),
            0 <= k <= it.index(),
            open ==> k == it.index(),
            is_blank(s@.take(k)),
            !open ==> !is_whitespace(s@[k]),
            b == byte_offset(s@, k),
    {
        if open {
            if char_is_whitespace(c) {
                proof {
                    lemma_offset_step(s@, k);
                    if k + 1 < s@.len() {
                        lemma_offset_increasing(s@, k + 1, s@.len() as int);
                    }
                    k = k + 1;
                }
                b = b + width_of(c);
            } else {
                open = false;
            }
        }
    }
    proof {
        lemma_leading_blanks_is(s@, k);
    }
    b
}

/// The lines of `lines`, each as its characters.
pub open spec fn lines_view(lines: Seq<String>) -> Seq<Seq<char>> {
    Seq::new(lines.len(), |i: int| lines[i]@)
}

/// A copy of `lines`.
pub fn clone_lines(lines: &Vec<String>) -> (copy: Vec<String>)
    ensures
        copy.deep_view() == lines.deep_view(),
{
    let mut copy: Vec<String> = Vec::new();
    let mut i: usize = 0;
    while i < lines.len()
        invariant
            i <= lines.len(),
            copy.deep_view() == lines.deep_view().take(i as int),
        decreases lines.len() - i,
    {
        let ghost before = copy.deep_view();
        let line = lines[i].clone();
        copy.push(line);
        i = i + 1;
        assert(copy.deep_view() == before.push(line@));
    }
    copy
}

/// `lines` with a line feed between each two of them.
pub open spec fn joined(lines: Seq<Seq<char>>) -> Seq<char>
    decreases lines.len(),
{
    if lines.len() == 0 {
        Seq::empty()
    } else if lines.len() == 1 {
        lines[0]
    } else {
        joined(lines.drop_last()) + seq!['\n'] + lines.last()
    }
}

/// The text of a command: its lines with a line feed between each two of
/// them.
pub fn join_lines(lines: &Vec<String>) -> (text: String)
    ensures
        text@ == joined(lines.deep_view()),
{
    let mut text = String::new();
    let mut i: usize = 0;
    proof {
        reveal_strlit("\n");
    }
    while i < lines.len()
        invariant
            i <= lines.len(),
            text@ == joined(lines.deep_view().take(i as int)),
            "\n"@ == seq!['\n'],
        decreases lines.len() - i,
    {
        proof {
            let now = lines.deep_view().take(i as int);
            let next = lines.deep_view().take(i + 1);
            assert(next.drop_last() == now);
        }
        if i > 0 {
            text.append("\n");
        }
        text.append(lines[i].as_str());
        i = i + 1;
    }
    assert(lines.deep_view().take(i as int) == lines.deep_view());
    text
}

/// The decimal digit for `d`.
pub open spec fn digit(d: nat) -> char {
    if d == 0 {
        '0'
    } else if d == 1 {
        '1'
    } else if d == 2 {
        '2'
    } else if d == 3 {
        '3'
    } else if d == 4 {
        '4'
    } else if d == 5 {
        '5'
    } else if d == 6 {
        '6'
    } else if d == 7 {
        '7'
    } else if d == 8 {
        '8'
    } else {
        '9'
    }
}

/// `n` written in decimal digits.
pub open spec fn decimal(n: nat) -> Seq<char>
    decreases n,
{
    if n < 10 {
        seq![digit(n)]
    } else {
        decimal(n / 10).push(digit(n % 10))
    }
}

/// The one-character text of the decimal digit `d`.
fn digit_text(d: usize) -> (text: &'static str)
    requires
        d < 10,
    ensures
        text@ == seq![digit(d as nat)],
{
    proof {
        reveal_strlit("0");
        reveal_strlit("1");
        reveal_strlit("2");
        reveal_strlit("3");
        reveal_strlit("4");
        reveal_strlit("5");
        reveal_strlit("6");
        reveal_strlit("7");
        reveal_strlit("8");
        reveal_strlit("9");
    }
    if d == 0 {
        "0"
    } else if d == 1 {
        "1"
    } else if d == 2 {
        "2"
    } else if d == 3 {
        "3"
    } else if d == 4 {
        "4"
    } else if d == 5 {
        "5"
    } else if d == 6 {
        "6"
    } else if d == 7 {
        "7"
    } else if d == 8 {
        "8"
    } else {
        "9"
    }
}

/// `n` written in decimal digits.
pub fn decimal_text(n: usize) -> (text: String)
    ensures
        text@ == decimal(n as nat),
    decreases n,
{
    if n < 10 {
        String::from_str(digit_text(n))
    } else {
        let mut text = decimal_text(n / 10);
        text.append(digit_text(n % 10));
        text
    }
}

/// A number of machine size has at most twenty decimal digits.
pub proof fn lemma_decimal_len(n: nat)
    ensures
        1 <= decimal(n).len(),
        n <= usize::MAX ==> decimal(n).len() <= 20,
{
    reveal_with_fuel(decimal, 21);
}

} // verus!

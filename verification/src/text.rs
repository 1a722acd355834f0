//! Numbers, lines and answers as text.

use vstd::prelude::*;
use vstd::string::{StrSliceExecFns, StringExecFns};

verus! {

/// The decimal digit `d`.
pub open spec fn digit(d: nat) -> char {
    (48 + d) as char
}

/// `n` in decimal, without leading zeros.
pub open spec fn decimal(n: nat) -> Seq<char>
    decreases n,
{
    if n < 10 {
        seq![digit(n)]
    } else {
        decimal(n / 10).push(digit(n % 10))
    }
}

/// Puts one digit behind `s`.
fn append_digit(s: &mut String, d: u16)
    requires
        d < 10,
    ensures
        final(s)@ == old(s)@.push(digit(d as nat)),
{
    let text = match d {
        0 => "0",
        1 => "1",
        2 => "2",
        3 => "3",
        4 => "4",
        5 => "5",
        6 => "6",
        7 => "7",
        8 => "8",
        _ => "9",
    };
    proof {
        reveal_strlit("0");
        reveal_strlit("1");
        reveal_strlit("2");
        reveal_strlit("3");
        reveal_strlit("4");
        reveal_strlit("5");
        reveal_strlit("6");
        reveal_strlit("7");
        reveal_strlit("8");
        reveal_strlit("9");
    }
    assert(text@ =~= seq![digit(d as nat)]);
    s.append(text);
    assert(s@ =~= old(s)@.push(digit(d as nat)));
}

/// Puts `n` in decimal behind `s`.
pub fn append_decimal(s: &mut String, n: u16)
    ensures
        final(s)@ == old(s)@ + decimal(n as nat),
    decreases n,
{
    if n >= 10 {
        append_decimal(s, n / 10);
    }
    append_digit(s, n % 10);
    assert(s@ =~= old(s)@ + decimal(n as nat));
}

/// An address and a port, as a socket is bound to them.
pub open spec fn host_and_port(host: Seq<char>, port: u16) -> Seq<char> {
    host + ":"@ + decimal(port as nat)
}

/// Writes out an address and a port.
pub fn with_port(host: &str, port: u16) -> (r: String)
    ensures
        r@ == host_and_port(host@, port),
{
    let mut addr = String::from_str(host);
    addr.append(":");
    append_decimal(&mut addr, port);
    addr
}

/// How many characters stand before the first line feed, or in all if there is none.
pub open spec fn line_end(s: Seq<char>) -> nat
    decreases s.len(),
{
    if s.len() == 0 || s[0] == '\n' {
        0
    } else {
        1 + line_end(s.drop_first())
    }
}

/// A line that ended in a line feed, without the carriage return that may stand before it.
pub open spec fn without_cr(line: Seq<char>) -> Seq<char> {
    if line.len() > 0 && line.last() == '\r' {
        line.drop_last()
    } else {
        line
    }
}

/// The lines of a text. A line ends in a line feed or in a carriage return and a line feed; the last
/// one need not.
pub open spec fn lines(s: Seq<char>) -> Seq<Seq<char>>
    decreases s.len(),
{
    let end = line_end(s);
    if s.len() == 0 {
        Seq::empty()
    } else if end >= s.len() {
        seq![s]
    } else {
        seq![without_cr(s.take(end as int))] + lines(s.skip(end as int + 1))
    }
}

/// The characters of a text.
pub(crate) fn chars_of(text: &str) -> (r: Vec<char>)
    ensures
        r@ == text@,
{
    let mut chars: Vec<char> = Vec::new();
    for c in it: text.chars()
        invariant
            it.seq() == text@,
            chars@ == it.seq().take(it.index() as int),
    {
        chars.push(c);
        assert(chars@ =~= it.seq().take(it.index() + 1));
    }
    assert(chars@ =~= text@);
    chars
}

/// A part of a text.
fn part(text: &str, ascii: bool, from: usize, to: usize) -> (r: String)
    requires
        from <= to <= text@.len(),
        ascii ==> text.is_ascii(),
    ensures
        r@ == text@.subrange(from as int, to as int),
{
    if ascii {
        String::from_str(text.substring_ascii(from, to))
    } else {
        String::from_str(text.substring_char(from, to))
    }
}

/// Cuts a text into its lines.
pub fn split_lines(text: &str) -> (r: Vec<String>)
    ensures
        r@.map_values(|s: String| s@) == lines(text@),
{
    let ghost all = text@;
    let chars = chars_of(text);
    let ascii: bool = text.is_ascii();
    let mut found: Vec<String> = Vec::new();
    let mut start: usize = 0;
    assert(all.skip(0) =~= all);
    assert(found@.map_values(|s: String| s@) + lines(all) =~= lines(all));
    while start < chars.len()
        invariant
            chars@ == all,
            text@ == all,
            ascii ==> text.is_ascii(),
            start <= all.len(),
            found@.map_values(|s: String| s@) + lines(all.skip(start as int)) == lines(all),
        decreases all.len() - start,
    {
        let ghost before = found@.map_values(|s: String| s@);
        let ghost rest = all.skip(start as int);
        let mut end: usize = start;
        while end < chars.len() && chars[end] != '\n'
            invariant
                chars@ == all,
                start <= end <= all.len(),
                rest == all.skip(start as int),
                line_end(rest) == (end - start) + line_end(all.skip(end as int)),
            decreases all.len() - end,
        {
            assert(all.skip(end as int).drop_first() =~= all.skip(end + 1));
            end = end + 1;
        }
        if end == chars.len() {
            found.push(part(text, ascii, start, end));
            proof {
                assert(all.subrange(start as int, end as int) =~= rest);
                assert(found@.map_values(|s: String| s@) =~= before.push(rest));
                assert(all.skip(end as int) =~= Seq::empty());
                assert(before.push(rest) + lines(all.skip(end as int)) =~= before + seq![rest]);
            }
            start = end;
        } else {
            let line_to: usize = if end > start && chars[end - 1] == '\r' {
                end - 1
            } else {
                end
            };
            found.push(part(text, ascii, start, line_to));
            proof {
                let line = without_cr(rest.take(end - start));
                assert(all.subrange(start as int, line_to as int) =~= line);
                assert(found@.map_values(|s: String| s@) =~= before.push(line));
                assert(rest.skip(end - start + 1) =~= all.skip(end + 1));
                assert(before.push(line) + lines(all.skip(end + 1)) =~= before + (seq![line]
                    + lines(all.skip(end + 1))));
            }
            start = end + 1;
        }
    }
    proof {
        assert(all.skip(start as int) =~= Seq::empty());
        assert(found@.map_values(|s: String| s@) =~= lines(all));
    }
    found
}

/// Whether `c` is white space to Unicode.
pub open spec fn is_white_space(c: char) -> bool {
    ||| '\u{9}' <= c <= '\u{d}'
    ||| c == ' '
    ||| c == '\u{85}'
    ||| c == '\u{a0}'
    ||| c == '\u{1680}'
    ||| '\u{2000}' <= c <= '\u{200a}'
    ||| c == '\u{2028}'
    ||| c == '\u{2029}'
    ||| c == '\u{202f}'
    ||| c == '\u{205f}'
    ||| c == '\u{3000}'
}

/// Tells white space from other characters.
fn white_space(c: char) -> (r: bool)
    ensures
        r == is_white_space(c),
{
    ('\u{9}' <= c && c <= '\u{d}') || c == ' ' || c == '\u{85}' || c == '\u{a0}' || c == '\u{1680}'
        || ('\u{2000}' <= c && c <= '\u{200a}') || c == '\u{2028}' || c == '\u{2029}' || c
        == '\u{202f}' || c == '\u{205f}' || c == '\u{3000}'
}

/// A text without the white space around it.
pub open spec fn trimmed(s: Seq<char>) -> Seq<char>
    decreases s.len(),
{
    if s.len() == 0 {
        s
    } else if is_white_space(s[0]) {
        trimmed(s.drop_first())
    } else if is_white_space(s.last()) {
        trimmed(s.drop_last())
    } else {
        s
    }
}

/// The lower case of `c`, as far as it is an ASCII letter.
pub open spec fn lower(c: char) -> char {
    if 'A' <= c <= 'Z' {
        (c as u32 + 32) as char
    } else {
        c
    }
}

/// Whether two characters are the same but for the case of an ASCII letter.
fn same_letter(c: char, small: char) -> (r: bool)
    requires
        'a' <= small <= 'z',
    ensures
        r == (lower(c) == small),
{
    c == small || ('A' <= c && c <= 'Z' && c as u32 + 32 == small as u32)
}

/// Whether an answer means yes: `y` or `yes`, in capitals or not, with any white space around it.
pub open spec fn means_yes(answer: Seq<char>) -> bool {
    let word = trimmed(answer).map_values(|c: char| lower(c));
    word == seq!['y'] || word == seq!['y', 'e', 's']
}

/// Where a text begins and ends without the white space around it.
fn trim(chars: &Vec<char>) -> (r: (usize, usize))
    ensures
        r.0 <= r.1 <= chars@.len(),
        trimmed(chars@) == chars@.subrange(r.0 as int, r.1 as int),
{
    let ghost all = chars@;
    let mut from: usize = 0;
    let mut to: usize = chars.len();
    assert(all.subrange(0, to as int) =~= all);
    while from < to && white_space(chars[from])
        invariant
            from <= to == chars@.len(),
            chars@ == all,
            trimmed(all) == trimmed(all.subrange(from as int, to as int)),
        decreases to - from,
    {
        assert(all.subrange(from as int, to as int).drop_first() =~= all.subrange(
            from + 1,
            to as int,
        ));
        from = from + 1;
    }
    while from < to && white_space(chars[to - 1])
        invariant
            from <= to <= chars@.len(),
            chars@ == all,
            from < to ==> !is_white_space(all[from as int]),
            trimmed(all) == trimmed(all.subrange(from as int, to as int)),
        decreases to - from,
    {
        assert(all.subrange(from as int, to as int).drop_last() =~= all.subrange(
            from as int,
            to - 1,
        ));
        to = to - 1;
    }
    (from, to)
}

/// Whether an answer means yes.
pub fn is_yes(answer: &str) -> (r: bool)
    ensures
        r == means_yes(answer@),
{
    let chars = chars_of(answer);
    let (from, to) = trim(&chars);
    let ghost word = trimmed(answer@).map_values(|c: char| lower(c));
    if to - from == 1 {
        let yes: bool = same_letter(chars[from], 'y');
        assert(yes ==> word =~= seq!['y']);
        assert(word.len() == 1 && word[0] == lower(chars@[from as int]));
        yes
    } else if to - from == 3 {
        let yes: bool = same_letter(chars[from], 'y') && same_letter(chars[from + 1], 'e')
            && same_letter(chars[from + 2], 's');
        assert(yes ==> word =~= seq!['y', 'e', 's']);
        assert(word.len() == 3 && word[0] == lower(chars@[from as int]) && word[1] == lower(
            chars@[from + 1],
        ) && word[2] == lower(chars@[from + 2]));
        yes
    } else {
        assert(word.len() == to - from);
        false
    }
}

/// The number that decimal digits stand for.
pub open spec fn number_of(digits: Seq<char>) -> nat
    decreases digits.len(),
{
    if digits.len() == 0 {
        0
    } else {
        (10 * number_of(digits.drop_last()) + digits.last() as u32 - '0' as u32) as nat
    }
}

/// A number in decimal reads as that number. It is made of digits alone, at least one, and does not
/// begin with a zero unless it is zero.
pub proof fn law_decimal_reads_back(n: nat)
    ensures
        number_of(decimal(n)) == n,
        decimal(n).len() > 0,
        forall|i: int| 0 <= i < decimal(n).len() ==> '0' <= #[trigger] decimal(n)[i] <= '9',
        n > 0 ==> decimal(n)[0] != '0',
    decreases n,
{
    let text = decimal(n);
    let low = digit(n % 10);
    reveal_with_fuel(number_of, 2);
    assert(low as u32 == '0' as u32 + n % 10);
    assert(text.last() == low);
    if n >= 10 {
        law_decimal_reads_back(n / 10);
        assert(text.drop_last() =~= decimal(n / 10));
        assert(text[0] == decimal(n / 10)[0]);
        assert forall|i: int| 0 <= i < text.len() implies '0' <= #[trigger] text[i] <= '9' by {
            if i < text.len() - 1 {
                assert(text[i] == decimal(n / 10)[i]);
            }
        }
    } else {
        assert(text.drop_last() =~= Seq::<char>::empty());
    }
}

/// What is written of an address and a port is the address, a colon, and digits that read as the port.
pub proof fn law_host_and_port_read_back(host: Seq<char>, port: u16)
    ensures
        ({
            let text = host_and_port(host, port);
            let colon = host.len() as int;
            &&& text.len() > colon + 1
            &&& text.take(colon) == host
            &&& text[colon] == ':'
            &&& number_of(text.skip(colon + 1)) == port
            &&& forall|i: int| colon < i < text.len() ==> '0' <= #[trigger] text[i] <= '9'
            &&& port > 0 ==> text[colon + 1] != '0'
        }),
{
    let text = host_and_port(host, port);
    let colon = host.len() as int;
    let digits = decimal(port as nat);
    reveal_strlit(":");
    law_decimal_reads_back(port as nat);
    assert(text.take(colon) =~= host);
    assert(text.skip(colon + 1) =~= digits);
    assert forall|i: int| colon < i < text.len() implies '0' <= #[trigger] text[i] <= '9' by {
        assert(text[i] == digits[i - colon - 1]);
    }
}

/// Whether there is no line feed in `s`.
pub open spec fn one_line(s: Seq<char>) -> bool {
    forall|i: int| 0 <= i < s.len() ==> #[trigger] s[i] != '\n'
}

/// A line ends at the first line feed.
proof fn lemma_line_end(line: Seq<char>, rest: Seq<char>)
    requires
        one_line(line),
    ensures
        line_end(line) == line.len(),
        line_end(line + seq!['\n'] + rest) == line.len(),
    decreases line.len(),
{
    let all = line + seq!['\n'] + rest;
    if line.len() == 0 {
        assert(all[0] == '\n');
    } else {
        let less = line.drop_first();
        assert(line[0] != '\n');
        assert forall|i: int| 0 <= i < less.len() implies #[trigger] less[i] != '\n' by {
            assert(less[i] == line[i + 1]);
        }
        lemma_line_end(less, rest);
        assert(all.drop_first() =~= less + seq!['\n'] + rest);
    }
}

/// The lines of a text are what stands between its line feeds, in order. A carriage return right before
/// a line feed goes with it; any other character stays. What stands behind the last line feed is a line
/// of its own, as it is, unless there is nothing.
pub proof fn law_lines(line: Seq<char>, rest: Seq<char>)
    requires
        one_line(line),
    ensures
        lines(Seq::empty()) == Seq::<Seq<char>>::empty(),
        line.len() > 0 ==> lines(line) == seq![line],
        line.len() == 0 || line.last() != '\r' ==> lines(line + seq!['\n'] + rest) == seq![line]
            + lines(rest),
        lines(line + seq!['\r', '\n'] + rest) == seq![line] + lines(rest),
{
    lemma_line_end(line, rest);
    let all = line + seq!['\n'] + rest;
    assert(all.take(line.len() as int) =~= line);
    assert(all.skip(line.len() as int + 1) =~= rest);
    let longer = line.push('\r');
    let more = line + seq!['\r', '\n'] + rest;
    assert forall|i: int| 0 <= i < longer.len() implies #[trigger] longer[i] != '\n' by {
        if i < line.len() {
            assert(line[i] != '\n');
        }
    }
    lemma_line_end(longer, rest);
    assert(more =~= longer + seq!['\n'] + rest);
    assert(more.take(longer.len() as int) =~= longer);
    assert(more.skip(longer.len() as int + 1) =~= rest);
    assert(longer.drop_last() =~= line);
}

/// White space is what Unicode says it is, by code point.
pub proof fn law_white_space(c: char)
    ensures
        ({
            let code = c as u32;
            is_white_space(c) <==> (9 <= code <= 13 || code == 32 || code == 0x85 || code == 0xa0
                || code == 0x1680 || 0x2000 <= code <= 0x200a || code == 0x2028 || code == 0x2029
                || code == 0x202f || code == 0x205f || code == 0x3000)
        }),
{
}

/// Whether `s` is white space throughout.
pub open spec fn blank(s: Seq<char>) -> bool {
    forall|i: int| 0 <= i < s.len() ==> is_white_space(#[trigger] s[i])
}

/// White space around a text goes, and nothing else.
pub proof fn law_trimmed(left: Seq<char>, text: Seq<char>, right: Seq<char>)
    requires
        blank(left),
        blank(right),
        text.len() > 0 ==> !is_white_space(text[0]) && !is_white_space(text.last()),
    ensures
        trimmed(left + text + right) == text,
    decreases left.len() + right.len(),
{
    let all = left + text + right;
    if left.len() > 0 {
        let less = left.drop_first();
        assert(is_white_space(left[0]));
        assert(all[0] == left[0]);
        assert forall|i: int| 0 <= i < less.len() implies is_white_space(#[trigger] less[i]) by {
            assert(less[i] == left[i + 1]);
        }
        assert(all.drop_first() =~= less + text + right);
        law_trimmed(less, text, right);
    } else if right.len() > 0 {
        let less = right.drop_last();
        assert(is_white_space(right[right.len() - 1]));
        assert(all.last() == right.last());
        assert forall|i: int| 0 <= i < less.len() implies is_white_space(#[trigger] less[i]) by {
            assert(less[i] == right[i]);
        }
        if text.len() > 0 {
            assert(all[0] == text[0]);
            assert(all.drop_last() =~= left + text + less);
            law_trimmed(left, text, less);
        } else {
            let tail = right.drop_first();
            assert(is_white_space(right[0]));
            assert(all[0] == right[0]);
            assert forall|i: int| 0 <= i < tail.len() implies is_white_space(#[trigger] tail[i]) by {
                assert(tail[i] == right[i + 1]);
            }
            assert(all.drop_first() =~= left + text + tail);
            law_trimmed(left, text, tail);
        }
    } else {
        assert(all =~= text);
    }
}

/// Whether `word` is `y` or `yes`, each letter a capital or not.
pub open spec fn says_yes(word: Seq<char>) -> bool {
    ||| word.len() == 1 && (word[0] == 'y' || word[0] == 'Y')
    ||| {
        &&& word.len() == 3
        &&& word[0] == 'y' || word[0] == 'Y'
        &&& word[1] == 'e' || word[1] == 'E'
        &&& word[2] == 's' || word[2] == 'S'
    }
}

/// An answer means yes exactly if, without the white space around it, it is `y` or `yes`, in capitals or
/// not. Anything else, nothing at all included, means no.
pub proof fn law_only_yes_means_yes(left: Seq<char>, word: Seq<char>, right: Seq<char>)
    requires
        blank(left),
        blank(right),
        word.len() > 0 ==> !is_white_space(word[0]) && !is_white_space(word.last()),
    ensures
        means_yes(left + word + right) <==> says_yes(word),
{
    law_trimmed(left, word, right);
    let small = word.map_values(|c: char| lower(c));
    assert forall|c: char| #[trigger] lower(c) == 'y' <==> c == 'y' || c == 'Y' by {
        lemma_lower(c);
    }
    assert forall|c: char| #[trigger] lower(c) == 'e' <==> c == 'e' || c == 'E' by {
        lemma_lower(c);
    }
    assert forall|c: char| #[trigger] lower(c) == 's' <==> c == 's' || c == 'S' by {
        lemma_lower(c);
    }
    if says_yes(word) {
        if word.len() == 1 {
            assert(small =~= seq!['y']);
        } else {
            assert(small =~= seq!['y', 'e', 's']);
        }
    }
    if small == seq!['y'] {
        assert(small.len() == 1 && small[0] == 'y');
        assert(small[0] == lower(word[0]));
    }
    if small == seq!['y', 'e', 's'] {
        assert(small.len() == 3 && small[0] == 'y' && small[1] == 'e' && small[2] == 's');
        assert(small[0] == lower(word[0]) && small[1] == lower(word[1]) && small[2] == lower(
            word[2],
        ));
    }
}

/// The lower case of a capital stands 32 places behind it.
proof fn lemma_lower(c: char)
    ensures
        'A' <= c <= 'Z' ==> lower(c) as u32 == c as u32 + 32,
        !('A' <= c <= 'Z') ==> lower(c) == c,
{
}

} // verus!

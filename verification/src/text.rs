//! Text: decimal numbers as the machine writes and reads them, and the
//! lines and words of a program file.
use vstd::prelude::*;
use vstd::string::*;

verus! {

/// The character of one decimal digit.
pub open spec fn digit_char(d: int) -> char {
    ((48 + d) as u8) as char
}

/// Whether a character is a decimal digit.
pub open spec fn is_digit(c: char) -> bool {
    '0' <= c <= '9'
}

/// The number a decimal digit stands for.
pub open spec fn digit_of(c: char) -> int {
    (c as u8) - 48
}

/// Whether every character of a text is a decimal digit.
pub open spec fn all_digits(s: Seq<char>) -> bool {
    forall|i: int| 0 <= i < s.len() ==> is_digit(#[trigger] s[i])
}

/// The number that a text of decimal digits reads as.
pub open spec fn digits_value(s: Seq<char>) -> nat
    decreases s.len(),
{
    if s.len() == 0 {
        0
    } else {
        (10 * digits_value(s.drop_last()) + digit_of(s.last())) as nat
    }
}

/// The decimal digits of `n`, filled with zeros on the left up to `width`
/// characters; a number that needs more keeps all its digits.
pub open spec fn padded_decimal(n: nat, width: nat) -> Seq<char>
    decreases n, width,
{
    if n < 10 && width <= 1 {
        seq![digit_char(n as int)]
    } else {
        padded_decimal(n / 10, if width == 0 { 0 } else { (width - 1) as nat }).push(
            digit_char((n % 10) as int),
        )
    }
}

/// The decimal digits of `n`, none more than needed.
pub open spec fn decimal(n: nat) -> Seq<char> {
    padded_decimal(n, 1)
}

/// A signed number as people write it: a minus sign only where it is negative.
pub open spec fn signed_decimal(v: int) -> Seq<char> {
    if v < 0 {
        seq!['-'] + decimal((-v) as nat)
    } else {
        decimal(v as nat)
    }
}

/// A padded number is made of digits only and reads back as the number.
pub proof fn lemma_padded_decimal_reads_back(n: nat, width: nat)
    ensures
        all_digits(padded_decimal(n, width)),
        digits_value(padded_decimal(n, width)) == n,
        padded_decimal(n, width).len() >= 1,
        padded_decimal(n, width).len() >= width,
    decreases n, width,
{
    let s = padded_decimal(n, width);
    if n < 10 && width <= 1 {
        assert(s.drop_last() =~= Seq::<char>::empty());
        assert(digits_value(s.drop_last()) == 0);
    } else {
        let w = if width == 0 { 0 } else { (width - 1) as nat };
        lemma_padded_decimal_reads_back(n / 10, w);
        assert(s.drop_last() =~= padded_decimal(n / 10, w));
        assert(s.last() == digit_char((n % 10) as int));
    }
}

/// Ten to the power `k`.
pub open spec fn pow10(k: nat) -> nat
    decreases k,
{
    if k == 0 {
        1
    } else {
        10 * pow10((k - 1) as nat)
    }
}

/// A larger exponent gives no smaller power.
pub proof fn lemma_pow10_monotonic(a: nat, b: nat)
    requires
        a <= b,
    ensures
        1 <= pow10(a) <= pow10(b),
    decreases b,
{
    if a < b {
        lemma_pow10_monotonic(a, (b - 1) as nat);
    } else if a > 0 {
        lemma_pow10_monotonic((a - 1) as nat, (a - 1) as nat);
    }
}

/// A number below ten to the `width` fills exactly `width` characters.
pub proof fn lemma_padded_decimal_len(n: nat, width: nat)
    requires
        width >= 1,
        n < pow10(width),
    ensures
        padded_decimal(n, width).len() == width,
    decreases width,
{
    assert(pow10(width) == 10 * pow10((width - 1) as nat));
    if width > 1 {
        lemma_padded_decimal_len(n / 10, (width - 1) as nat);
    } else {
        assert(pow10(0) == 1);
    }
}

/// One decimal digit as text.
fn digit_str(d: u32) -> (s: &'static str)
    requires
        d < 10,
    ensures
        s@ == seq![digit_char(d as int)],
{
    proof {
        reveal_strlit("0");
        reveal_strlit("1");
        reveal_strlit("2");
        reveal_strlit("3");
        reveal_strlit("4");
        reveal_strlit("5");
        reveal_strlit("6");
        reveal_strlit("7");
        reveal_strlit("8");
        reveal_strlit("9");
    }
    match d {
        0 => "0",
        1 => "1",
        2 => "2",
        3 => "3",
        4 => "4",
        5 => "5",
        6 => "6",
        7 => "7",
        8 => "8",
        _ => "9",
    }
}

/// Writes `n` in decimal, filled with zeros on the left up to `width` characters.
pub fn padded_decimal_string(n: u32, width: usize) -> (s: String)
    ensures
        s@ == padded_decimal(n as nat, width as nat),
{
    let mut rest: u32 = n;
    let mut w: usize = width;
    let mut s = String::new();
    while rest >= 10 || w > 1
        invariant
            padded_decimal(n as nat, width as nat) == padded_decimal(rest as nat, w as nat) + s@,
        decreases rest, w,
    {
        let ghost before = s@;
        let ghost head = padded_decimal(
            (rest / 10) as nat,
            if w == 0 { 0 } else { (w - 1) as nat },
        );
        s = String::from_str(digit_str(rest % 10)).concat(s.as_str());
        proof {
            assert(padded_decimal(rest as nat, w as nat) + before =~= head + s@);
        }
        rest = rest / 10;
        if w > 0 {
            w = w - 1;
        }
    }
    String::from_str(digit_str(rest)).concat(s.as_str())
}

/// The distance of a number from zero.
pub fn magnitude(v: i32) -> (m: u32)
    ensures
        m == if v < 0 { -v } else { v as int },
{
    if v < 0 {
        (-(v as i64)) as u32
    } else {
        v as u32
    }
}

/// Writes a signed number as people write it.
pub fn signed_decimal_string(v: i32) -> (s: String)
    ensures
        s@ == signed_decimal(v as int),
{
    proof {
        reveal_strlit("-");
    }
    if v < 0 {
        String::from_str("-").concat(padded_decimal_string(magnitude(v), 1).as_str())
    } else {
        padded_decimal_string(v as u32, 1)
    }
}

/// A digit set before a text of digits adds its own worth to what the text reads as.
pub proof fn lemma_digits_value_with_lead(c: char, s: Seq<char>)
    requires
        is_digit(c),
        all_digits(s),
    ensures
        all_digits(seq![c] + s),
        digits_value(seq![c] + s) == digit_of(c) * pow10(s.len()) + digits_value(s),
    decreases s.len(),
{
    let t = seq![c] + s;
    assert forall|i: int| 0 <= i < t.len() implies is_digit(#[trigger] t[i]) by {
        if i > 0 {
            assert(t[i] == s[i - 1]);
        }
    }
    if s.len() == 0 {
        assert(t.drop_last() =~= Seq::<char>::empty());
        assert(digits_value(t.drop_last()) == 0);
        assert(pow10(0) == 1);
    } else {
        let shorter = s.drop_last();
        assert forall|i: int| 0 <= i < shorter.len() implies is_digit(#[trigger] shorter[i]) by {
            assert(shorter[i] == s[i]);
        }
        lemma_digits_value_with_lead(c, shorter);
        assert(t.drop_last() =~= seq![c] + shorter);
        assert(t.last() == s.last());
        assert(pow10(s.len()) == 10 * pow10(shorter.len()));
        assert(digit_of(c) * pow10(s.len()) == 10 * (digit_of(c) * pow10(shorter.len())))
            by (nonlinear_arith)
            requires
                pow10(s.len()) == 10 * pow10(shorter.len()),
        ;
    }
}

/// The number that a text spells as Rust reads a 32-bit integer: an
/// optional sign, then at least one decimal digit and nothing else, and a
/// value that fits 32 bits.
pub open spec fn parse_int(s: Seq<char>) -> Option<int> {
    let signed = s.len() > 0 && (s[0] == '-' || s[0] == '+');
    let digits = if signed {
        s.subrange(1, s.len() as int)
    } else {
        s
    };
    let v = if signed && s[0] == '-' {
        -digits_value(digits)
    } else {
        digits_value(digits) as int
    };
    if digits.len() > 0 && all_digits(digits) && i32::MIN <= v <= i32::MAX {
        Some(v)
    } else {
        None
    }
}

/// A longer text of digits reads as no less than the text without its last digit.
pub proof fn lemma_digits_value_grows(s: Seq<char>)
    requires
        s.len() > 0,
        all_digits(s),
    ensures
        digits_value(s) >= digits_value(s.drop_last()),
        digits_value(s) == 10 * digits_value(s.drop_last()) + digit_of(s.last()),
        0 <= digit_of(s.last()) <= 9,
{
    assert(is_digit(s[s.len() - 1]));
}

/// Reads a 32-bit integer from its text.
pub fn parse_i32(text: &str) -> (r: Option<i32>)
    ensures
        match r {
            Some(v) => parse_int(text@) == Some(v as int),
            None => parse_int(text@) is None,
        },
{
    let ghost signed = text@.len() > 0 && (text@[0] == '-' || text@[0] == '+');
    let ghost digits = if signed {
        text@.subrange(1, text@.len() as int)
    } else {
        text@
    };
    if !text.is_ascii() {
        proof {
            if all_digits(digits) {
                assert forall|i: int| 0 <= i < text@.len() implies '\0' <= #[trigger] text@[i]
                    <= '\u{7f}' by {
                    if signed {
                        if i > 0 {
                            assert(is_digit(digits[i - 1]));
                        }
                    } else {
                        assert(is_digit(digits[i]));
                    }
                }
            }
        }
        return None;
    }
    let n = text.unicode_len();
    if n == 0 {
        return None;
    }
    let first = text.get_ascii(0);
    assert('\0' <= text@[0] <= '\u{7f}');
    let negative = first == 45;
    let start: usize = if first == 45 || first == 43 {
        1
    } else {
        0
    };
    assert(signed == (start == 1));
    if start == n {
        return None;
    }
    let mut acc: i64 = 0;
    let mut too_large = false;
    let mut i: usize = start;
    while i < n
        invariant
            start <= i <= n,
            start <= 1,
            n == text@.len(),
            is_ascii(text),
            signed == (start == 1),
            signed == (text@.len() > 0 && (text@[0] == '-' || text@[0] == '+')),
            digits == if signed {
                text@.subrange(1, text@.len() as int)
            } else {
                text@
            },
            all_digits(digits.subrange(0, i - start)),
            !too_large ==> acc == digits_value(digits.subrange(0, i - start)) && acc
                <= 2_147_483_648,
            too_large ==> digits_value(digits.subrange(0, i - start)) > 2_147_483_648,
        decreases n - i,
    {
        let b = text.get_ascii(i);
        let ghost prefix = digits.subrange(0, i - start);
        let ghost longer = digits.subrange(0, i - start + 1);
        proof {
            assert('\0' <= text@[i as int] <= '\u{7f}');
            assert(digits[i - start] == text@[i as int]);
            assert(longer.drop_last() =~= prefix);
            assert(longer.last() == text@[i as int]);
        }
        if b < 48 || b > 57 {
            proof {
                assert(!is_digit(digits[i - start]));
            }
            return None;
        }
        proof {
            assert forall|j: int| 0 <= j < longer.len() implies is_digit(#[trigger] longer[j]) by {
                if j < longer.len() - 1 {
                    assert(longer[j] == prefix[j]);
                }
            }
            lemma_digits_value_grows(longer);
        }
        if !too_large {
            acc = acc * 10 + (b - 48) as i64;
            if acc > 2_147_483_648 {
                too_large = true;
            }
        }
        i += 1;
    }
    assert(digits.subrange(0, n - start) =~= digits);
    if too_large {
        return None;
    }
    if negative {
        Some((-acc) as i32)
    } else if acc > 2_147_483_647 {
        None
    } else {
        Some(acc as i32)
    }
}

/// Whether a character is white space.
pub open spec fn is_space(c: char) -> bool {
    let u = c as u32;
    (9 <= u <= 13) || u == 0x20 || u == 0x85 || u == 0xA0 || u == 0x1680 || (0x2000 <= u <= 0x200A)
        || u == 0x2028 || u == 0x2029 || u == 0x202F || u == 0x205F || u == 0x3000
}

/// Tells whether a character is white space.
pub fn is_whitespace(c: char) -> (b: bool)
    ensures
        b == is_space(c),
{
    let u = c as u32;
    (9 <= u && u <= 13) || u == 0x20 || u == 0x85 || u == 0xA0 || u == 0x1680 || (0x2000 <= u && u
        <= 0x200A) || u == 0x2028 || u == 0x2029 || u == 0x202F || u == 0x205F || u == 0x3000
}

/// How many characters from place `i` on stand before the next line feed.
pub open spec fn line_len(s: Seq<char>, i: int) -> nat
    decreases s.len() - i,
{
    if i < 0 || i >= s.len() || s[i] == '\n' {
        0
    } else {
        1 + line_len(s, i + 1)
    }
}

/// The lines of a text from place `i` on. A line ends before a line feed or
/// at the end of the text; after the last line feed no empty line follows.
pub open spec fn lines_from(s: Seq<char>, i: int) -> Seq<Seq<char>>
    decreases s.len() - i,
{
    if i < 0 || i >= s.len() {
        Seq::empty()
    } else {
        let n = line_len(s, i);
        if i + n >= s.len() {
            seq![s.subrange(i, i + n)]
        } else {
            seq![s.subrange(i, i + n)] + lines_from(s, i + n + 1)
        }
    }
}

/// How many characters from place `i` on stand before the next white space.
pub open spec fn word_len(s: Seq<char>, i: int) -> nat
    decreases s.len() - i,
{
    if i < 0 || i >= s.len() || is_space(s[i]) {
        0
    } else {
        1 + word_len(s, i + 1)
    }
}

/// The words of a text from place `i` on: the longest runs of characters
/// that are not white space, in their order.
pub open spec fn words_from(s: Seq<char>, i: int) -> Seq<Seq<char>>
    decreases s.len() - i,
{
    if i < 0 || i >= s.len() {
        Seq::empty()
    } else if is_space(s[i]) {
        words_from(s, i + 1)
    } else {
        let n = 1 + word_len(s, i + 1);
        if i + n >= s.len() {
            seq![s.subrange(i, i + n)]
        } else {
            seq![s.subrange(i, i + n)] + words_from(s, i + n)
        }
    }
}

/// The lines of a text.
pub open spec fn split_lines(s: Seq<char>) -> Seq<Seq<char>> {
    lines_from(s, 0)
}

/// The words of a text.
pub open spec fn split_words(s: Seq<char>) -> Seq<Seq<char>> {
    words_from(s, 0)
}

/// A text as lines of words: the words of each of its lines.
pub open spec fn line_words(s: Seq<char>) -> Seq<Seq<Seq<char>>> {
    split_lines(s).map_values(|line: Seq<char>| split_words(line))
}

/// The words of the lines of a text from place `i` on, line by line.
pub open spec fn line_words_from(s: Seq<char>, i: int) -> Seq<Seq<Seq<char>>>
    decreases s.len() - i,
{
    if i < 0 || i >= s.len() {
        Seq::empty()
    } else {
        let n = line_len(s, i);
        if i + n >= s.len() {
            seq![split_words(s.subrange(i, i + n))]
        } else {
            seq![split_words(s.subrange(i, i + n))] + line_words_from(s, i + n + 1)
        }
    }
}

/// Taking the words line by line gives the words of each line.
pub proof fn lemma_line_words_from(s: Seq<char>, i: int)
    ensures
        line_words_from(s, i) == lines_from(s, i).map_values(|line: Seq<char>| split_words(line)),
    decreases s.len() - i,
{
    let words = |line: Seq<char>| split_words(line);
    if 0 <= i < s.len() {
        let n = line_len(s, i);
        let first = s.subrange(i, i + n);
        if i + n < s.len() {
            lemma_line_words_from(s, i + n + 1);
            let rest = lines_from(s, i + n + 1);
            assert((seq![first] + rest).map_values(words) =~= seq![split_words(first)]
                + rest.map_values(words));
        } else {
            assert(seq![first].map_values(words) =~= seq![split_words(first)]);
        }
    } else {
        assert(lines_from(s, i).map_values(words) =~= Seq::<Seq<Seq<char>>>::empty());
    }
}

/// A line stops within the text, before a line feed or at the end.
pub proof fn lemma_line_len(s: Seq<char>, i: int)
    requires
        0 <= i <= s.len(),
    ensures
        i + line_len(s, i) <= s.len(),
        i + line_len(s, i) < s.len() ==> s[i + line_len(s, i)] == '\n',
        forall|k: int| i <= k < i + line_len(s, i) ==> s[k] != '\n',
    decreases s.len() - i,
{
    if i < s.len() && s[i] != '\n' {
        lemma_line_len(s, i + 1);
    }
}

/// A word stops within the text, before white space or at the end.
pub proof fn lemma_word_len(s: Seq<char>, i: int)
    requires
        0 <= i <= s.len(),
    ensures
        i + word_len(s, i) <= s.len(),
        i + word_len(s, i) < s.len() ==> is_space(s[i + word_len(s, i)]),
        forall|k: int| i <= k < i + word_len(s, i) ==> !is_space(s[k]),
    decreases s.len() - i,
{
    if i < s.len() && !is_space(s[i]) {
        lemma_word_len(s, i + 1);
    }
}

/// The characters of a text.
pub fn chars_of(text: &str) -> (v: Vec<char>)
    ensures
        v@ == text@,
{
    let mut v: Vec<char> = Vec::new();
    for c in it: text.chars()
        invariant
            v@ == it.seq().subrange(0, it.index() as int),
            it.seq() == text@,
    {
        v.push(c);
        assert(v@ =~= it.seq().subrange(0, it.index() + 1));
    }
    assert(v@ =~= text@);
    v
}

/// The words of the part of a text from place `from` up to place `to`.
fn words_between(text: &str, chars: &Vec<char>, from: usize, to: usize) -> (words: Vec<String>)
    requires
        chars@ == text@,
        from <= to <= chars@.len(),
    ensures
        words.deep_view() == split_words(chars@.subrange(from as int, to as int)),
{
    let ghost line = chars@.subrange(from as int, to as int);
    let mut words: Vec<String> = Vec::new();
    let mut i: usize = from;
    while i < to
        invariant
            from <= i <= to <= chars@.len(),
            chars@ == text@,
            line == chars@.subrange(from as int, to as int),
            words.deep_view() + words_from(line, i - from) == words_from(line, 0),
        decreases to - i,
    {
        if is_whitespace(chars[i]) {
            assert(line[i - from] == chars@[i as int]);
            i += 1;
        } else {
            let mut j: usize = i + 1;
            while j < to && !is_whitespace(chars[j])
                invariant
                    from <= i < j <= to <= chars@.len(),
                    line == chars@.subrange(from as int, to as int),
                    word_len(line, i + 1 - from) == (j - (i + 1)) + word_len(line, j - from),
                decreases to - j,
            {
                assert(line[j - from] == chars@[j as int]);
                j += 1;
            }
            proof {
                assert(line[i - from] == chars@[i as int]);
                if j < to {
                    assert(line[j - from] == chars@[j as int]);
                }
                assert(word_len(line, j - from) == 0);
            }
            let word = String::from_str(text.substring_char(i, j));
            let ghost before = words.deep_view();
            words.push(word);
            proof {
                assert(word@ =~= line.subrange(i - from, j - from));
                assert(words.deep_view() =~= before.push(word@));
                assert(before + words_from(line, i - from) =~= words.deep_view() + words_from(
                    line,
                    j - from,
                ));
            }
            i = j;
        }
    }
    proof {
        assert(words_from(line, to - from) =~= Seq::<Seq<char>>::empty());
        assert(words.deep_view() + Seq::<Seq<char>>::empty() =~= words.deep_view());
    }
    words
}

/// Splits a text into its lines and each line into its words.
pub fn split_line_words(text: &str) -> (lines: Vec<Vec<String>>)
    ensures
        lines.deep_view() == line_words(text@),
{
    let chars = chars_of(text);
    let n = chars.len();
    let mut lines: Vec<Vec<String>> = Vec::new();
    let mut i: usize = 0;
    while i < n
        invariant
            i <= n,
            n == chars@.len(),
            chars@ == text@,
            lines.deep_view() + line_words_from(chars@, i as int) == line_words_from(chars@, 0),
        decreases n - i,
    {
        let mut j: usize = i;
        while j < n && chars[j] != '\n'
            invariant
                i <= j <= n,
                n == chars@.len(),
                line_len(chars@, i as int) == (j - i) + line_len(chars@, j as int),
            decreases n - j,
        {
            j += 1;
        }
        assert(line_len(chars@, j as int) == 0);
        let words = words_between(text, &chars, i, j);
        let ghost before = lines.deep_view();
        lines.push(words);
        let next: usize = if j < n {
            j + 1
        } else {
            n
        };
        proof {
            assert(lines.deep_view() =~= before.push(words.deep_view()));
            assert(before + line_words_from(chars@, i as int) =~= lines.deep_view()
                + line_words_from(chars@, next as int));
        }
        i = next;
    }
    proof {
        assert(line_words_from(chars@, i as int) =~= Seq::<Seq<Seq<char>>>::empty());
        assert(lines.deep_view() + Seq::<Seq<Seq<char>>>::empty() =~= lines.deep_view());
        lemma_line_words_from(chars@, 0);
    }
    lines
}

} // verus!

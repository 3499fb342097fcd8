use vstd::prelude::*;
use vstd::string::*;
use crate::hardware::interrupts::Interrups;
use crate::text::{
    all_digits, digit_of, digits_value, is_digit, lemma_digits_value_with_lead,
    lemma_padded_decimal_len, lemma_padded_decimal_reads_back, lemma_pow10_monotonic, magnitude,
    padded_decimal, padded_decimal_string, pow10,
};
use crate::utils::{fault, word_text, Errors, Fault};

verus! {

/// The machine word: eight decimal digits kept as one unsigned number.
///
/// Read as a number, the leading digit is the sign (0 for non-negative, 1 for
/// negative) and the other seven digits are the magnitude.
#[derive(Debug, Clone, Copy, PartialEq, Eq, Structural)]
pub struct Palabra {
    pub palabra: u32,
}

/// What an arithmetic operation on words gives, with the error by its content.
pub open spec fn word_result(r: Result<Palabra, Errors>) -> Result<Palabra, Fault> {
    match r {
        Ok(p) => Ok(p),
        Err(e) => Err(e@),
    }
}

/// The quotient of two integers, rounded toward zero.
pub open spec fn truncated_quotient(a: int, b: int) -> int {
    let m = (if a < 0 { -a } else { a }) / (if b < 0 { -b } else { b });
    if (a < 0) == (b < 0) {
        m
    } else {
        -m
    }
}

impl Palabra {
    /// The signed number a word stands for. A word whose leading digit is
    /// neither 0 nor 1 is no number and reads as 1.
    pub open spec fn value(self) -> int {
        if self.palabra / 10_000_000 == 0 {
            self.palabra as int
        } else if self.palabra / 10_000_000 == 1 {
            -(self.palabra - 10_000_000)
        } else {
            1
        }
    }

    /// Whether a number fits the seven digits of a word's magnitude.
    pub open spec fn in_range(v: int) -> bool {
        -9_999_999 <= v <= 9_999_999
    }

    /// The word that carries the number `v`; zero is written without a sign.
    pub open spec fn encode(v: int) -> Palabra {
        if v >= 0 {
            Palabra { palabra: v as u32 }
        } else {
            Palabra { palabra: (10_000_000 - v) as u32 }
        }
    }

    /// Whether the word has no more than eight digits.
    pub open spec fn fits(self) -> bool {
        self.palabra <= 99_999_999
    }

    /// Whether the word is the one that `encode` gives for its own number.
    pub open spec fn is_canonical(self) -> bool {
        self.palabra < 10_000_000 || 10_000_000 < self.palabra < 20_000_000
    }

    /// The word that a text spells: exactly eight decimal digits.
    pub open spec fn parse(s: Seq<char>) -> Option<Palabra> {
        if s.len() == 8 && all_digits(s) {
            Some(Palabra { palabra: digits_value(s) as u32 })
        } else {
            None
        }
    }

    /// The form a word has on disk: its eight digits and the tag `F`.
    pub open spec fn disk_text(self) -> Seq<char> {
        padded_decimal(self.palabra as nat, 8).push('F')
    }

    /// The word that a disk block spells: eight decimal digits and the tag `F`.
    pub open spec fn parse_disk(s: Seq<char>) -> Option<Palabra> {
        if s.len() == 9 && s[8] == 'F' {
            Self::parse(s.subrange(0, 8))
        } else {
            None
        }
    }

    /// A result in range becomes its word; one above the range is an
    /// overflow, one below it an underflow, each named after the operation.
    pub open spec fn checked(exact: int, operation: Seq<char>) -> Result<Palabra, Fault> {
        if exact > 9_999_999 {
            Err(Fault { cod: Interrups::Overflow, msg: "Overflow al realizar "@ + operation })
        } else if exact < -9_999_999 {
            Err(Fault { cod: Interrups::Underflow, msg: "Underflow al realizar "@ + operation })
        } else {
            Ok(Self::encode(exact))
        }
    }

    /// The sum of two words.
    pub open spec fn plus(self, other: Palabra) -> Result<Palabra, Fault> {
        Self::checked(self.value() + other.value(), "suma"@)
    }

    /// The difference of two words.
    pub open spec fn minus(self, other: Palabra) -> Result<Palabra, Fault> {
        Self::checked(self.value() - other.value(), "resta"@)
    }

    /// The product of two words.
    pub open spec fn times(self, other: Palabra) -> Result<Palabra, Fault> {
        Self::checked(self.value() * other.value(), "Multiplicacion"@)
    }

    /// The quotient of two words, rounded toward zero; no word can be divided by zero.
    pub open spec fn over(self, other: Palabra) -> Result<Palabra, Fault> {
        if other.value() == 0 {
            Err(
                Fault {
                    cod: Interrups::InstInv,
                    msg: "Instruccion invalida, division por 0"@,
                },
            )
        } else {
            Self::checked(truncated_quotient(self.value(), other.value()), "division"@)
        }
    }

    /// Reads a word from its text: `None` unless the text is exactly eight decimal digits.
    pub fn new(num: &str) -> (r: Option<Self>)
        ensures
            r == Self::parse(num@),
    {
        broadcast use vstd::string::is_ascii_spec_bytes;

        if !num.is_ascii() {
            assert(!all_digits(num@)) by {
                if all_digits(num@) {
                    assert forall|i: int| 0 <= i < num@.len() implies '\0' <= #[trigger] num@[i]
                        <= '\u{7f}' by {
                        assert(is_digit(num@[i]));
                    }
                }
            }
            return None;
        }
        proof {
            is_ascii_spec_bytes(num);
        }
        if num.as_bytes().len() != 8 {
            return None;
        }
        let mut acc: u32 = 0;
        let mut i: usize = 0;
        while i < 8
            invariant
                i <= 8,
                num@.len() == 8,
                is_ascii(num),
                all_digits(num@.subrange(0, i as int)),
                acc == digits_value(num@.subrange(0, i as int)),
                acc < pow10(i as nat),
            decreases 8 - i,
        {
            let b: u8 = num.get_ascii(i);
            let ghost prefix = num@.subrange(0, i as int);
            let ghost longer = num@.subrange(0, i + 1);
            proof {
                lemma_pow10_monotonic(i as nat, 8);
                assert(pow10(8) == 100_000_000) by {
                    reveal_with_fuel(pow10, 9);
                }
                assert(pow10((i + 1) as nat) == 10 * pow10(i as nat));
                assert(longer.drop_last() =~= prefix);
                assert(longer.last() == num@[i as int]);
            }
            if b < 48 || b > 57 {
                assert(!is_digit(num@[i as int]));
                return None;
            }
            acc = acc * 10 + (b - 48) as u32;
            i += 1;
            proof {
                assert(is_digit(longer.last()));
                assert forall|j: int| 0 <= j < longer.len() implies is_digit(#[trigger] longer[j]) by {
                    if j < longer.len() - 1 {
                        assert(longer[j] == prefix[j]);
                    }
                }
            }
        }
        assert(num@.subrange(0, 8) =~= num@);
        Some(Palabra { palabra: acc })
    }

    /// The signed number the word stands for.
    pub fn convert(&self) -> (v: i32)
        ensures
            v == self.value(),
    {
        let sig: u32 = self.palabra / 10_000_000;
        if sig == 0 {
            self.palabra as i32
        } else if sig == 1 {
            -((self.palabra - 10_000_000) as i32)
        } else {
            1
        }
    }

    /// The word that carries a number: `None` where the number is out of range.
    pub fn from_value(v: i32) -> (r: Option<Self>)
        ensures
            r == if Self::in_range(v as int) {
                Some(Self::encode(v as int))
            } else {
                None::<Palabra>
            },
    {
        if v > 9_999_999 || v < -9_999_999 {
            None
        } else if v >= 0 {
            Some(Palabra { palabra: v as u32 })
        } else {
            Some(Palabra { palabra: (10_000_000 - v) as u32 })
        }
    }

    /// Writes the word as it stands on disk.
    pub fn convert_to_string_disk(&self) -> (s: String)
        ensures
            s@ == self.disk_text(),
    {
        proof {
            reveal_strlit("F");
        }
        let s = padded_decimal_string(self.palabra, 8).concat("F");
        assert(s@ =~= self.disk_text());
        s
    }

    /// Reads a word from a disk block: `None` unless the block is eight
    /// decimal digits followed by the tag `F`.
    pub fn convert_to_disk_palabra(s: &str) -> (r: Option<Self>)
        ensures
            r == Self::parse_disk(s@),
    {
        broadcast use vstd::string::is_ascii_spec_bytes;

        if !s.is_ascii() {
            proof {
                if s@.len() == 9 && s@[8] == 'F' && all_digits(s@.subrange(0, 8)) {
                    let head = s@.subrange(0, 8);
                    assert forall|i: int| 0 <= i < s@.len() implies '\0' <= #[trigger] s@[i]
                        <= '\u{7f}' by {
                        if i < 8 {
                            assert(is_digit(head[i]));
                        }
                    }
                }
            }
            return None;
        }
        proof {
            is_ascii_spec_bytes(s);
        }
        if s.as_bytes().len() != 9 {
            return None;
        }
        assert('\0' <= s@[8] <= '\u{7f}');
        if s.get_ascii(8) != 70 {
            return None;
        }
        Self::new(s.substring_ascii(0, 8))
    }
}

/// A number within range is carried by its word, and only zero has a second spelling.
pub proof fn lemma_encode_value(v: int)
    requires
        Palabra::in_range(v),
    ensures
        Palabra::encode(v).value() == v,
        Palabra::encode(v).is_canonical(),
        Palabra::encode(v).fits(),
{
}

/// A canonical word is the word of its own number.
pub proof fn lemma_canonical_encode(p: Palabra)
    requires
        p.is_canonical(),
    ensures
        Palabra::encode(p.value()) == p,
        Palabra::in_range(p.value()),
{
}

/// Writing a number as the text of a word and reading the text gives the
/// number back, for every magnitude up to 9,999,999 and either sign.
pub proof fn lemma_text_round_trip(m: int)
    requires
        Palabra::in_range(m),
    ensures
        Palabra::parse(word_text(m)) == Some(Palabra::encode(m)),
        Palabra::parse(word_text(m))->Some_0.value() == m,
{
    assert(pow10(8) == 100_000_000 && pow10(7) == 10_000_000) by {
        reveal_with_fuel(pow10, 9);
    }
    if m < 0 {
        let body = padded_decimal((-m) as nat, 7);
        let text = seq!['1'] + body;
        lemma_padded_decimal_len((-m) as nat, 7);
        lemma_padded_decimal_reads_back((-m) as nat, 7);
        assert(text == word_text(m));
        lemma_digits_value_with_lead('1', body);
        assert(digit_of('1') == 1);
        assert(digits_value(text) == 10_000_000 - m);
    } else {
        lemma_padded_decimal_len(m as nat, 8);
        lemma_padded_decimal_reads_back(m as nat, 8);
    }
}

/// Adding a word and then subtracting it again: where the sum is in range,
/// the difference is in range too and stands for the number of the first
/// word; it is the first word itself where that word is canonical.
pub proof fn lemma_add_then_subtract(a: Palabra, b: Palabra)
    requires
        a.plus(b) is Ok,
    ensures
        a.plus(b)->Ok_0.minus(b) is Ok,
        a.plus(b)->Ok_0.minus(b)->Ok_0.value() == a.value(),
        a.is_canonical() ==> a.plus(b)->Ok_0.minus(b)->Ok_0 == a,
{
}

/// A word of no more than eight digits, written to its disk form and read
/// back, is the same word.
pub proof fn lemma_disk_round_trip(p: Palabra)
    requires
        p.fits(),
    ensures
        Palabra::parse_disk(p.disk_text()) == Some(p),
{
    assert(pow10(8) == 100_000_000) by {
        reveal_with_fuel(pow10, 9);
    }
    lemma_padded_decimal_len(p.palabra as nat, 8);
    lemma_padded_decimal_reads_back(p.palabra as nat, 8);
    assert(p.disk_text().subrange(0, 8) =~= padded_decimal(p.palabra as nat, 8));
}

/// The error of a result above the range, or of one below it.
fn arithmetic_fault(overflow: bool, operation: &str) -> (e: Errors)
    ensures
        e@ == (Fault {
            cod: if overflow {
                Interrups::Overflow
            } else {
                Interrups::Underflow
            },
            msg: (if overflow {
                "Overflow al realizar "@
            } else {
                "Underflow al realizar "@
            }) + operation@,
        }),
{
    if overflow {
        Errors {
            msg: String::from_str("Overflow al realizar ").concat(operation),
            cod: Interrups::Overflow,
        }
    } else {
        Errors {
            msg: String::from_str("Underflow al realizar ").concat(operation),
            cod: Interrups::Underflow,
        }
    }
}

/// The word of an exact result, or the error of a result out of range.
fn checked_word(exact: i64, operation: &str) -> (r: Result<Palabra, Errors>)
    ensures
        word_result(r) == Palabra::checked(exact as int, operation@),
{
    if exact > 9_999_999 {
        Err(arithmetic_fault(true, operation))
    } else if exact < -9_999_999 {
        Err(arithmetic_fault(false, operation))
    } else if exact >= 0 {
        Ok(Palabra { palabra: exact as u32 })
    } else {
        Ok(Palabra { palabra: (10_000_000 - exact) as u32 })
    }
}

/// What `+` gives is stated on the operator itself, over `Fault`: an error
/// holds a `String`, which no specification can build.
impl vstd::std_specs::ops::AddSpecImpl for Palabra {
    open spec fn obeys_add_spec() -> bool {
        false
    }

    open spec fn add_req(self, other: Palabra) -> bool {
        true
    }

    open spec fn add_spec(self, other: Palabra) -> Result<Palabra, Errors> {
        arbitrary()
    }
}

impl core::ops::Add for Palabra {
    type Output = Result<Palabra, Errors>;

    /// The sum of the two numbers as a word, or the overflow or underflow it runs into.
    fn add(self, other: Palabra) -> (r: Result<Palabra, Errors>)
        ensures
            word_result(r) == self.plus(other),
    {
        checked_word(self.convert() as i64 + other.convert() as i64, "suma")
    }
}

/// What `-` gives is stated on the operator itself, over `Fault`: an error
/// holds a `String`, which no specification can build.
impl vstd::std_specs::ops::SubSpecImpl for Palabra {
    open spec fn obeys_sub_spec() -> bool {
        false
    }

    open spec fn sub_req(self, other: Palabra) -> bool {
        true
    }

    open spec fn sub_spec(self, other: Palabra) -> Result<Palabra, Errors> {
        arbitrary()
    }
}

impl core::ops::Sub for Palabra {
    type Output = Result<Palabra, Errors>;

    /// The difference of the two numbers as a word, or the overflow or underflow it runs into.
    fn sub(self, other: Palabra) -> (r: Result<Palabra, Errors>)
        ensures
            word_result(r) == self.minus(other),
    {
        checked_word(self.convert() as i64 - other.convert() as i64, "resta")
    }
}

/// What `*` gives is stated on the operator itself, over `Fault`: an error
/// holds a `String`, which no specification can build.
impl vstd::std_specs::ops::MulSpecImpl for Palabra {
    open spec fn obeys_mul_spec() -> bool {
        false
    }

    open spec fn mul_req(self, other: Palabra) -> bool {
        true
    }

    open spec fn mul_spec(self, other: Palabra) -> Result<Palabra, Errors> {
        arbitrary()
    }
}

impl core::ops::Mul for Palabra {
    type Output = Result<Palabra, Errors>;

    /// The product of the two numbers as a word, or the overflow or underflow it runs into.
    fn mul(self, other: Palabra) -> (r: Result<Palabra, Errors>)
        ensures
            word_result(r) == self.times(other),
    {
        let a: i64 = self.convert() as i64;
        let b: i64 = other.convert() as i64;
        assert(-100_000_000_000_000 <= a * b <= 100_000_000_000_000) by (nonlinear_arith)
            requires
                -9_999_999 <= a <= 9_999_999,
                -9_999_999 <= b <= 9_999_999,
        ;
        checked_word(a * b, "Multiplicacion")
    }
}

/// What `/` gives is stated on the operator itself, over `Fault`: an error
/// holds a `String`, which no specification can build.
impl vstd::std_specs::ops::DivSpecImpl for Palabra {
    open spec fn obeys_div_spec() -> bool {
        false
    }

    open spec fn div_req(self, other: Palabra) -> bool {
        true
    }

    open spec fn div_spec(self, other: Palabra) -> Result<Palabra, Errors> {
        arbitrary()
    }
}

impl core::ops::Div for Palabra {
    type Output = Result<Palabra, Errors>;

    /// The quotient of the two numbers, rounded toward zero, as a word; an
    /// invalid instruction where the divisor is zero.
    fn div(self, other: Palabra) -> (r: Result<Palabra, Errors>)
        ensures
            word_result(r) == self.over(other),
    {
        let a: i32 = self.convert();
        let b: i32 = other.convert();
        if b == 0 {
            return Err(fault("Instruccion invalida, division por 0", Interrups::InstInv));
        }
        let m: i64 = (magnitude(a) / magnitude(b)) as i64;
        let q: i64 = if (a < 0) == (b < 0) {
            m
        } else {
            -m
        };
        checked_word(q, "division")
    }
}

impl PartialOrd for Palabra {
    /// Orders two words by the numbers they stand for.
    fn partial_cmp(&self, other: &Palabra) -> (r: Option<core::cmp::Ordering>) {
        let a = self.convert();
        let b = other.convert();
        if a < b {
            Some(core::cmp::Ordering::Less)
        } else if a > b {
            Some(core::cmp::Ordering::Greater)
        } else {
            Some(core::cmp::Ordering::Equal)
        }
    }
}

/// Words are ordered by the numbers they stand for.
impl vstd::std_specs::cmp::PartialOrdSpecImpl for Palabra {
    open spec fn obeys_partial_cmp_spec() -> bool {
        true
    }

    open spec fn partial_cmp_spec(&self, other: &Palabra) -> Option<core::cmp::Ordering> {
        if self.value() < other.value() {
            Some(core::cmp::Ordering::Less)
        } else if self.value() > other.value() {
            Some(core::cmp::Ordering::Greater)
        } else {
            Some(core::cmp::Ordering::Equal)
        }
    }
}

} // verus!

//! The individual taxpayer number (CPF): nine base digits and two check
//! digits.

use crate::append::ArrayAppend;
use crate::digits::{all_decimal, is_all_decimal, to_array};
use crate::pattern::{regex_search, search};
use crate::random::random_digits;
use crate::text::{
    decimal_string, digits_of, extract_digits, fits_shape, has_shape, is_digit_char,
    is_only_digits, lemma_decimal_string_of_digits, lemma_digits_of_concat, lemma_digits_of_none,
    only_digits, push_decimal_string, to_chars,
};
use crate::Cpf;
use rand::rngs::StdRng;
use vstd::pervasive::unreached;
use vstd::prelude::*;
use vstd::slice::slice_subrange;
use vstd::string::StringExecFns;

verus! {

/// Why a CPF could not be made.
#[derive(Debug, Eq, PartialEq)]
pub enum CpfCreationError {
    /// The check digits are not those that the base digits call for.
    InvalidCpfDigits,
    /// The text is written neither as `000.000.000-00` nor as `00000000000`.
    InvalidCpfStringFormat,
    /// The digits found in the text do not make up nine base digits and two
    /// check digits.
    CouldNotConvertCpfToDigits,
    /// The text holds digits alone, but not eleven of them.
    ShortCpfString,
    /// One of the given digits is greater than 9.
    DigitsOutOfBounds,
}

/// Why a check digit could not be calculated.
#[derive(Debug, Eq, PartialEq)]
pub enum DigitCalculationError {
    /// The number of digits given, where it is not one that the calculation
    /// takes.
    WrongAmountOfDigits(usize),
}

/// The sum of the first `count` digits of `digits`, each multiplied by its
/// weight. The weights descend by one from `digits.len() + 1` at the first
/// digit to 2 at the last.
pub open spec fn weighted_sum(digits: Seq<u8>, count: nat) -> int
    decreases count,
{
    if count == 0 {
        0
    } else {
        weighted_sum(digits, (count - 1) as nat) + digits[count - 1] * (digits.len() + 1 - (count
            - 1))
    }
}

/// The check digit that follows `digits`: ten times the weighted sum,
/// reduced modulo 11, with 10 written as 0.
pub open spec fn check_digit(digits: Seq<u8>) -> u8 {
    let pre = (weighted_sum(digits, digits.len()) * 10) % 11;
    if pre == 10 {
        0u8
    } else {
        pre as u8
    }
}

/// The two check digits of the base digits `base`: the check digit of
/// `base`, then the check digit of `base` followed by the first.
pub open spec fn check_digits(base: Seq<u8>) -> Seq<u8> {
    let first = check_digit(base);
    seq![first, check_digit(base.push(first))]
}

/// The check digit that follows the digits of a slice of any length.
fn slice_verifier_digit(digits: &[u8]) -> (digit: u8)
    ensures
        digit == check_digit(digits@),
        digit <= 9,
{
    let length: usize = digits.len();
    let mut remainder: u128 = 0;
    let mut i: usize = 0;
    while i < length
        invariant
            length == digits@.len(),
            i <= length,
            remainder < 11,
            remainder == weighted_sum(digits@, i as nat) % 11,
        decreases length - i,
    {
        let weight: u128 = (length - i) as u128 + 1;
        let digit: u128 = digits[i] as u128;
        assert(digit * weight <= 255 * 0x1_0000_0000_0000_0000) by (nonlinear_arith)
            requires
                digit <= 255,
                weight <= 0x1_0000_0000_0000_0000,
        ;
        let product: u128 = digit * weight;
        remainder = (remainder + product) % 11;
        i += 1;
    }
    let pre: u128 = (remainder * 10) % 11;
    if pre == 10 {
        0
    } else {
        pre as u8
    }
}

/// Calculates the check digit that follows `cpf_digits`.
///
/// Given the nine base digits it yields the first check digit; given those
/// nine and the first check digit it yields the second. Any other length is
/// handled by the same rule.
pub fn calculate_verifier_digit<const S: usize>(cpf_digits: [u8; S]) -> (digit: u8)
    ensures
        digit == check_digit(cpf_digits@),
        digit <= 9,
{
    slice_verifier_digit(cpf_digits.as_slice())
}

/// Calculates both check digits of the base digits `digits`.
pub fn calculate_verifier_digits(digits: [u8; 9]) -> (pair: (u8, u8))
    ensures
        seq![pair.0, pair.1] == check_digits(digits@),
        pair.0 <= 9,
        pair.1 <= 9,
{
    let first_digit = calculate_verifier_digit::<9>(digits);
    let digits_with_first_verifier: Vec<u8> = digits.append(first_digit);
    assert(digits_with_first_verifier@ == digits@.push(first_digit));
    let second_digit = slice_verifier_digit(digits_with_first_verifier.as_slice());
    (first_digit, second_digit)
}

/// The text shape of a punctuated CPF; `#` stands for one of the digits `0`
/// to `9`.
pub open spec fn shape() -> Seq<char> {
    "###.###.###-##"@
}

/// The regular expression of a punctuated CPF, from the start of a text to
/// its end, in which a digit may be a decimal digit of any script.
pub open spec fn pattern() -> Seq<char> {
    "^\\d{3}\\.\\d{3}\\.\\d{3}-\\d{2}$"@
}

/// Whether `text` is a punctuated CPF: the whole of it is written in
/// [`shape`], or a search of it for [`pattern`], which returned `searched`,
/// found a match.
pub open spec fn holds_punctuated(text: Seq<char>, searched: Option<bool>) -> bool {
    fits_shape(text, shape()) || searched == Some(true)
}

/// What becomes of base digits `base` offered with check digits `check`:
/// all eleven digits in order, or the reason for which they are refused.
pub open spec fn validated(base: Seq<u8>, check: Seq<u8>) -> Result<Seq<u8>, CpfCreationError> {
    if !all_decimal(base) || !all_decimal(check) {
        Err(CpfCreationError::DigitsOutOfBounds)
    } else if check != check_digits(base) {
        Err(CpfCreationError::InvalidCpfDigits)
    } else {
        Ok(base + check)
    }
}

/// What becomes of `text` read as a CPF, where a search of it for
/// [`pattern`] returned `searched`: its eleven digits in order, or the
/// reason for which it is refused.
pub open spec fn parsed(text: Seq<char>, searched: Option<bool>) -> Result<
    Seq<u8>,
    CpfCreationError,
> {
    if only_digits(text) && text.len() != 11 {
        Err(CpfCreationError::ShortCpfString)
    } else if only_digits(text) || holds_punctuated(text, searched) {
        let found = digits_of(text);
        if found.len() == 11 {
            validated(found.subrange(0, 9), found.subrange(9, 11))
        } else {
            Err(CpfCreationError::CouldNotConvertCpfToDigits)
        }
    } else {
        Err(CpfCreationError::InvalidCpfStringFormat)
    }
}

/// The result of a construction with the CPF replaced by its digits.
pub open spec fn outcome(made: Result<Cpf, CpfCreationError>) -> Result<
    Seq<u8>,
    CpfCreationError,
> {
    match made {
        Ok(cpf) => Ok(cpf@),
        Err(error) => Err(error),
    }
}

impl View for Cpf {
    type V = Seq<u8>;

    /// All eleven digits: the base digits, then the check digits.
    open spec fn view(&self) -> Seq<u8> {
        self.digits@ + self.verifier_digits@
    }
}

impl Cpf {
    /// Whether every base digit is a decimal digit and the check digits are
    /// those that the base digits call for.
    pub open spec fn is_valid(&self) -> bool {
        &&& all_decimal(self.digits@)
        &&& self.verifier_digits@ == check_digits(self.digits@)
    }

    /// The punctuated writing, `000.000.000-00`: the base digits in threes
    /// with a point after the first and the second three, then a hyphen and
    /// the check digits.
    pub open spec fn punctuated(&self) -> Seq<char> {
        decimal_string(self.digits@.subrange(0, 3)) + seq!['.'] + decimal_string(
            self.digits@.subrange(3, 6),
        ) + seq!['.'] + decimal_string(self.digits@.subrange(6, 9)) + seq!['-'] + decimal_string(
            self.verifier_digits@,
        )
    }

    /// The writing in digits alone, `00000000000`: the base digits, then the
    /// check digits.
    pub open spec fn unpunctuated(&self) -> Seq<char> {
        decimal_string(self.digits@) + decimal_string(self.verifier_digits@)
    }

    /// Creates a CPF from its base digits and its check digits.
    ///
    /// Fails with `DigitsOutOfBounds` if any digit is greater than 9, and
    /// with `InvalidCpfDigits` if the check digits are not the ones
    /// calculated from the base digits.
    pub fn new(digits: [u8; 9], verifier_digits: [u8; 2]) -> (made: Result<Cpf, CpfCreationError>)
        ensures
            outcome(made) == validated(digits@, verifier_digits@),
            all_decimal(digits@) && all_decimal(verifier_digits@) ==> (made is Ok
                <==> verifier_digits@ == check_digits(digits@)),
            made matches Ok(cpf) ==> cpf.digits == digits && cpf.verifier_digits
                == verifier_digits && cpf.is_valid(),
    {
        let digits_is_valid = is_all_decimal(digits.as_slice());
        let verifier_digits_is_valid = is_all_decimal(verifier_digits.as_slice());
        if !digits_is_valid || !verifier_digits_is_valid {
            return Err(CpfCreationError::DigitsOutOfBounds);
        }
        let (first_verifier_digit, second_verifier_digit) = calculate_verifier_digits(digits);
        if first_verifier_digit != verifier_digits[0] || second_verifier_digit
            != verifier_digits[1] {
            Err(CpfCreationError::InvalidCpfDigits)
        } else {
            assert(verifier_digits@ =~= seq![first_verifier_digit, second_verifier_digit]);
            Ok(Cpf { digits, verifier_digits })
        }
    }

    /// Reads a CPF from text written as `000.000.000-00` or as
    /// `00000000000`.
    ///
    /// Text made of digits alone must hold eleven of them, or it fails with
    /// `ShortCpfString`. Other text must be in the punctuated form from its
    /// first character to its last, or it fails with
    /// `InvalidCpfStringFormat`; a form written with the decimal digits of
    /// another script is found by a search for the regular expression
    /// [`pattern`]. The digits `0` to `9` of the text are then taken in
    /// order: unless they are eleven, as they are not where the form is
    /// written in another script, reading fails with
    /// `CouldNotConvertCpfToDigits`; the first nine are the base digits and
    /// the last two the check digits, which are held to the rules of
    /// [`Cpf::new`].
    pub fn parse_str(cpf: &str) -> (made: Result<Cpf, CpfCreationError>)
        ensures
            outcome(made) == parsed(cpf@, regex_search(pattern(), cpf@)),
            made matches Ok(read) ==> read.is_valid(),
            only_digits(cpf@) && cpf@.len() != 11 ==> made == Err::<Cpf, CpfCreationError>(
                CpfCreationError::ShortCpfString,
            ),
            !only_digits(cpf@) && !holds_punctuated(cpf@, regex_search(pattern(), cpf@)) ==> made
                == Err::<Cpf, CpfCreationError>(CpfCreationError::InvalidCpfStringFormat),
    {
        let chars = to_chars(cpf);
        let shape = to_chars("###.###.###-##");
        let searched = if is_only_digits(chars.as_slice()) || has_shape(
            chars.as_slice(),
            shape.as_slice(),
        ) {
            None
        } else {
            search("^\\d{3}\\.\\d{3}\\.\\d{3}-\\d{2}$", cpf)
        };
        Cpf::parse_chars(chars.as_slice(), searched)
    }

    /// Reads a CPF from the characters of a text, given in `searched` what
    /// a search of that text for [`pattern`] returned.
    ///
    /// The rules are those of [`Cpf::parse_str`]. What `searched` holds
    /// bears on the result only where the text is neither made of digits
    /// alone nor in the punctuated form written with the digits `0` to `9`.
    pub fn parse_chars(chars: &[char], searched: Option<bool>) -> (made: Result<
        Cpf,
        CpfCreationError,
    >)
        ensures
            outcome(made) == parsed(chars@, searched),
            made matches Ok(read) ==> read.is_valid(),
            only_digits(chars@) && chars@.len() != 11 ==> made == Err::<Cpf, CpfCreationError>(
                CpfCreationError::ShortCpfString,
            ),
            !only_digits(chars@) && !holds_punctuated(chars@, searched) ==> made == Err::<
                Cpf,
                CpfCreationError,
            >(CpfCreationError::InvalidCpfStringFormat),
    {
        let only_numbers = is_only_digits(chars);
        if only_numbers && chars.len() != 11 {
            return Err(CpfCreationError::ShortCpfString);
        }
        let shape = to_chars("###.###.###-##");
        let search_found = match searched {
            Some(found) => found,
            None => false,
        };
        if only_numbers || has_shape(chars, shape.as_slice()) || search_found {
            let found = extract_digits(chars);
            let split: usize = if found.len() < 9 {
                found.len()
            } else {
                9
            };
            let digits_array = to_array::<9>(slice_subrange(found.as_slice(), 0, split));
            let validators_array = to_array::<2>(
                slice_subrange(found.as_slice(), split, found.len()),
            );
            if let Some(digits) = digits_array {
                if let Some(validators) = validators_array {
                    Cpf::new(digits, validators)
                } else {
                    Err(CpfCreationError::CouldNotConvertCpfToDigits)
                }
            } else {
                Err(CpfCreationError::CouldNotConvertCpfToDigits)
            }
        } else {
            Err(CpfCreationError::InvalidCpfStringFormat)
        }
    }

    /// Writes the CPF in the punctuated form `000.000.000-00`.
    ///
    /// The text of a valid CPF reads back as the same CPF.
    pub fn to_string(&self) -> (text: String)
        ensures
            text@ == self.punctuated(),
            self.is_valid() ==> forall|searched: Option<bool>| #[trigger]
                parsed(text@, searched) == Ok::<Seq<u8>, CpfCreationError>(self@),
    {
        let mut text = String::new();
        push_decimal_string(&mut text, slice_subrange(self.digits.as_slice(), 0, 3));
        text.append(".");
        push_decimal_string(&mut text, slice_subrange(self.digits.as_slice(), 3, 6));
        text.append(".");
        push_decimal_string(&mut text, slice_subrange(self.digits.as_slice(), 6, 9));
        text.append("-");
        push_decimal_string(&mut text, self.verifier_digits.as_slice());
        proof {
            reveal_strlit(".");
            reveal_strlit("-");
            assert("."@ =~= seq!['.']);
            assert("-"@ =~= seq!['-']);
            assert(text@ =~= self.punctuated());
            if self.is_valid() {
                lemma_punctuated_round_trip(*self);
            }
        }
        text
    }

    /// Completes the base digits `digits` with the check digits that they
    /// call for.
    ///
    /// Fails with `DigitsOutOfBounds` if any digit is greater than 9, and
    /// never otherwise.
    pub fn from_base_digits(digits: [u8; 9]) -> (made: Result<Cpf, CpfCreationError>)
        ensures
            made is Ok <==> all_decimal(digits@),
            made matches Ok(cpf) ==> cpf.digits == digits && cpf.is_valid(),
            made matches Err(error) ==> error == CpfCreationError::DigitsOutOfBounds,
    {
        let (first, second) = calculate_verifier_digits(digits);
        let verifier_digits: [u8; 2] = [first, second];
        assert(verifier_digits@ =~= seq![first, second]);
        Cpf::new(digits, verifier_digits)
    }

    /// Makes a valid CPF whose base digits are drawn at random, each
    /// uniformly from 0 to 9.
    pub fn sample(rng: &mut StdRng) -> (cpf: Cpf)
        ensures
            cpf.is_valid(),
    {
        let digits_array: [u8; 9] = random_digits::<9>(rng);
        match Cpf::from_base_digits(digits_array) {
            Ok(cpf) => cpf,
            Err(_) => unreached(),
        }
    }

    /// Writes the CPF in digits alone, `00000000000`.
    ///
    /// The text of a valid CPF reads back as the same CPF.
    pub fn to_digit_string(&self) -> (text: String)
        ensures
            text@ == self.unpunctuated(),
            self.is_valid() ==> forall|searched: Option<bool>| #[trigger]
                parsed(text@, searched) == Ok::<Seq<u8>, CpfCreationError>(self@),
    {
        let mut text = String::new();
        push_decimal_string(&mut text, self.digits.as_slice());
        push_decimal_string(&mut text, self.verifier_digits.as_slice());
        proof {
            assert(text@ =~= self.unpunctuated());
            if self.is_valid() {
                lemma_unpunctuated_round_trip(*self);
            }
        }
        text
    }
}

/// Two CPFs with the same eleven digits are the same CPF.
pub proof fn lemma_same_digits_same_cpf(one: Cpf, other: Cpf)
    requires
        one@ == other@,
    ensures
        one == other,
{
    assert(one.digits@ =~= one@.subrange(0, 9));
    assert(other.digits@ =~= other@.subrange(0, 9));
    assert(one.verifier_digits@ =~= one@.subrange(9, 11));
    assert(other.verifier_digits@ =~= other@.subrange(9, 11));
    assert(one.digits =~= other.digits);
    assert(one.verifier_digits =~= other.verifier_digits);
}

/// The check digits of any base digits are decimal digits.
pub proof fn lemma_check_digits_decimal(base: Seq<u8>)
    ensures
        check_digits(base).len() == 2,
        all_decimal(check_digits(base)),
{
}

/// Reading the punctuated writing of a valid CPF gives that CPF back.
pub proof fn lemma_punctuated_round_trip(cpf: Cpf)
    requires
        cpf.is_valid(),
    ensures
        forall|searched: Option<bool>| #[trigger]
            parsed(cpf.punctuated(), searched) == Ok::<Seq<u8>, CpfCreationError>(cpf@),
        forall|made: Result<Cpf, CpfCreationError>|
            outcome(made) == Ok::<Seq<u8>, CpfCreationError>(cpf@) ==> made == Ok::<
                Cpf,
                CpfCreationError,
            >(cpf),
{
    let first = cpf.digits@.subrange(0, 3);
    let second = cpf.digits@.subrange(3, 6);
    let third = cpf.digits@.subrange(6, 9);
    let check = cpf.verifier_digits@;
    let text = cpf.punctuated();
    lemma_check_digits_decimal(cpf.digits@);
    lemma_decimal_string_of_digits(first);
    lemma_decimal_string_of_digits(second);
    lemma_decimal_string_of_digits(third);
    lemma_decimal_string_of_digits(check);
    let a = decimal_string(first);
    let b = a + seq!['.'];
    let c = b + decimal_string(second);
    let d = c + seq!['.'];
    let e = d + decimal_string(third);
    let f = e + seq!['-'];
    assert(text == f + decimal_string(check));
    lemma_digits_of_none(seq!['.']);
    lemma_digits_of_none(seq!['-']);
    lemma_digits_of_concat(a, seq!['.']);
    lemma_digits_of_concat(b, decimal_string(second));
    lemma_digits_of_concat(c, seq!['.']);
    lemma_digits_of_concat(d, decimal_string(third));
    lemma_digits_of_concat(e, seq!['-']);
    lemma_digits_of_concat(f, decimal_string(check));
    assert(digits_of(text) =~= cpf@);
    assert(text.len() == 14);
    assert(!is_digit_char(text[3]));
    assert(!only_digits(text));
    reveal_strlit("###.###.###-##");
    assert(shape().len() == 14);
    assert(fits_shape(text, shape()));
    assert(cpf@.subrange(0, 9) == cpf.digits@);
    assert(cpf@.subrange(9, 11) == cpf.verifier_digits@);
    assert forall|made: Result<Cpf, CpfCreationError>|
        outcome(made) == Ok::<Seq<u8>, CpfCreationError>(cpf@) implies made == Ok::<
        Cpf,
        CpfCreationError,
    >(cpf) by {
        lemma_same_digits_same_cpf(made->Ok_0, cpf);
    }
}

/// Reading the writing in digits alone of a valid CPF gives that CPF back.
pub proof fn lemma_unpunctuated_round_trip(cpf: Cpf)
    requires
        cpf.is_valid(),
    ensures
        forall|searched: Option<bool>| #[trigger]
            parsed(cpf.unpunctuated(), searched) == Ok::<Seq<u8>, CpfCreationError>(cpf@),
        forall|made: Result<Cpf, CpfCreationError>|
            outcome(made) == Ok::<Seq<u8>, CpfCreationError>(cpf@) ==> made == Ok::<
                Cpf,
                CpfCreationError,
            >(cpf),
{
    let text = cpf.unpunctuated();
    lemma_check_digits_decimal(cpf.digits@);
    lemma_decimal_string_of_digits(cpf.digits@);
    lemma_decimal_string_of_digits(cpf.verifier_digits@);
    lemma_digits_of_concat(decimal_string(cpf.digits@), decimal_string(cpf.verifier_digits@));
    assert(text.len() == 11);
    assert(only_digits(text));
    assert(cpf@.subrange(0, 9) == cpf.digits@);
    assert(cpf@.subrange(9, 11) == cpf.verifier_digits@);
    assert forall|made: Result<Cpf, CpfCreationError>|
        outcome(made) == Ok::<Seq<u8>, CpfCreationError>(cpf@) implies made == Ok::<
        Cpf,
        CpfCreationError,
    >(cpf) by {
        lemma_same_digits_same_cpf(made->Ok_0, cpf);
    }
}

} // verus!

//! The legal entity number (CNPJ): eight base digits, four branch digits
//! and two check digits.

use crate::append::ArrayAppend;
use crate::digits::{all_decimal, is_all_decimal, to_array};
use crate::pattern::{regex_search, search};
use crate::random::random_digits;
use crate::text::{
    decimal_string, digits_of, extract_digits, fits_shape, has_shape, is_digit_char,
    is_only_digits, lemma_decimal_string_of_digits, lemma_digits_of_concat, lemma_digits_of_none,
    only_digits, push_decimal_string, to_chars,
};
use crate::Cnpj;
use rand::rngs::StdRng;
use vstd::pervasive::unreached;
use vstd::prelude::*;
use vstd::slice::slice_subrange;
use vstd::string::StringExecFns;

verus! {

/// Why a CNPJ could not be made.
#[derive(Debug, Eq, PartialEq)]
pub enum CnpjCreationError {
    /// The check digits are not those that the other digits call for.
    InvalidCnpjDigits,
    /// The text is written neither as `00.000.000/0000-00` nor as
    /// `00000000000000`.
    InvalidCnpjStringFormat,
    /// The digits found in the text do not make up eight base digits, four
    /// branch digits and two check digits.
    CouldNotConvertCnpjToDigits,
    /// The text holds digits alone, but not fourteen of them.
    ShortCnpjString,
    /// One of the given digits is greater than 9.
    DigitsOutOfBounds,
}

/// Why a check digit could not be calculated.
#[derive(Debug, Eq, PartialEq)]
pub enum DigitCalculationError {
    /// The number of digits given, where it is not one that the calculation
    /// takes.
    WrongAmountOfDigits(usize),
}

/// The multipliers for `amount` digits: counted from the last digit
/// backwards they run 2, 3, and so on to 9, and then begin at 2 again.
pub open spec fn multipliers(amount: nat) -> Seq<u8> {
    Seq::new(amount, |i: int| (2 + (amount - 1 - i) % 8) as u8)
}

/// The sum of the first `count` digits of `digits`, each multiplied by the
/// multiplier of its place.
pub open spec fn weighted_sum(digits: Seq<u8>, count: nat) -> int
    decreases count,
{
    if count == 0 {
        0
    } else {
        weighted_sum(digits, (count - 1) as nat) + digits[count - 1] * multipliers(
            digits.len(),
        )[count - 1]
    }
}

/// The check digit that follows `digits`: 11 less the weighted sum reduced
/// modulo 11, or 0 where that remainder is below 2.
pub open spec fn check_digit(digits: Seq<u8>) -> u8 {
    let pre = weighted_sum(digits, digits.len()) % 11;
    if pre < 2 {
        0u8
    } else {
        (11 - pre) as u8
    }
}

/// The two check digits of base digits `base` with branch digits `branch`:
/// the check digit of the two together, then the check digit of the two
/// followed by the first.
pub open spec fn check_digits(base: Seq<u8>, branch: Seq<u8>) -> Seq<u8> {
    let first = check_digit(base + branch);
    seq![first, check_digit((base + branch).push(first))]
}

/// Calculates the multipliers for `amount` digits.
///
/// They cycle through 2 to 9 from the last place towards the first, so the
/// list always ends in 2.
pub fn get_multiplier_values(amount: usize) -> (values: Vec<u8>)
    ensures
        values@ == multipliers(amount as nat),
{
    let mut cycle: Vec<u8> = Vec::new();
    let mut next: u8 = 2;
    while cycle.len() < amount
        invariant
            cycle@.len() <= amount,
            next == 2 + cycle@.len() % 8,
            forall|k: int| 0 <= k < cycle@.len() ==> #[trigger] cycle@[k] == 2 + k % 8,
        decreases amount - cycle@.len(),
    {
        cycle.push(next);
        next = if next == 9 {
            2
        } else {
            next + 1
        };
    }
    let mut values: Vec<u8> = Vec::new();
    let mut left: usize = amount;
    while left > 0
        invariant
            left <= amount,
            cycle@.len() == amount,
            values@.len() == amount - left,
            forall|k: int| 0 <= k < amount ==> #[trigger] cycle@[k] == 2 + k % 8,
            forall|k: int|
                0 <= k < values@.len() ==> #[trigger] values@[k] == 2 + (amount - 1 - k) % 8,
        decreases left,
    {
        left -= 1;
        values.push(cycle[left]);
    }
    assert(values@ =~= multipliers(amount as nat));
    values
}

/// The check digit that follows the digits of a slice of any length.
fn slice_verifier_digit(digits: &[u8]) -> (digit: u8)
    ensures
        digit == check_digit(digits@),
        digit <= 9,
{
    let length: usize = digits.len();
    let mul_digits: Vec<u8> = get_multiplier_values(length);
    let mut remainder: u32 = 0;
    let mut i: usize = 0;
    while i < length
        invariant
            length == digits@.len(),
            mul_digits@ == multipliers(length as nat),
            i <= length,
            remainder < 11,
            remainder == weighted_sum(digits@, i as nat) % 11,
        decreases length - i,
    {
        let digit: u32 = digits[i] as u32;
        let multiplier: u32 = mul_digits[i] as u32;
        assert(digit * multiplier <= 255 * 9) by (nonlinear_arith)
            requires
                digit <= 255,
                multiplier <= 9,
        ;
        remainder = (remainder + digit * multiplier) % 11;
        i += 1;
    }
    if remainder < 2 {
        0
    } else {
        (11 - remainder) as u8
    }
}

/// Calculates the check digit that follows `cnpj_digits`.
///
/// Given the eight base digits and the four branch digits it yields the
/// first check digit; given those twelve and the first check digit it yields
/// the second. Any other length is handled by the same rule.
pub fn calculate_verifier_digit<const S: usize>(cnpj_digits: [u8; S]) -> (digit: u8)
    ensures
        digit == check_digit(cnpj_digits@),
        digit <= 9,
{
    slice_verifier_digit(cnpj_digits.as_slice())
}

/// Calculates both check digits of the base digits `digits` with the branch
/// digits `branch_digits`.
pub fn calculate_verifier_digits(digits: [u8; 8], branch_digits: [u8; 4]) -> (pair: (u8, u8))
    ensures
        seq![pair.0, pair.1] == check_digits(digits@, branch_digits@),
        pair.0 <= 9,
        pair.1 <= 9,
{
    let mut cnpj_digits: Vec<u8> = digits.append_array::<4>(branch_digits);
    assert(cnpj_digits@ =~= digits@ + branch_digits@);
    let first_digit = slice_verifier_digit(cnpj_digits.as_slice());
    cnpj_digits.push(first_digit);
    let second_digit = slice_verifier_digit(cnpj_digits.as_slice());
    (first_digit, second_digit)
}

/// The text shape of a punctuated CNPJ; `#` stands for one of the digits
/// `0` to `9`.
pub open spec fn shape() -> Seq<char> {
    "##.###.###/####-##"@
}

/// The regular expression of a punctuated CNPJ, from the start of a text to
/// its end, in which a digit may be a decimal digit of any script.
pub open spec fn pattern() -> Seq<char> {
    "^\\d{2}\\.\\d{3}\\.\\d{3}/\\d{4}-\\d{2}$"@
}

/// Whether `text` is a punctuated CNPJ: the whole of it is written in
/// [`shape`], or a search of it for [`pattern`], which returned `searched`,
/// found a match.
pub open spec fn holds_punctuated(text: Seq<char>, searched: Option<bool>) -> bool {
    fits_shape(text, shape()) || searched == Some(true)
}

/// What becomes of base digits `base` and branch digits `branch` offered
/// with check digits `check`: all fourteen digits in order, or the reason
/// for which they are refused.
pub open spec fn validated(base: Seq<u8>, branch: Seq<u8>, check: Seq<u8>) -> Result<
    Seq<u8>,
    CnpjCreationError,
> {
    if !all_decimal(base) || !all_decimal(branch) || !all_decimal(check) {
        Err(CnpjCreationError::DigitsOutOfBounds)
    } else if check != check_digits(base, branch) {
        Err(CnpjCreationError::InvalidCnpjDigits)
    } else {
        Ok(base + branch + check)
    }
}

/// What becomes of `text` read as a CNPJ, where a search of it for
/// [`pattern`] returned `searched`: its fourteen digits in order, or the
/// reason for which it is refused.
pub open spec fn parsed(text: Seq<char>, searched: Option<bool>) -> Result<
    Seq<u8>,
    CnpjCreationError,
> {
    if only_digits(text) && text.len() != 14 {
        Err(CnpjCreationError::ShortCnpjString)
    } else if only_digits(text) || holds_punctuated(text, searched) {
        let found = digits_of(text);
        if found.len() == 14 {
            validated(found.subrange(0, 8), found.subrange(8, 12), found.subrange(12, 14))
        } else {
            Err(CnpjCreationError::CouldNotConvertCnpjToDigits)
        }
    } else {
        Err(CnpjCreationError::InvalidCnpjStringFormat)
    }
}

/// The result of a construction with the CNPJ replaced by its digits.
pub open spec fn outcome(made: Result<Cnpj, CnpjCreationError>) -> Result<
    Seq<u8>,
    CnpjCreationError,
> {
    match made {
        Ok(cnpj) => Ok(cnpj@),
        Err(error) => Err(error),
    }
}

impl View for Cnpj {
    type V = Seq<u8>;

    /// All fourteen digits: the base digits, the branch digits, then the
    /// check digits.
    open spec fn view(&self) -> Seq<u8> {
        self.digits@ + self.branch_digits@ + self.verifier_digits@
    }
}

impl Cnpj {
    /// Whether every base and branch digit is a decimal digit and the check
    /// digits are those that the other digits call for.
    pub open spec fn is_valid(&self) -> bool {
        &&& all_decimal(self.digits@)
        &&& all_decimal(self.branch_digits@)
        &&& self.verifier_digits@ == check_digits(self.digits@, self.branch_digits@)
    }

    /// The punctuated writing, `00.000.000/0000-00`: the base digits as
    /// two, three and three with points between them, then a slash and the
    /// branch digits, then a hyphen and the check digits.
    pub open spec fn punctuated(&self) -> Seq<char> {
        decimal_string(self.digits@.subrange(0, 2)) + seq!['.'] + decimal_string(
            self.digits@.subrange(2, 5),
        ) + seq!['.'] + decimal_string(self.digits@.subrange(5, 8)) + seq!['/'] + decimal_string(
            self.branch_digits@,
        ) + seq!['-'] + decimal_string(self.verifier_digits@)
    }

    /// The writing in digits alone, `00000000000000`: the base digits, the
    /// branch digits, then the check digits.
    pub open spec fn unpunctuated(&self) -> Seq<char> {
        decimal_string(self.digits@) + decimal_string(self.branch_digits@) + decimal_string(
            self.verifier_digits@,
        )
    }

    /// Creates a CNPJ from its base digits, its branch digits and its check
    /// digits.
    ///
    /// Fails with `DigitsOutOfBounds` if any digit is greater than 9, and
    /// with `InvalidCnpjDigits` if the check digits are not the ones
    /// calculated from the other digits.
    pub fn new(digits: [u8; 8], branch_digits: [u8; 4], verifier_digits: [u8; 2]) -> (made: Result<
        Cnpj,
        CnpjCreationError,
    >)
        ensures
            outcome(made) == validated(digits@, branch_digits@, verifier_digits@),
            all_decimal(digits@) && all_decimal(branch_digits@) && all_decimal(verifier_digits@)
                ==> (made is Ok <==> verifier_digits@ == check_digits(digits@, branch_digits@)),
            made matches Ok(cnpj) ==> cnpj.digits == digits && cnpj.branch_digits == branch_digits
                && cnpj.verifier_digits == verifier_digits && cnpj.is_valid(),
    {
        let digits_is_valid = is_all_decimal(digits.as_slice());
        let branch_digits_is_valid = is_all_decimal(branch_digits.as_slice());
        let verifier_digits_is_valid = is_all_decimal(verifier_digits.as_slice());
        if !digits_is_valid || !branch_digits_is_valid || !verifier_digits_is_valid {
            return Err(CnpjCreationError::DigitsOutOfBounds);
        }
        let (first_verifier_digit, second_verifier_digit) = calculate_verifier_digits(
            digits,
            branch_digits,
        );
        if first_verifier_digit != verifier_digits[0] || second_verifier_digit
            != verifier_digits[1] {
            Err(CnpjCreationError::InvalidCnpjDigits)
        } else {
            assert(verifier_digits@ =~= seq![first_verifier_digit, second_verifier_digit]);
            Ok(Cnpj { digits, branch_digits, verifier_digits })
        }
    }

    /// Reads a CNPJ from text written as `00.000.000/0000-00` or as
    /// `00000000000000`.
    ///
    /// Text made of digits alone must hold fourteen of them, or it fails
    /// with `ShortCnpjString`. Other text must be in the punctuated form
    /// from its first character to its last, or it fails with
    /// `InvalidCnpjStringFormat`; a form written with the decimal digits of
    /// another script is found by a search for the regular expression
    /// [`pattern`]. The digits `0` to `9` of the text are then taken in
    /// order: unless they are fourteen, as they are not where the form is
    /// written in another script, reading fails with
    /// `CouldNotConvertCnpjToDigits`; the first eight are the base digits,
    /// the next four the branch digits and the last two the check digits,
    /// which are held to the rules of [`Cnpj::new`].
    pub fn parse_str(cnpj: &str) -> (made: Result<Cnpj, CnpjCreationError>)
        ensures
            outcome(made) == parsed(cnpj@, regex_search(pattern(), cnpj@)),
            made matches Ok(read) ==> read.is_valid(),
            only_digits(cnpj@) && cnpj@.len() != 14 ==> made == Err::<Cnpj, CnpjCreationError>(
                CnpjCreationError::ShortCnpjString,
            ),
            !only_digits(cnpj@) && !holds_punctuated(cnpj@, regex_search(pattern(), cnpj@))
                ==> made == Err::<Cnpj, CnpjCreationError>(
                CnpjCreationError::InvalidCnpjStringFormat,
            ),
    {
        let chars = to_chars(cnpj);
        let shape = to_chars("##.###.###/####-##");
        let searched = if is_only_digits(chars.as_slice()) || has_shape(
            chars.as_slice(),
            shape.as_slice(),
        ) {
            None
        } else {
            search("^\\d{2}\\.\\d{3}\\.\\d{3}/\\d{4}-\\d{2}$", cnpj)
        };
        Cnpj::parse_chars(chars.as_slice(), searched)
    }

    /// Reads a CNPJ from the characters of a text, given in `searched` what
    /// a search of that text for [`pattern`] returned.
    ///
    /// The rules are those of [`Cnpj::parse_str`]. What `searched` holds
    /// bears on the result only where the text is neither made of digits
    /// alone nor in the punctuated form written with the digits `0` to `9`.
    pub fn parse_chars(chars: &[char], searched: Option<bool>) -> (made: Result<
        Cnpj,
        CnpjCreationError,
    >)
        ensures
            outcome(made) == parsed(chars@, searched),
            made matches Ok(read) ==> read.is_valid(),
            only_digits(chars@) && chars@.len() != 14 ==> made == Err::<Cnpj, CnpjCreationError>(
                CnpjCreationError::ShortCnpjString,
            ),
            !only_digits(chars@) && !holds_punctuated(chars@, searched) ==> made == Err::<
                Cnpj,
                CnpjCreationError,
            >(CnpjCreationError::InvalidCnpjStringFormat),
    {
        let only_numbers = is_only_digits(chars);
        if only_numbers && chars.len() != 14 {
            return Err(CnpjCreationError::ShortCnpjString);
        }
        let shape = to_chars("##.###.###/####-##");
        let search_found = match searched {
            Some(found) => found,
            None => false,
        };
        if only_numbers || has_shape(chars, shape.as_slice()) || search_found {
            let found = extract_digits(chars);
            let count: usize = found.len();
            let first_split: usize = if count < 8 {
                count
            } else {
                8
            };
            let second_split: usize = if count < 12 {
                count
            } else {
                12
            };
            let digits_array = to_array::<8>(slice_subrange(found.as_slice(), 0, first_split));
            let branch_digits_array = to_array::<4>(
                slice_subrange(found.as_slice(), first_split, second_split),
            );
            let validators_array = to_array::<2>(
                slice_subrange(found.as_slice(), second_split, count),
            );
            if let Some(digits) = digits_array {
                if let Some(validators) = validators_array {
                    if let Some(branch_digits) = branch_digits_array {
                        Cnpj::new(digits, branch_digits, validators)
                    } else {
                        Err(CnpjCreationError::CouldNotConvertCnpjToDigits)
                    }
                } else {
                    Err(CnpjCreationError::CouldNotConvertCnpjToDigits)
                }
            } else {
                Err(CnpjCreationError::CouldNotConvertCnpjToDigits)
            }
        } else {
            Err(CnpjCreationError::InvalidCnpjStringFormat)
        }
    }

    /// Writes the CNPJ in the punctuated form `00.000.000/0000-00`.
    ///
    /// The text of a valid CNPJ reads back as the same CNPJ.
    pub fn to_string(&self) -> (text: String)
        ensures
            text@ == self.punctuated(),
            self.is_valid() ==> forall|searched: Option<bool>| #[trigger]
                parsed(text@, searched) == Ok::<Seq<u8>, CnpjCreationError>(self@),
    {
        let mut text = String::new();
        push_decimal_string(&mut text, slice_subrange(self.digits.as_slice(), 0, 2));
        text.append(".");
        push_decimal_string(&mut text, slice_subrange(self.digits.as_slice(), 2, 5));
        text.append(".");
        push_decimal_string(&mut text, slice_subrange(self.digits.as_slice(), 5, 8));
        text.append("/");
        push_decimal_string(&mut text, self.branch_digits.as_slice());
        text.append("-");
        push_decimal_string(&mut text, self.verifier_digits.as_slice());
        proof {
            reveal_strlit(".");
            reveal_strlit("/");
            reveal_strlit("-");
            assert("."@ =~= seq!['.']);
            assert("/"@ =~= seq!['/']);
            assert("-"@ =~= seq!['-']);
            assert(text@ =~= self.punctuated());
            if self.is_valid() {
                lemma_punctuated_round_trip(*self);
            }
        }
        text
    }

    /// Completes the base digits `digits` and the branch digits
    /// `branch_digits` with the check digits that they call for.
    ///
    /// Fails with `DigitsOutOfBounds` if any digit is greater than 9, and
    /// never otherwise.
    pub fn from_base_digits(digits: [u8; 8], branch_digits: [u8; 4]) -> (made: Result<
        Cnpj,
        CnpjCreationError,
    >)
        ensures
            made is Ok <==> all_decimal(digits@) && all_decimal(branch_digits@),
            made matches Ok(cnpj) ==> cnpj.digits == digits && cnpj.branch_digits == branch_digits
                && cnpj.is_valid(),
            made matches Err(error) ==> error == CnpjCreationError::DigitsOutOfBounds,
    {
        let (first, second) = calculate_verifier_digits(digits, branch_digits);
        let verifier_digits: [u8; 2] = [first, second];
        assert(verifier_digits@ =~= seq![first, second]);
        Cnpj::new(digits, branch_digits, verifier_digits)
    }

    /// Makes a valid CNPJ whose base digits and branch digits are drawn at
    /// random, each uniformly from 0 to 9.
    pub fn sample(rng: &mut StdRng) -> (cnpj: Cnpj)
        ensures
            cnpj.is_valid(),
    {
        let digits_array: [u8; 8] = random_digits::<8>(rng);
        let branch_digits_array: [u8; 4] = random_digits::<4>(rng);
        match Cnpj::from_base_digits(digits_array, branch_digits_array) {
            Ok(cnpj) => cnpj,
            Err(_) => unreached(),
        }
    }

    /// Writes the CNPJ in digits alone, `00000000000000`.
    ///
    /// The text of a valid CNPJ reads back as the same CNPJ.
    pub fn to_digit_string(&self) -> (text: String)
        ensures
            text@ == self.unpunctuated(),
            self.is_valid() ==> forall|searched: Option<bool>| #[trigger]
                parsed(text@, searched) == Ok::<Seq<u8>, CnpjCreationError>(self@),
    {
        let mut text = String::new();
        push_decimal_string(&mut text, self.digits.as_slice());
        push_decimal_string(&mut text, self.branch_digits.as_slice());
        push_decimal_string(&mut text, self.verifier_digits.as_slice());
        proof {
            assert(text@ =~= self.unpunctuated());
            if self.is_valid() {
                lemma_unpunctuated_round_trip(*self);
            }
        }
        text
    }
}

/// Two CNPJs with the same fourteen digits are the same CNPJ.
pub proof fn lemma_same_digits_same_cnpj(one: Cnpj, other: Cnpj)
    requires
        one@ == other@,
    ensures
        one == other,
{
    assert(one.digits@ =~= one@.subrange(0, 8));
    assert(other.digits@ =~= other@.subrange(0, 8));
    assert(one.branch_digits@ =~= one@.subrange(8, 12));
    assert(other.branch_digits@ =~= other@.subrange(8, 12));
    assert(one.verifier_digits@ =~= one@.subrange(12, 14));
    assert(other.verifier_digits@ =~= other@.subrange(12, 14));
    assert(one.digits =~= other.digits);
    assert(one.branch_digits =~= other.branch_digits);
    assert(one.verifier_digits =~= other.verifier_digits);
}

/// The check digits of any digits are decimal digits.
pub proof fn lemma_check_digits_decimal(base: Seq<u8>, branch: Seq<u8>)
    ensures
        check_digits(base, branch).len() == 2,
        all_decimal(check_digits(base, branch)),
{
}

/// Reading the punctuated writing of a valid CNPJ gives that CNPJ back.
pub proof fn lemma_punctuated_round_trip(cnpj: Cnpj)
    requires
        cnpj.is_valid(),
    ensures
        forall|searched: Option<bool>| #[trigger]
            parsed(cnpj.punctuated(), searched) == Ok::<Seq<u8>, CnpjCreationError>(cnpj@),
        forall|made: Result<Cnpj, CnpjCreationError>|
            outcome(made) == Ok::<Seq<u8>, CnpjCreationError>(cnpj@) ==> made == Ok::<
                Cnpj,
                CnpjCreationError,
            >(cnpj),
{
    let first = cnpj.digits@.subrange(0, 2);
    let second = cnpj.digits@.subrange(2, 5);
    let third = cnpj.digits@.subrange(5, 8);
    let branch = cnpj.branch_digits@;
    let check = cnpj.verifier_digits@;
    let text = cnpj.punctuated();
    lemma_check_digits_decimal(cnpj.digits@, branch);
    lemma_decimal_string_of_digits(first);
    lemma_decimal_string_of_digits(second);
    lemma_decimal_string_of_digits(third);
    lemma_decimal_string_of_digits(branch);
    lemma_decimal_string_of_digits(check);
    let a = decimal_string(first);
    let b = a + seq!['.'];
    let c = b + decimal_string(second);
    let d = c + seq!['.'];
    let e = d + decimal_string(third);
    let f = e + seq!['/'];
    let g = f + decimal_string(branch);
    let h = g + seq!['-'];
    assert(text == h + decimal_string(check));
    lemma_digits_of_none(seq!['.']);
    lemma_digits_of_none(seq!['/']);
    lemma_digits_of_none(seq!['-']);
    lemma_digits_of_concat(a, seq!['.']);
    lemma_digits_of_concat(b, decimal_string(second));
    lemma_digits_of_concat(c, seq!['.']);
    lemma_digits_of_concat(d, decimal_string(third));
    lemma_digits_of_concat(e, seq!['/']);
    lemma_digits_of_concat(f, decimal_string(branch));
    lemma_digits_of_concat(g, seq!['-']);
    lemma_digits_of_concat(h, decimal_string(check));
    assert(digits_of(text) =~= cnpj@);
    assert(text.len() == 18);
    assert(!is_digit_char(text[2]));
    assert(!only_digits(text));
    reveal_strlit("##.###.###/####-##");
    assert(shape().len() == 18);
    assert(fits_shape(text, shape()));
    assert(cnpj@.subrange(0, 8) == cnpj.digits@);
    assert(cnpj@.subrange(8, 12) == cnpj.branch_digits@);
    assert(cnpj@.subrange(12, 14) == cnpj.verifier_digits@);
    assert forall|made: Result<Cnpj, CnpjCreationError>|
        outcome(made) == Ok::<Seq<u8>, CnpjCreationError>(cnpj@) implies made == Ok::<
        Cnpj,
        CnpjCreationError,
    >(cnpj) by {
        lemma_same_digits_same_cnpj(made->Ok_0, cnpj);
    }
}

/// Reading the writing in digits alone of a valid CNPJ gives that CNPJ
/// back.
pub proof fn lemma_unpunctuated_round_trip(cnpj: Cnpj)
    requires
        cnpj.is_valid(),
    ensures
        forall|searched: Option<bool>| #[trigger]
            parsed(cnpj.unpunctuated(), searched) == Ok::<Seq<u8>, CnpjCreationError>(cnpj@),
        forall|made: Result<Cnpj, CnpjCreationError>|
            outcome(made) == Ok::<Seq<u8>, CnpjCreationError>(cnpj@) ==> made == Ok::<
                Cnpj,
                CnpjCreationError,
            >(cnpj),
{
    let text = cnpj.unpunctuated();
    lemma_check_digits_decimal(cnpj.digits@, cnpj.branch_digits@);
    lemma_decimal_string_of_digits(cnpj.digits@);
    lemma_decimal_string_of_digits(cnpj.branch_digits@);
    lemma_decimal_string_of_digits(cnpj.verifier_digits@);
    lemma_digits_of_concat(decimal_string(cnpj.digits@), decimal_string(cnpj.branch_digits@));
    lemma_digits_of_concat(
        decimal_string(cnpj.digits@) + decimal_string(cnpj.branch_digits@),
        decimal_string(cnpj.verifier_digits@),
    );
    assert(text.len() == 14);
    assert(only_digits(text));
    assert(cnpj@.subrange(0, 8) == cnpj.digits@);
    assert(cnpj@.subrange(8, 12) == cnpj.branch_digits@);
    assert(cnpj@.subrange(12, 14) == cnpj.verifier_digits@);
    assert forall|made: Result<Cnpj, CnpjCreationError>|
        outcome(made) == Ok::<Seq<u8>, CnpjCreationError>(cnpj@) implies made == Ok::<
        Cnpj,
        CnpjCreationError,
    >(cnpj) by {
        lemma_same_digits_same_cnpj(made->Ok_0, cnpj);
    }
}

/// The branch of a legal entity: the four digits that tell its registered
/// units apart, `0000` to `9999`.
#[derive(Debug, Eq, PartialEq, Hash)]
pub struct Branch([u8; 4]);

/// The refusal of a branch number outside `0..=9999`, or of a branch digit
/// greater than 9.
#[derive(Debug, Eq, PartialEq, Hash, Clone)]
pub struct InvalidBranchNumber;

/// The four decimal digits that write `number`, with leading zeros.
pub open spec fn branch_digits_of(number: nat) -> Seq<u8>
    recommends
        number <= 9999,
{
    seq![
        (number / 1000) as u8,
        ((number / 100) % 10) as u8,
        ((number / 10) % 10) as u8,
        (number % 10) as u8,
    ]
}

/// The digits that write a number below 10000 are decimal digits, they are
/// found by peeling off thousands, hundreds and tens in turn, and the number
/// is their sum by place value.
pub proof fn lemma_branch_digits_of(number: nat)
    requires
        number <= 9999,
    ensures
        all_decimal(branch_digits_of(number)),
        (number % 1000) / 100 == (number / 100) % 10,
        ((number % 1000) % 100) / 10 == (number / 10) % 10,
        ((number % 1000) % 100) % 10 == number % 10,
        branch_digits_of(number)[0] * 1000 + branch_digits_of(number)[1] * 100 + branch_digits_of(
            number,
        )[2] * 10 + branch_digits_of(number)[3] == number,
{
    let thousands = number / 1000;
    let below_thousand = number % 1000;
    let hundreds = below_thousand / 100;
    let below_hundred = below_thousand % 100;
    let tens = below_hundred / 10;
    let units = below_hundred % 10;
    assert(number == thousands * 1000 + below_thousand);
    assert(below_thousand == hundreds * 100 + below_hundred);
    assert(below_hundred == tens * 10 + units);
    assert(number / 100 == thousands * 10 + hundreds);
    assert(number / 10 == thousands * 100 + hundreds * 10 + tens);
    assert(number % 10 == units);
    assert((number / 100) % 10 == hundreds);
    assert((number / 10) % 10 == tens);
}

impl Clone for Branch {
    fn clone(&self) -> (copy: Self)
        ensures
            copy == *self,
    {
        proof {
            use_type_invariant(self);
        }
        Branch(self.0)
    }
}

impl View for Branch {
    type V = Seq<u8>;

    /// The four digits of the branch.
    closed spec fn view(&self) -> Seq<u8> {
        self.0@
    }
}

impl Branch {
    /// Every digit of a branch is a decimal digit.
    #[verifier::type_invariant]
    spec fn all_digits_decimal(self) -> bool {
        all_decimal(self.0@)
    }

    /// The branch of the first registered unit of an entity, `0001`.
    pub fn first() -> (branch: Branch)
        ensures
            branch@ == seq![0u8, 0u8, 0u8, 1u8],
    {
        let branch_digits: [u8; 4] = [0, 0, 0, 1];
        assert(branch_digits@ =~= seq![0u8, 0u8, 0u8, 1u8]);
        Branch(branch_digits)
    }

    /// Creates a branch from its four digits.
    ///
    /// Fails if any of them is greater than 9.
    pub fn new(branch_digits: [u8; 4]) -> (made: Result<Branch, InvalidBranchNumber>)
        ensures
            made is Ok <==> all_decimal(branch_digits@),
            made matches Ok(branch) ==> branch@ == branch_digits@,
    {
        let mut i: usize = 0;
        while i < 4
            invariant
                i <= 4,
                forall|k: int| 0 <= k < i ==> #[trigger] branch_digits@[k] <= 9,
            decreases 4 - i,
        {
            if branch_digits[i] > 9 {
                return Err(InvalidBranchNumber);
            }
            i += 1;
        }
        Ok(Branch(branch_digits))
    }

    /// Creates a branch from its number.
    ///
    /// Fails if the number is greater than 9999.
    pub fn from_u8(branch_number: u16) -> (made: Result<Branch, InvalidBranchNumber>)
        ensures
            made is Ok <==> branch_number <= 9999,
            made matches Ok(branch) ==> {
                &&& branch@ == branch_digits_of(branch_number as nat)
                &&& all_decimal(branch@)
                &&& branch@[0] * 1000 + branch@[1] * 100 + branch@[2] * 10 + branch@[3]
                    == branch_number
            },
    {
        if branch_number > 9999 {
            return Err(InvalidBranchNumber);
        }
        proof {
            lemma_branch_digits_of(branch_number as nat);
        }
        let first_digit = (branch_number / 1000) as u8;
        let second_digit = ((branch_number % 1000) / 100) as u8;
        let third_digit = (((branch_number % 1000) % 100) / 10) as u8;
        let fourth_digit = (((branch_number % 1000) % 100) % 10) as u8;
        let branch_digits: [u8; 4] = [first_digit, second_digit, third_digit, fourth_digit];
        assert(branch_digits@ =~= branch_digits_of(branch_number as nat));
        Branch::new(branch_digits)
    }

    /// The four digits of the branch.
    pub fn digits(&self) -> (branch_digits: [u8; 4])
        ensures
            branch_digits@ == self@,
            all_decimal(branch_digits@),
    {
        proof {
            use_type_invariant(self);
        }
        self.0
    }

    /// Writes the four digits of the branch, one after the other.
    pub fn to_string(&self) -> (text: String)
        ensures
            text@ == decimal_string(self@),
    {
        let mut text = String::new();
        push_decimal_string(&mut text, self.0.as_slice());
        assert(text@ =~= decimal_string(self@));
        text
    }

    /// Makes a valid CNPJ of this branch whose base digits are drawn at
    /// random, each uniformly from 0 to 9.
    pub fn sample(&self, rng: &mut StdRng) -> (cnpj: Cnpj)
        ensures
            cnpj.is_valid(),
            cnpj.branch_digits@ == self@,
    {
        proof {
            use_type_invariant(self);
        }
        let digits_array: [u8; 8] = random_digits::<8>(rng);
        match Cnpj::from_base_digits(digits_array, self.0) {
            Ok(cnpj) => cnpj,
            Err(_) => unreached(),
        }
    }
}

} // verus!

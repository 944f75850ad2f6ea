use regex::Regex;
use validbr::cnpj::CnpjCreationError;
use validbr::cpf::CpfCreationError;
use validbr::text::{extract_digits, has_shape, is_only_digits, to_chars};
use validbr::{Cnpj, Cpf};

/// Test texts over an alphabet that is rich in digits, in the punctuation
/// of both forms and in decimal digits of other scripts: every text one
/// edit away from a few well-formed ones, and some thousands drawn by a
/// fixed sequence.
fn texts() -> Vec<String> {
    let seeds = [
        "123.456.789-09",
        "12345678909",
        "53.871.143/0001-35",
        "53871143000135",
        "\u{661}\u{662}\u{663}.\u{664}\u{665}\u{666}.\u{667}\u{668}\u{669}-\u{660}\u{669}",
        "",
    ];
    texts_around(&seeds, "0123456789.-/ x\u{663}\u{ff11}", 3000)
}

fn texts_around(seeds: &[&str], letters: &str, drawn: usize) -> Vec<String> {
    let alphabet: Vec<char> = letters.chars().collect();
    let mut state: u64 = 0x2545_f491_4f6c_dd1d;
    let mut out: Vec<String> = Vec::new();
    for seed in seeds {
        out.push(seed.to_string());
        let chars: Vec<char> = seed.chars().collect();
        for position in 0..=chars.len() {
            for extra in &alphabet {
                let mut longer = chars.clone();
                longer.insert(position, *extra);
                out.push(longer.iter().collect());
            }
            if position < chars.len() {
                let mut shorter = chars.clone();
                shorter.remove(position);
                out.push(shorter.iter().collect());
                for other in &alphabet {
                    let mut changed = chars.clone();
                    changed[position] = *other;
                    out.push(changed.iter().collect());
                }
            }
        }
    }
    for _ in 0..drawn {
        state ^= state << 13;
        state ^= state >> 7;
        state ^= state << 17;
        let length = (state % 24) as usize;
        let mut text = String::new();
        let mut bits = state;
        for _ in 0..length {
            bits ^= bits << 13;
            bits ^= bits >> 7;
            bits ^= bits << 17;
            text.push(alphabet[(bits % alphabet.len() as u64) as usize]);
        }
        out.push(text);
    }
    out
}

fn stripped_digits(not_numbers: &Regex, text: &str) -> Vec<u8> {
    not_numbers
        .replace_all(text, "")
        .bytes()
        .map(|b| b - b'0')
        .collect()
}

/// The three patterns that the rules of reading are written with.
struct Patterns {
    only_numbers: Regex,
    not_numbers: Regex,
    well_formatted: Regex,
}

fn patterns(well_formatted: &str) -> Patterns {
    Patterns {
        only_numbers: Regex::new(r"^[0-9]+$").unwrap(),
        not_numbers: Regex::new(r"[^0-9]+").unwrap(),
        well_formatted: Regex::new(well_formatted).unwrap(),
    }
}

/// The rules of reading a CPF, written with regular expressions alone.
fn cpf_by_patterns(by: &Patterns, text: &str) -> Result<Cpf, CpfCreationError> {
    if by.only_numbers.is_match(text) && text.len() != 11 {
        return Err(CpfCreationError::ShortCpfString);
    }
    if by.only_numbers.is_match(text) || by.well_formatted.is_match(text) {
        let d = stripped_digits(&by.not_numbers, text);
        if d.len() != 11 {
            return Err(CpfCreationError::CouldNotConvertCpfToDigits);
        }
        Cpf::new(
            [d[0], d[1], d[2], d[3], d[4], d[5], d[6], d[7], d[8]],
            [d[9], d[10]],
        )
    } else {
        Err(CpfCreationError::InvalidCpfStringFormat)
    }
}

/// The rules of reading a CNPJ, written with regular expressions alone.
fn cnpj_by_patterns(by: &Patterns, text: &str) -> Result<Cnpj, CnpjCreationError> {
    if by.only_numbers.is_match(text) && text.len() != 14 {
        return Err(CnpjCreationError::ShortCnpjString);
    }
    if by.only_numbers.is_match(text) || by.well_formatted.is_match(text) {
        let d = stripped_digits(&by.not_numbers, text);
        if d.len() != 14 {
            return Err(CnpjCreationError::CouldNotConvertCnpjToDigits);
        }
        Cnpj::new(
            [d[0], d[1], d[2], d[3], d[4], d[5], d[6], d[7]],
            [d[8], d[9], d[10], d[11]],
            [d[12], d[13]],
        )
    } else {
        Err(CnpjCreationError::InvalidCnpjStringFormat)
    }
}

#[test]
fn only_digits_agrees_with_the_anchored_digit_pattern() {
    let only_numbers = Regex::new(r"^[0-9]+$").unwrap();
    for text in texts() {
        assert_eq!(
            is_only_digits(&to_chars(&text)),
            only_numbers.is_match(&text),
            "{:?}",
            text
        );
    }
}

#[test]
fn extracted_digits_agree_with_removing_what_is_no_digit() {
    let not_numbers = Regex::new(r"[^0-9]+").unwrap();
    for text in texts() {
        assert_eq!(
            extract_digits(&to_chars(&text)),
            stripped_digits(&not_numbers, &text),
            "{:?}",
            text
        );
    }
}

#[test]
fn shapes_agree_with_the_anchored_patterns_over_the_ten_digits() {
    let cpf = Regex::new(r"^[0-9]{3}\.[0-9]{3}\.[0-9]{3}-[0-9]{2}$").unwrap();
    let cnpj = Regex::new(r"^[0-9]{2}\.[0-9]{3}\.[0-9]{3}/[0-9]{4}-[0-9]{2}$").unwrap();
    let cpf_shape = to_chars("###.###.###-##");
    let cnpj_shape = to_chars("##.###.###/####-##");
    for text in texts() {
        let chars = to_chars(&text);
        assert_eq!(has_shape(&chars, &cpf_shape), cpf.is_match(&text), "{:?}", text);
        assert_eq!(has_shape(&chars, &cnpj_shape), cnpj.is_match(&text), "{:?}", text);
    }
}

#[test]
fn shapes_are_matched_by_the_anchored_patterns_of_any_script() {
    let cpf = Regex::new(r"^\d{3}\.\d{3}\.\d{3}-\d{2}$").unwrap();
    let cnpj = Regex::new(r"^\d{2}\.\d{3}\.\d{3}/\d{4}-\d{2}$").unwrap();
    let cpf_shape = to_chars("###.###.###-##");
    let cnpj_shape = to_chars("##.###.###/####-##");
    for text in texts() {
        let chars = to_chars(&text);
        assert!(!has_shape(&chars, &cpf_shape) || cpf.is_match(&text), "{:?}", text);
        assert!(!has_shape(&chars, &cnpj_shape) || cnpj.is_match(&text), "{:?}", text);
    }
}

#[test]
fn reading_a_cpf_agrees_with_the_patterns() {
    let seeds = [
        "123.456.789-09",
        "12345678909",
        "\u{661}\u{662}\u{663}.\u{664}\u{665}\u{666}.\u{667}\u{668}\u{669}-\u{660}\u{669}",
    ];
    let by = patterns(r"^\d{3}\.\d{3}\.\d{3}-\d{2}$");
    let mut accepted = 0;
    let mut unconverted = 0;
    for text in texts_around(&seeds, "09.-/ x\u{663}", 300) {
        let read = Cpf::parse_str(&text);
        assert_eq!(read, cpf_by_patterns(&by, &text), "{:?}", text);
        if read.is_ok() {
            accepted += 1;
        }
        if read == Err(CpfCreationError::CouldNotConvertCpfToDigits) {
            unconverted += 1;
        }
    }
    assert!(accepted >= 2);
    assert!(unconverted >= 2);
}

#[test]
fn reading_a_cnpj_agrees_with_the_patterns() {
    let seeds = [
        "53.871.143/0001-35",
        "53871143000135",
        "\u{665}\u{663}.\u{668}\u{667}\u{661}.\u{661}\u{664}\u{663}/\u{660}\u{660}\u{660}\u{661}-\u{663}\u{665}",
    ];
    let by = patterns(r"^\d{2}\.\d{3}\.\d{3}/\d{4}-\d{2}$");
    let mut accepted = 0;
    let mut unconverted = 0;
    for text in texts_around(&seeds, "09.-/ x\u{663}", 300) {
        let read = Cnpj::parse_str(&text);
        assert_eq!(read, cnpj_by_patterns(&by, &text), "{:?}", text);
        if read.is_ok() {
            accepted += 1;
        }
        if read == Err(CnpjCreationError::CouldNotConvertCnpjToDigits) {
            unconverted += 1;
        }
    }
    assert!(accepted >= 2);
    assert!(unconverted >= 2);
}

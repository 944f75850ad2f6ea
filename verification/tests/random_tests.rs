use validbr::cnpj::Branch;
use validbr::random::random_digits;
use rand::rngs::StdRng;
use rand::SeedableRng;
use validbr::{Cnpj, Cpf};

#[test]
fn random_cpf() {
    let mut rng = StdRng::from_entropy();
    let cpf: Cpf = Cpf::sample(&mut rng);
    let verifier = validbr::cpf::calculate_verifier_digits(cpf.digits);
    assert_eq!(verifier.0, cpf.verifier_digits[0]);
    assert_eq!(verifier.1, cpf.verifier_digits[1]);
}

#[test]
fn random_cnpj() {
    let mut rng = StdRng::from_entropy();
    let cnpj: Cnpj = Cnpj::sample(&mut rng);
    let verifier = validbr::cnpj::calculate_verifier_digits(cnpj.digits, cnpj.branch_digits);
    assert_eq!(verifier.0, cnpj.verifier_digits[0]);
    assert_eq!(verifier.1, cnpj.verifier_digits[1]);
}

#[test]
fn random_cnpj_with_specific_branch() {
    let mut rng = StdRng::from_entropy();
    let branch = Branch::from_u8(0012).unwrap();
    let cnpj: Cnpj = branch.sample(&mut rng);

    assert_eq!([0, 0, 1, 2], cnpj.branch_digits);

    let verifier = validbr::cnpj::calculate_verifier_digits(cnpj.digits, cnpj.branch_digits);
    assert_eq!(verifier.0, cnpj.verifier_digits[0]);
    assert_eq!(verifier.1, cnpj.verifier_digits[1]);
}

#[test]
fn random_digits_are_decimal_and_vary() {
    let mut rng = StdRng::from_entropy();
    let digits = random_digits::<256>(&mut rng);
    assert!(digits.iter().all(|d| *d <= 9));
    assert!(digits.iter().any(|d| *d != digits[0]));
    assert!(digits.iter().any(|d| *d != 0));
    assert!(digits.iter().any(|d| *d != 9));
}

#[test]
fn random_cpfs_are_valid_and_vary() {
    let mut rng = StdRng::from_entropy();
    let first = Cpf::sample(&mut rng);
    let mut differs = false;
    for _ in 0..64 {
        let cpf = Cpf::sample(&mut rng);
        assert_eq!(Cpf::new(cpf.digits, cpf.verifier_digits), Ok(cpf.clone()));
        assert_eq!(Cpf::parse_str(&cpf.to_string()), Ok(cpf.clone()));
        differs = differs || cpf != first;
    }
    assert!(differs);
}

#[test]
fn random_cnpjs_are_valid_and_vary() {
    let mut rng = StdRng::from_entropy();
    let first = Cnpj::sample(&mut rng);
    let mut differs = false;
    for _ in 0..64 {
        let cnpj = Cnpj::sample(&mut rng);
        assert_eq!(
            Cnpj::new(cnpj.digits, cnpj.branch_digits, cnpj.verifier_digits),
            Ok(cnpj.clone())
        );
        assert_eq!(Cnpj::parse_str(&cnpj.to_string()), Ok(cnpj.clone()));
        differs = differs || cnpj != first;
    }
    assert!(differs);
}

#[test]
fn random_digits_follow_from_the_seed() {
    let mut one = StdRng::seed_from_u64(2021);
    let mut other = StdRng::seed_from_u64(2021);
    assert_eq!(random_digits::<32>(&mut one), random_digits::<32>(&mut other));
    assert_eq!(Cpf::sample(&mut one), Cpf::sample(&mut other));
    assert_eq!(Cnpj::sample(&mut one), Cnpj::sample(&mut other));
}

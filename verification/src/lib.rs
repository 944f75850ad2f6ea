//! Brazilian registry identifiers with verified check digits.
//!
//! A [`Cpf`] or a [`Cnpj`] that was built by one of the constructors of this
//! crate carries check digits that agree with its other digits.

use vstd::prelude::*;

pub mod append;
pub mod cnpj;
pub mod cpf;
pub mod digits;
pub mod pattern;
pub mod random;
pub mod rg;
pub mod text;

verus! {

/// The individual taxpayer number: nine base digits and two check digits,
/// written `123.456.789-09`.
#[derive(Debug, Eq, PartialEq, Hash, Clone)]
pub struct Cpf {
    /// The nine base digits.
    pub digits: [u8; 9],
    /// The two check digits.
    pub verifier_digits: [u8; 2],
}

/// The legal entity number: eight base digits, four branch digits and two
/// check digits, written `12.345.678/0001-95`.
#[derive(Debug, Eq, PartialEq, Hash, Clone)]
pub struct Cnpj {
    /// The eight base digits.
    pub digits: [u8; 8],
    /// The four digits of the branch.
    pub branch_digits: [u8; 4],
    /// The two check digits.
    pub verifier_digits: [u8; 2],
}

/// A unit of the Brazilian federation: one of the twenty-six states or the
/// federal district.
#[derive(Debug, Eq, PartialEq, Hash, Clone, Copy)]
pub enum UF {
    AC,
    AL,
    AP,
    AM,
    BA,
    CE,
    DF,
    ES,
    GO,
    MA,
    MT,
    MS,
    MG,
    PA,
    PB,
    PR,
    PE,
    PI,
    RJ,
    RN,
    RS,
    RO,
    RR,
    SC,
    SP,
    SE,
    TO,
}

/// The body that issued an identity card.
#[derive(Debug, Eq, PartialEq, Hash, Clone)]
pub enum EmitterOrg {
    /// The public security office of a unit of the federation.
    SSP(UF),
    /// The traffic department of a unit of the federation.
    Detran(UF),
    /// The federal police.
    PoliciaFederal,
    /// A civil registry office.
    CartorioCivil,
    /// Any other body, by its name.
    Other(String),
}

/// The general registry card (RG): a code in free form and the body that
/// issued it. The code carries no check digit.
#[derive(Debug, Eq, PartialEq, Hash, Clone)]
pub struct Rg {
    /// The code of the card, as written on it.
    pub code: String,
    /// The body that issued the card.
    pub emitter_org: EmitterOrg,
}

} // verus!

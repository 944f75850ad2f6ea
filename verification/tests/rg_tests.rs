use validbr::EmitterOrg::SSP;
use validbr::Rg;
use validbr::UF::SP;

#[test]
fn rg_new_keeps_code_and_issuer() {
    let rg = Rg::new("A15987B-X", SSP(SP));
    assert_eq!(
        rg,
        Rg {
            code: "A15987B-X".to_string(),
            emitter_org: SSP(SP)
        }
    );
}

#[test]
fn rg_from_string_keeps_code_and_issuer() {
    let rg = Rg::from_string("A15987B-X".to_string(), SSP(SP));
    assert_eq!(
        rg,
        Rg {
            code: "A15987B-X".to_string(),
            emitter_org: SSP(SP)
        }
    );
}

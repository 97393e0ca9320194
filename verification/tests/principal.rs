use badger_backend::principal::{PrincipalId, MAX_PRINCIPAL_LEN};
use badger_backend::table::{Key, Record};
use candid::Principal;

#[test]
fn from_slice_takes_up_to_29_bytes() {
    assert_eq!(MAX_PRINCIPAL_LEN, 29);
    assert!(PrincipalId::from_slice(&[]).is_some());
    assert!(PrincipalId::from_slice(&[0u8; 29]).is_some());
    assert!(PrincipalId::from_slice(&[0u8; 30]).is_none());
    let p = PrincipalId::from_slice(&[1, 2, 3]).unwrap();
    assert_eq!(p.as_bytes(), &vec![1u8, 2, 3]);
}

#[test]
fn text_of_known_principals() {
    assert_eq!(PrincipalId::from_slice(&[]).unwrap().to_text(), "aaaaa-aa");
    assert_eq!(PrincipalId::from_slice(&[4]).unwrap().to_text(), "2vxsx-fae");
    let p = PrincipalId::from_slice(&[0xef, 0xcd, 0xab, 0, 0, 0, 0, 0, 1]).unwrap();
    assert_eq!(p.to_text(), "2chl6-4hpzw-vqaaa-aaaaa-c");
}

#[test]
fn parse_of_known_principals() {
    assert_eq!(PrincipalId::from_text("aaaaa-aa").unwrap().as_bytes(), &Vec::<u8>::new());
    assert_eq!(PrincipalId::from_text("2vxsx-fae").unwrap().as_bytes(), &vec![4u8]);
    assert_eq!(
        PrincipalId::from_text("2chl6-4hpzw-vqaaa-aaaaa-c").unwrap().as_bytes(),
        &vec![0xef, 0xcd, 0xab, 0, 0, 0, 0, 0, 1]
    );
}

#[test]
fn parse_reads_either_case() {
    let lower = PrincipalId::from_text("2chl6-4hpzw-vqaaa-aaaaa-c").unwrap();
    let upper = PrincipalId::from_text("2CHL6-4HPZW-VQAAA-AAAAA-C").unwrap();
    assert!(lower.same(&upper));
}

#[test]
fn parse_refuses_what_is_no_principal() {
    assert!(PrincipalId::from_text("").is_none());
    assert!(PrincipalId::from_text("not a principal").is_none());
    assert!(PrincipalId::from_text("aaaaa-ab").is_none());
    assert!(PrincipalId::from_text("2chl64hpzwvqaaaaaaaac").is_none());
}

#[test]
fn text_and_parse_agree_with_candid() {
    for bytes in [vec![], vec![4u8], vec![1, 2, 3], vec![255u8; 29], vec![0u8; 10]] {
        let p = PrincipalId::from_slice(&bytes).unwrap();
        let text = p.to_text();
        assert_eq!(text, Principal::from_slice(&bytes).to_text());
        let back = PrincipalId::from_text(&text).unwrap();
        assert!(back.same(&p));
        assert_eq!(back.as_bytes(), &bytes);
    }
}

#[test]
fn anonymous_is_the_byte_four() {
    let a = PrincipalId::anonymous();
    assert_eq!(a.as_bytes(), &vec![4u8]);
    assert_eq!(a.as_bytes().as_slice(), Principal::anonymous().as_slice());
    assert!(a.is_anonymous());
    assert!(PrincipalId::from_slice(&[4]).unwrap().is_anonymous());
    assert!(!PrincipalId::from_slice(&[]).unwrap().is_anonymous());
    assert!(!PrincipalId::from_slice(&[4, 0]).unwrap().is_anonymous());
    assert!(!PrincipalId::from_slice(&[5]).unwrap().is_anonymous());
}

#[test]
fn same_compares_the_bytes() {
    let a = PrincipalId::from_slice(&[1, 2]).unwrap();
    assert!(a.same(&PrincipalId::from_slice(&[1, 2]).unwrap()));
    assert!(!a.same(&PrincipalId::from_slice(&[1, 3]).unwrap()));
    assert!(!a.same(&PrincipalId::from_slice(&[1]).unwrap()));
    assert!(!a.same(&PrincipalId::from_slice(&[1, 2, 0]).unwrap()));
    assert!(a.same(&a.duplicate()));
    assert_eq!(a.clone(), a);
}

use ilgda_ipc::entity::IlgdaId;

#[test]
fn a_signed_number_is_an_identifier_unless_it_is_negative() {
    assert_eq!(IlgdaId::from_signed(0).and_then(|id| id.as_number()), Some(0));
    assert_eq!(IlgdaId::from_signed(42).and_then(|id| id.as_number()), Some(42));
    assert_eq!(
        IlgdaId::from_signed(i64::MAX).and_then(|id| id.as_number()),
        Some(i64::MAX as u64)
    );
    assert!(IlgdaId::from_signed(-1).is_none());
    assert!(IlgdaId::from_signed(i64::MIN).is_none());
}

#[test]
fn an_identifier_keeps_its_shape() {
    let number = IlgdaId::from(7u64);
    assert_eq!(number.as_number(), Some(7));
    assert_eq!(number.as_text(), None);
    assert_eq!(number.as_bytes(), None);
    assert_eq!(IlgdaId::from(7u32).as_number(), Some(7));
    assert_eq!(IlgdaId::from(7u16).as_number(), Some(7));
    assert_eq!(IlgdaId::from(7u8).as_number(), Some(7));
    assert_eq!(IlgdaId::from(u64::MAX).as_number(), Some(u64::MAX));

    let text = IlgdaId::from(String::from("name"));
    assert_eq!(text.as_text(), Some("name"));
    assert_eq!(text.as_number(), None);
    assert_eq!(text.as_bytes(), None);

    let bytes = IlgdaId::from(vec![1u8, 2, 3]);
    assert_eq!(bytes.as_bytes(), Some(&[1u8, 2, 3][..]));
    assert_eq!(bytes.as_number(), None);
    assert_eq!(bytes.as_text(), None);
}

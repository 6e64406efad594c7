use wataxrate::{
    interpret, settle, Code, DecodeError, Decimal, Format, TaxInfo, TaxInfoError,
};

fn sample(code: Code) -> TaxInfo {
    TaxInfo {
        loccode: 1726,
        rate: Decimal { negative: false, unscaled: 101, scale: 3 },
        code,
        localrate: Some(Decimal { negative: false, unscaled: 36, scale: 3 }),
        debughint: None,
        address: None,
        taxrate: None,
    }
}

#[test]
fn a_document_with_code_nine_becomes_a_service_error() {
    let body = r#"<response loccode="1726" localrate="0.036" rate="0.101" code="9"/>"#;
    let outcome = interpret(Format::Xml, body);
    assert_eq!(
        outcome,
        Err(TaxInfoError::Dor((Code::InternalError, sample(Code::InternalError))))
    );
    assert!(outcome.unwrap_err().retryable());
}

#[test]
fn a_line_with_code_nine_becomes_a_service_error() {
    match interpret(Format::Text, "LocationCode=1726 Rate=.101 ResultCode=9") {
        Err(TaxInfoError::Dor((code, info))) => {
            assert_eq!(code, Code::InternalError);
            assert_eq!(info.code, Code::InternalError);
            assert_eq!(info.loccode, 1726);
        }
        other => panic!("unexpected outcome: {:?}", other),
    }
}

#[test]
fn the_other_error_codes_are_final() {
    for (number, code) in [(6, Code::NoAddrNoZips), (7, Code::InvalidLongLat)] {
        let body = format!(r#"<response loccode="1726" localrate="0.036" rate="0.101" code="{}"/>"#, number);
        let outcome = interpret(Format::Xml, &body);
        assert_eq!(outcome, Err(TaxInfoError::Dor((code, sample(code)))));
        assert!(!outcome.unwrap_err().retryable());
    }
}

#[test]
fn a_good_code_is_a_success() {
    let body = r#"<response loccode="1726" localrate="0.036" rate="0.101" code="0"/>"#;
    assert_eq!(interpret(Format::Xml, body), Ok(sample(Code::AddrFound)));
    let body = r#"<response loccode="1726" localrate="0.036" rate="0.101" code="5"/>"#;
    assert_eq!(interpret(Format::Xml, body), Ok(sample(Code::Zip5FoundNoAddrOrZip4)));
}

#[test]
fn a_body_that_does_not_decode_is_an_internal_error() {
    assert_eq!(
        interpret(Format::Xml, "Service Unavailable"),
        Err(TaxInfoError::Internal(DecodeError::Markup))
    );
    assert_eq!(
        interpret(Format::Text, "Service Unavailable"),
        Err(TaxInfoError::Internal(DecodeError::Location))
    );
    assert_eq!(
        interpret(Format::Text, "LocationCode=12 Rate=.08 ResultCode=99"),
        Err(TaxInfoError::Internal(DecodeError::InvalidCode))
    );
    assert!(!interpret(Format::Xml, "").unwrap_err().retryable());
}

#[test]
fn settle_passes_the_result_on_whole() {
    assert_eq!(settle(Ok(sample(Code::AddrFound))), Ok(sample(Code::AddrFound)));
    assert_eq!(
        settle(Ok(sample(Code::NoAddrNoZips))),
        Err(TaxInfoError::Dor((Code::NoAddrNoZips, sample(Code::NoAddrNoZips))))
    );
    assert_eq!(settle(Err(DecodeError::Rate)), Err(TaxInfoError::Internal(DecodeError::Rate)));
}

#[test]
fn interpreting_a_body_twice_gives_the_same_outcome() {
    let body = r#"<response loccode="1726" localrate="0.036" rate="0.101" code="0"/>"#;
    assert_eq!(interpret(Format::Xml, body), interpret(Format::Xml, body));
    let line = "LocationCode=1726 Rate=.101 ResultCode=0";
    assert_eq!(interpret(Format::Text, line), interpret(Format::Text, line));
}

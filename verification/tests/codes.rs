use wataxrate::{Code, DecodeError, TaxInfo, TaxInfoError, Decimal};

fn sample_info(code: Code) -> TaxInfo {
    TaxInfo {
        loccode: 1726,
        rate: Decimal { negative: false, unscaled: 101, scale: 3 },
        code,
        localrate: None,
        debughint: None,
        address: None,
        taxrate: None,
    }
}

#[test]
fn documented_numbers_are_classified() {
    assert_eq!(Code::try_from(0u8), Ok(Code::AddrFound));
    assert_eq!(Code::try_from(1u8), Ok(Code::AddrNotFoundZipFound));
    assert_eq!(Code::try_from(2u8), Ok(Code::AdrrUpdatedAndFoundValidate));
    assert_eq!(Code::try_from(3u8), Ok(Code::AddrUpdatedAndZipFoundValidate));
    assert_eq!(Code::try_from(4u8), Ok(Code::AddrCorrectedAndFoundValidate));
    assert_eq!(Code::try_from(5u8), Ok(Code::Zip5FoundNoAddrOrZip4));
    assert_eq!(Code::try_from(6u8), Ok(Code::NoAddrNoZips));
    assert_eq!(Code::try_from(7u8), Ok(Code::InvalidLongLat));
    assert_eq!(Code::try_from(9u8), Ok(Code::InternalError));
}

#[test]
fn every_other_number_is_rejected() {
    assert_eq!(Code::try_from(8u8), Err(DecodeError::InvalidCode));
    for value in 10u8..=255 {
        assert_eq!(Code::try_from(value), Err(DecodeError::InvalidCode));
    }
}

#[test]
fn error_codes_are_six_seven_and_nine() {
    for value in 0u8..=255 {
        if let Ok(code) = Code::try_from(value) {
            assert_eq!(code.is_error(), value == 6 || value == 7 || value == 9);
            assert_eq!(code.retryable(), value == 9);
        }
    }
}

#[test]
fn code_from_str_reads_a_small_integer() {
    assert_eq!(Code::from_str("0"), Ok(Code::AddrFound));
    assert_eq!(Code::from_str("+5"), Ok(Code::Zip5FoundNoAddrOrZip4));
    assert_eq!(Code::from_str("009"), Ok(Code::InternalError));
    assert_eq!(Code::from_str("8"), Err(DecodeError::InvalidCode));
    assert_eq!(Code::from_str("99"), Err(DecodeError::InvalidCode));
    assert_eq!(Code::from_str("256"), Err(DecodeError::Code));
    assert_eq!(Code::from_str("-1"), Err(DecodeError::Code));
    assert_eq!(Code::from_str(""), Err(DecodeError::Code));
    assert_eq!(Code::from_str("four"), Err(DecodeError::Code));
    assert_eq!(Code::from_str(" 4"), Err(DecodeError::Code));
}

#[test]
fn only_an_internal_error_of_the_service_is_worth_a_retry() {
    assert!(TaxInfoError::Dor((Code::InternalError, sample_info(Code::InternalError))).retryable());
    assert!(!TaxInfoError::Dor((Code::NoAddrNoZips, sample_info(Code::NoAddrNoZips))).retryable());
    assert!(!TaxInfoError::Dor((Code::InvalidLongLat, sample_info(Code::InvalidLongLat))).retryable());
}

#[test]
fn transport_failures_are_retried_unless_the_client_is_at_fault() {
    assert!(TaxInfoError::Http(None).retryable());
    assert!(TaxInfoError::Http(Some(500)).retryable());
    assert!(TaxInfoError::Http(Some(503)).retryable());
    assert!(TaxInfoError::Http(Some(599)).retryable());
    assert!(!TaxInfoError::Http(Some(600)).retryable());
    assert!(!TaxInfoError::Http(Some(499)).retryable());
    assert!(!TaxInfoError::Http(Some(404)).retryable());
    assert!(!TaxInfoError::Http(Some(400)).retryable());
    assert!(!TaxInfoError::Http(Some(200)).retryable());
}

#[test]
fn decode_failures_and_exhaustion_are_final() {
    assert!(!TaxInfoError::Internal(DecodeError::Markup).retryable());
    assert!(!TaxInfoError::Internal(DecodeError::InvalidCode).retryable());
    assert!(!TaxInfoError::NoMoreRetries.retryable());
}

#[test]
fn each_decode_error_has_a_diagnostic_of_its_own() {
    let all = [
        DecodeError::Markup,
        DecodeError::Location,
        DecodeError::Rate,
        DecodeError::Code,
        DecodeError::InvalidCode,
        DecodeError::LocalRate,
        DecodeError::Address,
        DecodeError::Breakdown,
    ];
    for (i, a) in all.iter().enumerate() {
        assert!(!a.message().is_empty());
        for b in all.iter().skip(i + 1) {
            assert_ne!(a.message(), b.message());
        }
    }
    assert_eq!(DecodeError::Code.message(), "did not use integer as code");
    assert_eq!(DecodeError::InvalidCode.message(), "code provided not valid");
}

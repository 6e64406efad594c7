use wataxrate::{decode, decode_text, Code, DecodeError, Decimal, Format, TaxInfo};

fn line(loccode: i32, unscaled: u64, scale: usize, code: Code) -> TaxInfo {
    TaxInfo {
        loccode,
        rate: Decimal { negative: false, unscaled, scale },
        code,
        localrate: None,
        debughint: None,
        address: None,
        taxrate: None,
    }
}

#[test]
fn a_line_decodes_to_its_three_fields() {
    let info = decode_text("LocationCode=1234 Rate=.095 ResultCode=0").unwrap();
    assert_eq!(info.loccode, 1234);
    assert_eq!(info.rate, Decimal { negative: false, unscaled: 95, scale: 3 });
    let rate = info.rate.unscaled as f64 / 10f64.powi(info.rate.scale as i32);
    assert!((rate - 0.095).abs() < 1e-12);
    assert_eq!(info.code, Code::AddrFound);
    assert_eq!(info.localrate, None);
    assert_eq!(info.debughint, None);
    assert_eq!(info.address, None);
    assert_eq!(info.taxrate, None);
}

#[test]
fn a_line_without_its_result_code_fails_at_the_code() {
    assert_eq!(decode_text("LocationCode=1234 Rate=.095"), Err(DecodeError::Code));
    assert_eq!(decode_text("LocationCode=1234 Rate=.095 "), Err(DecodeError::Code));
    assert_eq!(decode_text("LocationCode=1234 Rate=.095 ResultCode"), Err(DecodeError::Code));
    assert_eq!(decode_text("LocationCode=1234 Rate=.095 ResultCode="), Err(DecodeError::Code));
    assert_eq!(decode_text("LocationCode=1234 Rate=.095 ResultCode=x"), Err(DecodeError::Code));
    assert_eq!(decode_text("LocationCode=1234 Rate=.095  ResultCode=0"), Err(DecodeError::Code));
    assert_eq!(decode_text("LocationCode=1234 Rate=.095 ResultCode=256"), Err(DecodeError::Code));
}

#[test]
fn a_code_out_of_range_fails_classification() {
    assert_eq!(
        decode_text("LocationCode=12 Rate=.08 ResultCode=99"),
        Err(DecodeError::InvalidCode)
    );
    assert_eq!(
        decode_text("LocationCode=12 Rate=.08 ResultCode=8"),
        Err(DecodeError::InvalidCode)
    );
}

#[test]
fn a_line_without_its_location_fails_at_the_location() {
    assert_eq!(decode_text(""), Err(DecodeError::Location));
    assert_eq!(decode_text("Rate=.095 ResultCode=0"), Err(DecodeError::Location));
    assert_eq!(decode_text("LocationCode= Rate=.095 ResultCode=0"), Err(DecodeError::Location));
    assert_eq!(decode_text("LocationCode=-1 Rate=.095 ResultCode=0"), Err(DecodeError::Location));
    assert_eq!(decode_text("locationcode=1 Rate=.095 ResultCode=0"), Err(DecodeError::Location));
    assert_eq!(decode_text(" LocationCode=1 Rate=.095 ResultCode=0"), Err(DecodeError::Location));
    assert_eq!(
        decode_text("LocationCode=2147483648 Rate=.095 ResultCode=0"),
        Err(DecodeError::Location)
    );
}

#[test]
fn a_line_without_its_rate_fails_at_the_rate() {
    assert_eq!(decode_text("LocationCode=1234"), Err(DecodeError::Rate));
    assert_eq!(decode_text("LocationCode=1234 ResultCode=0"), Err(DecodeError::Rate));
    assert_eq!(decode_text("LocationCode=1234 Rate=0.095 ResultCode=0"), Err(DecodeError::Rate));
    assert_eq!(decode_text("LocationCode=1234 Rate=. ResultCode=0"), Err(DecodeError::Rate));
    assert_eq!(decode_text("LocationCode=1234 Rate=.x ResultCode=0"), Err(DecodeError::Rate));
    assert_eq!(decode_text("LocationCode=1234x Rate=.095 ResultCode=0"), Err(DecodeError::Rate));
    assert_eq!(
        decode_text("LocationCode=1234 Rate=.99999999999999999999 ResultCode=0"),
        Err(DecodeError::Rate)
    );
}

#[test]
fn the_first_failing_field_decides() {
    assert_eq!(decode_text("LocationCode=x Rate=y ResultCode=z"), Err(DecodeError::Location));
    assert_eq!(decode_text("LocationCode=1 Rate=y ResultCode=z"), Err(DecodeError::Rate));
    assert_eq!(decode_text("LocationCode=1 Rate=.1 ResultCode=z"), Err(DecodeError::Code));
}

#[test]
fn every_code_can_come_in_a_line() {
    assert_eq!(
        decode_text("LocationCode=1726 Rate=.101 ResultCode=2"),
        Ok(line(1726, 101, 3, Code::AdrrUpdatedAndFoundValidate))
    );
    assert_eq!(
        decode_text("LocationCode=0 Rate=.0 ResultCode=9"),
        Ok(line(0, 0, 1, Code::InternalError))
    );
    assert_eq!(
        decode_text("LocationCode=2147483647 Rate=.0650 ResultCode=7"),
        Ok(line(i32::MAX, 650, 4, Code::InvalidLongLat))
    );
}

#[test]
fn what_follows_the_code_is_not_looked_at() {
    let expected = line(1726, 101, 3, Code::AddrFound);
    assert_eq!(decode_text("LocationCode=1726 Rate=.101 ResultCode=0\n"), Ok(expected.clone()));
    assert_eq!(decode_text("LocationCode=1726 Rate=.101 ResultCode=0\r\n"), Ok(expected.clone()));
    assert_eq!(
        decode_text("LocationCode=1726 Rate=.101 ResultCode=0 debughint=none"),
        Ok(expected)
    );
}

#[test]
fn decode_selects_the_line_decoder_for_text() {
    let body = "LocationCode=1234 Rate=.095 ResultCode=0";
    assert_eq!(decode(Format::Text, body), decode_text(body));
    assert_eq!(decode(Format::Xml, body), Err(DecodeError::Markup));
}

#[test]
fn decoding_a_line_twice_gives_the_same_result() {
    let body = "LocationCode=1234 Rate=.095 ResultCode=0";
    let first = decode_text(body);
    let second = decode_text(body);
    assert!(first.is_ok());
    assert_eq!(first, second);
}

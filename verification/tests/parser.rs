use ical::parser::vcard::VcardContact;
use ical::parser::{ComponentParser, ParserError};
use ical::property::PropertyError;

#[test]
fn vcard_invalid() {
    let input = "BEGIN:VCARD\r\nVERSION:4.0\r\nFN\r\nEND:VCARD\r\n";
    let mut reader = ComponentParser::<VcardContact<false>>::new(input.as_bytes().to_vec());
    let mut count = 0;
    while let Some(res) = reader.next() {
        assert!(res.is_err());
        count += 1;
    }
    assert!(count > 0);
}

#[test]
fn vcard_is_read() {
    let input = "begin:vcard\r\nVERSION:4.0\r\nUID:abc\r\nFN:Jane\r\nEND:VCARD\r\n";
    let mut reader = ComponentParser::<VcardContact<false>>::new(input.as_bytes().to_vec());
    let card = reader.next().unwrap().unwrap();
    assert_eq!(card.properties.len(), 3);
    assert_eq!(card.get_uid(), Some("abc"));
    assert!(reader.next().is_none());
}

#[test]
fn input_that_ends_early_is_not_complete() {
    let input = "BEGIN:VCARD\r\nFN:Jane\r\n";
    let mut reader = ComponentParser::<VcardContact<false>>::new(input.as_bytes().to_vec());
    assert_eq!(reader.next().unwrap().unwrap_err(), ParserError::NotComplete);
}

#[test]
fn a_wrong_first_line_is_a_missing_header() {
    let input = "BEGIN:VCALENDAR\r\nEND:VCALENDAR\r\n";
    let mut reader = ComponentParser::<VcardContact<false>>::new(input.as_bytes().to_vec());
    assert_eq!(reader.next().unwrap().unwrap_err(), ParserError::MissingHeader);
    let input = "BEGIN;X=1:VCARD\r\nEND:VCARD\r\n";
    let mut reader = ComponentParser::<VcardContact<false>>::new(input.as_bytes().to_vec());
    assert_eq!(reader.next().unwrap().unwrap_err(), ParserError::MissingHeader);
}

#[test]
fn a_nested_block_in_a_card_is_refused() {
    let input = "BEGIN:VCARD\r\nBEGIN:VEVENT\r\nEND:VEVENT\r\nEND:VCARD\r\n";
    let mut reader = ComponentParser::<VcardContact<false>>::new(input.as_bytes().to_vec());
    assert_eq!(
        reader.next().unwrap().unwrap_err(),
        ParserError::InvalidComponent("VEVENT".to_owned())
    );
}

#[test]
fn a_faulty_line_is_reported_with_its_number() {
    let input = "BEGIN:VCARD\r\nFN\r\nEND:VCARD\r\n";
    let mut reader = ComponentParser::<VcardContact<false>>::new(input.as_bytes().to_vec());
    assert_eq!(
        reader.next().unwrap().unwrap_err(),
        ParserError::PropertyError(PropertyError::MissingName(2))
    );
}

#[test]
fn expect_one_wants_exactly_one() {
    let one = "BEGIN:VCARD\r\nFN:a\r\nEND:VCARD\r\n";
    let two = "BEGIN:VCARD\r\nFN:a\r\nEND:VCARD\r\nBEGIN:VCARD\r\nFN:b\r\nEND:VCARD\r\n";
    let parser = ComponentParser::<VcardContact<false>>::new(one.as_bytes().to_vec());
    assert!(parser.expect_one().is_ok());
    let parser = ComponentParser::<VcardContact<false>>::new(two.as_bytes().to_vec());
    assert_eq!(parser.expect_one().unwrap_err(), ParserError::TooManyComponents);
    let parser = ComponentParser::<VcardContact<false>>::new(Vec::new());
    assert_eq!(parser.expect_one().unwrap_err(), ParserError::EmptyInput);
}

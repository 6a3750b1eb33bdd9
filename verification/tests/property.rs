use ical::property::{Property, PropertyError, PropertyParser};
use ical::line::{Line, LineReader};

fn parse_line(text: &str) -> Result<Property, PropertyError> {
    PropertyParser::from_reader(Vec::new()).parse(Line::new(text.to_owned(), 7))
}

#[test]
fn errors() {
    let input = "\
no delimiter at all\r\n\
:value without a name\r\n\
;PARAM=x:value without a name\r\n\
NAME;PARAM:missing equals sign\r\n\
NAME;=x:missing parameter key\r\n\
NAME;PARAM=\"never closed:value\r\n\
NAME;PARAM=runs to the end\r\n\
NAME;PARAM=\"closed\"but no colon\r\n";
    let mut reader = PropertyParser::from_reader(input.as_bytes().to_vec());
    let mut count = 0;
    while let Some(res) = reader.next() {
        assert!(res.is_err());
        count += 1;
    }
    assert_eq!(count, 8);
}

#[test]
fn each_fault_has_its_error() {
    assert_eq!(parse_line("no delimiter"), Err(PropertyError::MissingName(7)));
    assert_eq!(parse_line(":value"), Err(PropertyError::MissingName(7)));
    assert_eq!(parse_line("N;P:v"), Err(PropertyError::MissingDelimiter(7, '=')));
    assert_eq!(parse_line("N;=x:v"), Err(PropertyError::MissingParamKey(7)));
    assert_eq!(parse_line("N;P=\"open:v"), Err(PropertyError::MissingClosingQuote(7)));
    assert_eq!(parse_line("N;P=tail"), Err(PropertyError::MissingContentAfter(7, '=')));
    assert_eq!(parse_line("N;P=\"x\"y"), Err(PropertyError::MissingValue(7)));
}

#[test]
fn splits_name_parameters_and_value() {
    let p = parse_line("dtstart;tzid=Europe/Berlin;x=\"a;b\",c,,d:20201206T170000").unwrap();
    assert_eq!(p.name, "DTSTART");
    assert_eq!(
        p.params,
        vec![
            ("TZID".to_owned(), vec!["Europe/Berlin".to_owned()]),
            ("X".to_owned(), vec!["a;b".to_owned(), "c".to_owned(), "d".to_owned()]),
        ]
    );
    assert_eq!(p.value.as_deref(), Some("20201206T170000"));
    assert_eq!(p.get_tzid(), Some("Europe/Berlin"));
    assert_eq!(p.get_value_type(), None);
    assert_eq!(p.get_param("X"), Some("a;b"));
}

#[test]
fn an_absent_value_is_not_an_empty_value() {
    let p = parse_line("NAME:").unwrap();
    assert_eq!(p.value, None);
    let p = parse_line("NAME:x").unwrap();
    assert_eq!(p.value.as_deref(), Some("x"));
}

#[test]
fn a_quoted_value_ends_at_the_first_quote_that_is_not_escaped() {
    let p = parse_line("N;P=\"a\\\"b\":v").unwrap();
    assert_eq!(p.params, vec![("P".to_owned(), vec!["a\\\"b".to_owned()])]);
}

#[test]
fn new_property_is_empty() {
    let p = Property::new();
    assert_eq!(p.name, "");
    assert!(p.params.is_empty());
    assert_eq!(p.value, None);
}

#[test]
fn lines_are_unfolded_and_numbered() {
    let input = b"BEGIN:VCARD\r\nFN:Jo\r\n hn\r\n\r\nNOTE:a\n\tb\n  c\nEND:VCARD\r\n";
    let mut reader = LineReader::new(input.to_vec());
    let mut got = Vec::new();
    while let Some(line) = reader.next() {
        let line = line.unwrap();
        got.push((line.as_str().to_owned(), line.number()));
    }
    assert_eq!(
        got,
        vec![
            ("BEGIN:VCARD".to_owned(), 1),
            ("FN:John".to_owned(), 2),
            ("NOTE:ab c".to_owned(), 5),
            ("END:VCARD".to_owned(), 8),
        ]
    );
}

#[test]
fn empty_input_has_no_lines() {
    assert!(LineReader::new(Vec::new()).next().is_none());
    assert!(LineReader::new(b"\r\n\r\n".to_vec()).next().is_none());
}

#[test]
fn a_character_cut_by_a_fold_is_put_together_again() {
    // "ä" is the two bytes c3 a4
    let input = vec![b'N', b':', 0xc3, b'\r', b'\n', b' ', 0xa4, b'\r', b'\n'];
    let mut reader = LineReader::new(input);
    let line = reader.next().unwrap().unwrap();
    assert_eq!(line.as_str(), "N:ä");
    assert!(reader.next().is_none());
}

#[test]
fn bytes_that_are_no_text_are_an_error_of_their_line() {
    let input = vec![b'A', b':', b'1', b'\n', b'B', b':', 0xff, b'\n', b'C', b':', b'3', b'\n'];
    let mut reader = LineReader::new(input.clone());
    assert!(reader.next().unwrap().is_ok());
    assert_eq!(reader.next().unwrap().unwrap_err().number, 2);
    assert_eq!(reader.next().unwrap().unwrap().as_str(), "C:3");
    let mut parser = PropertyParser::from_reader(input);
    assert!(parser.next().unwrap().is_ok());
    assert_eq!(parser.next().unwrap(), Err(PropertyError::InvalidEncoding(2)));
}

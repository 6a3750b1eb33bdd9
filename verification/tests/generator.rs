use ical::generator::{protect_param, split_line, unprotect_param};

#[test]
fn split_line_multibyte() {
    let text = "a";
    assert_eq!(text, split_line(text.to_owned()).replace("\r\n", ""));
    let text = "sönderzaichän :))❗okay woow❗";
    assert_eq!(text, split_line(text.to_owned()).replace("\r\n", ""));
}

#[test]
fn split_long_line() {
    let text = "The ability to return a type that is only specified by the trait it impleme\r\n \
                 n\r\n";
    assert_eq!(
        text,
        split_line(text.replace("\r\n ", "").replace("\r\n", ""))
    );
    let text = "The ability to return a type that is only specified by the trait it impleme\r\n \
                 nts is especially useful in the context closures and iterators, which we c\r\n \
                 over in Chapter 13. Closures and iterators create types that only the comp\r\n \
                 iler knows or types that are very long to specify.\r\n";
    assert_eq!(
        text,
        split_line(text.replace("\r\n ", "").replace("\r\n", ""))
    );
}

#[test]
fn split_long_line_multibyte() {
    // multibyte characters stand where the line is cut
    let text = "DESCRIPTION:ABCDEFGHIJ\\n\\nKLMNOPQRSTUVWXYZ123456789üABCDEFGHIJKLMNOPQRS\\n\\n\r\n \
                 TUVWXYZ123456ä7890ABCDEFGHIJKLM\\n\\nNOPQRSTUVWXYZ1234567890ABCDEFGHIJKLMNOP\r\n \
                 QRSTUVWXöYZ1234567890ABCDEFGHIJKLMNOPQRSTUVWX\\n\\nYZ1234567890abcdefghiÜjkl\r\n \
                 m\\nnopqrstuvwx\r\n";
    assert_eq!(
        text,
        split_line(text.replace("\r\n ", "").replace("\r\n", ""))
    );
}

#[test]
fn protect_chars_in_param() {
    assert_eq!(
        protect_param("\"value: in quotes;\""),
        "\"value: in quotes;\""
    );
    assert_eq!(
        protect_param("\"value, in quotes\""),
        "\"value, in quotes\""
    );
    assert_eq!(
        protect_param("value, \"with\" something"),
        "value\\, \\\"with\\\" something"
    );
    assert_eq!(
        protect_param("\"Directory; C:\\\\Programme\""),
        "\"Directory; C:\\\\Programme\""
    );
    assert_eq!(protect_param("First\nSecond"), "First\\nSecond");
    assert_eq!(
        protect_param(
            "\"42 Plantation St.\\nBaytown\\, LA 30314\\nUnited States o\r\nf America\""
        ),
        "\"42 Plantation St.\\nBaytown\\, LA 30314\\nUnited States o\r\\nf America\""
    );
    assert_eq!(protect_param("ÄÖÜßø"), "ÄÖÜßø");
    assert_eq!(protect_param("\""), "\\\"");
    assert_eq!(protect_param("ÄÖsÜa,ßø"), "ÄÖsÜa\\,ßø");
}

#[test]
fn split_line_of_75_characters_ends_with_an_empty_continuation() {
    let text = "x".repeat(75);
    assert_eq!(split_line(text.clone()), format!("{}\r\n \r\n", text));
    let text = "y".repeat(74);
    assert_eq!(split_line(text.clone()), format!("{}\r\n", text));
    assert_eq!(split_line(String::new()), "\r\n");
}

#[test]
fn unprotect_undoes_protect() {
    for value in [
        "plain",
        "a;b:c,d\\e",
        "say \"hi\"",
        "two\nlines",
        "\\n stays two characters",
        "\\;",
        "\"quoted; with: delimiters, and a \"quote\" inside\"",
        "\"",
        "",
    ] {
        assert_eq!(unprotect_param(&protect_param(value)), value);
    }
    assert_eq!(unprotect_param("a\\;b\\nc"), "a;b\nc");
}

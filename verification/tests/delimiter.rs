use xlsx2csv::Delimiter;

#[test]
fn comma_is_read_as_itself_and_goes_with_csv() {
    let delimiter = Delimiter::from_str(",").unwrap();
    assert_eq!(delimiter.as_byte(), b',');
    assert_eq!(delimiter.as_char(), ',');
    assert_eq!(delimiter.to_file_extension(), "csv");
}

#[test]
fn tab_escape_is_read_as_the_tab_and_goes_with_tsv() {
    let delimiter = Delimiter::from_str("\\t").unwrap();
    assert_eq!(delimiter.as_byte(), b'\t');
    assert_eq!(delimiter.as_char(), '\t');
    assert_eq!(delimiter.to_file_extension(), "tsv");
}

#[test]
fn tab_itself_is_read_as_the_tab() {
    let delimiter = Delimiter::from_str("\t").unwrap();
    assert_eq!(delimiter.as_byte(), 9);
    assert_eq!(delimiter.to_file_extension(), "tsv");
}

#[test]
fn line_feed_escape_is_read_as_the_line_feed() {
    let delimiter = Delimiter::from_str("\\n").unwrap();
    assert_eq!(delimiter.as_byte(), b'\n');
    assert_eq!(delimiter.to_file_extension(), "csv");
}

#[test]
fn semicolon_and_pipe_go_with_csv() {
    let semicolon = Delimiter::from_str(";").unwrap();
    assert_eq!(semicolon.as_byte(), b';');
    assert_eq!(semicolon.to_file_extension(), "csv");
    let pipe = Delimiter::from_str("|").unwrap();
    assert_eq!(pipe.as_byte(), b'|');
    assert_eq!(pipe.to_file_extension(), "csv");
}

#[test]
fn every_ascii_character_is_read_as_its_byte() {
    for byte in 0u8..128 {
        let word = (byte as char).to_string();
        let delimiter = Delimiter::from_str(&word).unwrap();
        assert_eq!(delimiter.as_byte(), byte);
        assert_eq!(delimiter.as_char(), byte as char);
    }
}

#[test]
fn backslash_alone_is_read_as_itself() {
    assert_eq!(Delimiter::from_str("\\").unwrap().as_byte(), b'\\');
}

#[test]
fn word_of_several_characters_is_refused() {
    for word in ["ab", ",,", "\\r", "\\tt", "tab", "\\T", "  "] {
        assert_eq!(
            Delimiter::from_str(word).map(|delimiter| delimiter.as_byte()),
            Err(format!(
                "Could not convert '{}' to a single ASCII character.",
                word
            )),
        );
    }
}

#[test]
fn empty_word_is_refused() {
    assert_eq!(
        Delimiter::from_str("").map(|delimiter| delimiter.as_byte()),
        Err("Could not convert '' to a single ASCII character.".to_string()),
    );
}

#[test]
fn character_beyond_ascii_is_refused() {
    for word in ["é", "→", "\u{80}", "；"] {
        assert_eq!(
            Delimiter::from_str(word).map(|delimiter| delimiter.as_byte()),
            Err(format!(
                "Could not convert '{}' to a single ASCII character.",
                word
            )),
        );
    }
}

#[test]
fn extension_depends_on_the_byte_alone() {
    for byte in 0u8..=255 {
        let expected = if byte == b'\t' { "tsv" } else { "csv" };
        assert_eq!(Delimiter(byte).to_file_extension(), expected);
    }
}

#[test]
fn byte_and_character_of_a_delimiter_agree() {
    for byte in 0u8..=255 {
        let delimiter = Delimiter(byte);
        assert_eq!(delimiter.as_byte(), byte);
        assert_eq!(delimiter.as_char() as u32, byte as u32);
    }
}

#[test]
fn delimiter_parses_through_the_standard_trait() {
    let delimiter: Delimiter = ";".parse().unwrap();
    assert_eq!(delimiter.as_byte(), b';');
    let refused: Result<Delimiter, String> = "::".parse();
    assert!(refused.is_err());
}

use rsdk::decode::{decode_versions, decode_java_versions, decode_tool_versions};

#[test]
fn generic_listing_reads_column_by_column() {
    let text = "================================================================================\n\
                Available Versions\n\
                ================================================================================\n\
                1.0 2.0\n\
                3.0\n\
                ================================================================================\n";
    let got = decode_versions(text);
    // column by column: first tokens of each row, then second tokens,
    // stopping at the first exhausted row
    assert_eq!(got, vec!["1.0".to_string(), "3.0".to_string(), "2.0".to_string()]);
}

#[test]
fn generic_listing_ignores_lines_outside_the_frame() {
    let text = "before\n===\nheader between first and second\n===\n5.1\n===\nafter the third\n9.9\n";
    let got = decode_versions(text);
    assert_eq!(got, vec!["5.1".to_string()]);
}

#[test]
fn generic_listing_of_empty_text_is_empty() {
    assert_eq!(decode_versions(""), Vec::<String>::new());
}

#[test]
fn generic_listing_with_no_rows_is_empty() {
    let text = "===\nheader\n===\n   \n===\n";
    assert_eq!(decode_versions(text), Vec::<String>::new());
}

#[test]
fn generic_listing_accepts_crlf_line_endings() {
    let text = "===\r\nheader\r\n===\r\n5.1 6.2\r\n===\r\n";
    assert_eq!(decode_versions(text), vec!["5.1".to_string(), "6.2".to_string()]);
}

#[test]
fn java_listing_reads_the_sixth_field() {
    let text = "================================================================================\n\
                Available Java Versions\n\
                ================================================================================\n\
                 Vendor | Use | Version | Dist | Status | Identifier\n\
                --------------------------------------------------------------------------------\n\
                 Corretto |  | 21.0.1 | amzn |  | 21.0.1-amzn\n\
                 Corretto |  | 17.0.9 | amzn |  | 17.0.9-amzn\n\
                ================================================================================\n";
    let got = decode_java_versions(text);
    assert_eq!(got, vec!["21.0.1-amzn".to_string(), "17.0.9-amzn".to_string()]);
}

#[test]
fn java_listing_stops_after_the_third_separator() {
    let text = "===\n===\n===\n--------\n a | b | c | d | e | ignored\n";
    // three `===` lines have passed before the rows, so nothing is kept
    assert_eq!(decode_java_versions(text), Vec::<String>::new());
}

#[test]
fn tool_decoder_chooses_by_tool() {
    let generic = "===\nx\n===\n7.3\n===\n";
    let got = decode_tool_versions("maven", generic).expect("generic listing decodes");
    assert_eq!(got, vec!["7.3".to_string()]);

    let java = "----\n v |  | 21 | d |  | 21-zulu\n";
    let got = decode_tool_versions("java", java).expect("well-formed java listing decodes");
    assert_eq!(got, vec!["21-zulu".to_string()]);
}

#[test]
fn tool_decoder_rejects_short_java_rows() {
    let java = "----\nonly | two\n";
    assert!(decode_tool_versions("java", java).is_none());
}

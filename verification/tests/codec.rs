use opds_catalog::codec::{decode, decode_with_lossy, encode, DecodeFailure};

#[test]
fn test_encode_decode() {
    let orig = String::from("Some Message content");
    let encoded: String = encode(&orig);
    assert_eq!(orig, decode(&encoded).unwrap());
}

#[test]
fn a_text_is_carried_as_url_safe_base64_with_padding() {
    assert_eq!(encode(""), "");
    assert_eq!(encode("f"), "Zg==");
    assert_eq!(encode("fo"), "Zm8=");
    assert_eq!(encode("foo"), "Zm9v");
    assert_eq!(encode("Some Message content"), "U29tZSBNZXNzYWdlIGNvbnRlbnQ=");
    assert_eq!(encode("??>>"), "Pz8-Pg==");
    assert_eq!(encode("???"), "Pz8_");
    assert_eq!(encode("Ив"), "0JjQsg==");
}

#[test]
fn a_code_reads_back_to_its_text() {
    assert_eq!(decode("Zm9v").ok().unwrap(), "foo");
    assert_eq!(decode("Pz8-Pg==").ok().unwrap(), "??>>");
    assert_eq!(decode("0JjQsg==").ok().unwrap(), "Ив");
    assert_eq!(decode("").ok().unwrap(), "");
    for text in ["", "a", "Иванов", "Баукелэ. Александра", "a/b?c=d&e"] {
        assert_eq!(decode(&encode(text)).ok().unwrap(), text);
        assert_eq!(decode_with_lossy(&encode(text)), text);
    }
}

#[test]
fn a_text_that_is_no_base64_is_refused() {
    assert!(matches!(decode("not base64!"), Err(DecodeFailure::NotBase64(_))));
    assert!(matches!(decode("Zg"), Err(DecodeFailure::NotBase64(_))));
    assert!(matches!(decode("Pz8+Pg=="), Err(DecodeFailure::NotBase64(_))));
}

#[test]
fn bytes_that_are_no_text_are_refused() {
    // The code of the single byte 0xFF.
    assert!(matches!(decode("_w=="), Err(DecodeFailure::NotUtf8(_))));
}

#[test]
fn the_words_of_a_failure_stand_in_for_the_text() {
    let words = decode_with_lossy("not base64!");
    assert_eq!(words, decode("not base64!").err().unwrap().message());
    assert!(!words.is_empty());
    let words = decode_with_lossy("_w==");
    assert_eq!(words, decode("_w==").err().unwrap().message());
    assert!(words.contains("utf-8") || words.contains("UTF-8"));
}

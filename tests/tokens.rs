use libafl::decode::{from_hex, str_decode};
use libafl::error::Error;
use libafl::tokens::Tokens;

#[test]
fn test_read_tokens() {
    let data = r###"
# comment
token1@123="AAA"
token1="A\x41A"
"A\AA"
token2="B"
        "###;
    let tokens = Tokens::from_tokens_file(data).unwrap();
    println!("Token file entries: {:?}", tokens.tokens());
    assert_eq!(tokens.tokens().len(), 2);
}

#[test]
fn token_file_scenario_keeps_first_occurrences() {
    let data = "# comment\n\ntoken1=\"A\\x41A\"\ntoken2=\"B\"\n\"A\\AA\"\n";
    let tokens = Tokens::from_tokens_file(data).unwrap();
    assert_eq!(tokens.tokens().to_vec(), vec![b"AAA".to_vec(), b"B".to_vec()]);
}

#[test]
fn token_file_rejects_line_without_quotes() {
    let r = Tokens::from_tokens_file("token=AAA\n");
    assert!(matches!(r, Err(Error::IllegalArgument(_))));
}

#[test]
fn token_file_rejects_unterminated_quote() {
    let r = Tokens::from_tokens_file("name = \"abc\n");
    assert!(matches!(r, Err(Error::IllegalArgument(_))));
    let r = Tokens::from_tokens_file("\"\n");
    assert!(matches!(r, Err(Error::IllegalArgument(_))));
}

#[test]
fn token_file_rejects_bad_hex_escape() {
    let r = Tokens::from_tokens_file("\"\\xZ1\"\n");
    assert!(matches!(r, Err(Error::IllegalArgument(_))));
}

#[test]
fn token_file_skips_empty_token() {
    let tokens = Tokens::from_tokens_file("empty=\"\"\n\"x\"\n").unwrap();
    assert_eq!(tokens.tokens().to_vec(), vec![b"x".to_vec()]);
}

#[test]
fn token_file_round_trip_of_distinct_tokens() {
    let toks: Vec<Vec<u8>> = vec![b"GET".to_vec(), vec![0u8, 0xff, b'"'], b"a\\b".to_vec()];
    let mut text = String::new();
    for t in &toks {
        text.push('"');
        for b in t {
            text.push_str(&format!("\\x{:02X}", b));
        }
        text.push_str("\"\n");
    }
    let tokens = Tokens::from_tokens_file(&text).unwrap();
    assert_eq!(tokens.tokens().to_vec(), toks);
}

#[test]
fn add_tokens_counts_new_entries() {
    let mut tokens = Tokens::new(vec![b"A".to_vec()]);
    let added = tokens.add_tokens_from_file("\"A\"\n\"B\"\n\"B\"\n\"C\"\n").unwrap();
    assert_eq!(added, 2);
    assert_eq!(tokens.tokens().len(), 3);
}

#[test]
fn tokens_new_and_add_token_deduplicate() {
    let mut tokens = Tokens::new(vec![b"A".to_vec(), b"B".to_vec(), b"A".to_vec()]);
    assert_eq!(tokens.tokens().to_vec(), vec![b"A".to_vec(), b"B".to_vec()]);
    assert!(!tokens.add_token(&b"B".to_vec()));
    assert!(tokens.add_token(&b"C".to_vec()));
    assert_eq!(tokens.len(), 3);
}

#[test]
fn str_decode_handles_escapes() {
    assert_eq!(str_decode("foo\\x41\\\\and\\\"bar").unwrap(), b"fooA\\and\"bar".to_vec());
    assert_eq!(str_decode("\\x4a\\X4B").unwrap(), b"JK".to_vec());
    assert_eq!(str_decode("A\\AA").unwrap(), b"AAA".to_vec());
    assert!(matches!(str_decode("\\xg0"), Err(Error::IllegalArgument(_))));
}

#[test]
fn from_hex_digits() {
    assert_eq!(from_hex(b'0').unwrap(), 0);
    assert_eq!(from_hex(b'9').unwrap(), 9);
    assert_eq!(from_hex(b'A').unwrap(), 10);
    assert_eq!(from_hex(b'f').unwrap(), 15);
    assert!(matches!(from_hex(b'g'), Err(Error::IllegalArgument(_))));
}

#[test]
fn written_token_file_reads_back() {
    let toks: Vec<Vec<u8>> = vec![b"GET".to_vec(), vec![0u8, 0xff, b'"', b'\n'], b"a\\b".to_vec(), vec![b'#']];
    let dict = Tokens::new(toks.clone());
    let bytes = dict.to_tokens_file();
    assert_eq!(&bytes[..14], b"\"\\x47\\x45\\x54\"");
    let text = String::from_utf8(bytes).unwrap();
    let back = Tokens::from_tokens_file(&text).unwrap();
    assert_eq!(back.tokens().to_vec(), toks);
}

#[test]
fn str_decode_rejects_cut_short_escapes() {
    assert!(matches!(str_decode("A\\x4"), Err(Error::IllegalArgument(_))));
    assert!(matches!(str_decode("A\\x"), Err(Error::IllegalArgument(_))));
    assert!(matches!(str_decode("A\\"), Err(Error::IllegalArgument(_))));
    assert!(matches!(str_decode("A\\xZ1"), Err(Error::IllegalArgument(_))));
}

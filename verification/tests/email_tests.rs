use relayer::email::header_field;
use relayer::request::{file_id, parse_email, ParsedEmail};
use relayer::text::{chars_of, slice_of};

const RAW: &str = "From: alice@example.com\r\nSUBJECT:   Send $5 usdc to a@b.com \r\nSalt-Sender: s1\r\nsalt-receiver:\tr1\r\nX-Empty:\r\n\r\nbody text\r\nSubject: not this one\r\nHidden: yes\r\n";

fn some(s: &str) -> Option<String> {
    Some(s.to_string())
}

#[test]
fn finds_fields_by_name() {
    assert_eq!(header_field(RAW, "from"), some("alice@example.com"));
    assert_eq!(header_field(RAW, "subject"), some("Send $5 usdc to a@b.com"));
    assert_eq!(header_field(RAW, "salt-sender"), some("s1"));
    assert_eq!(header_field(RAW, "salt-receiver"), some("r1"));
}

#[test]
fn names_ignore_case() {
    assert_eq!(header_field(RAW, "FROM"), some("alice@example.com"));
    assert_eq!(header_field(RAW, "Subject"), some("Send $5 usdc to a@b.com"));
    assert_eq!(header_field(RAW, "SALT-Receiver"), some("r1"));
}

#[test]
fn the_body_is_not_searched() {
    assert_eq!(header_field(RAW, "hidden"), None);
    assert_eq!(header_field("\r\nSubject: x\r\n", "subject"), None);
    assert_eq!(header_field("\nSubject: x\n", "subject"), None);
}

#[test]
fn missing_and_empty_fields() {
    assert_eq!(header_field(RAW, "to"), None);
    assert_eq!(header_field(RAW, "x-empty"), some(""));
    assert_eq!(header_field("", "subject"), None);
    assert_eq!(header_field("Subject", "subject"), None);
    assert_eq!(header_field("Subject x: y", "subject"), None);
    assert_eq!(header_field("Subjects: y", "subject"), None);
}

#[test]
fn the_first_field_of_a_name_counts() {
    assert_eq!(header_field("A: 1\nA: 2\n\n", "a"), some("1"));
    assert_eq!(header_field("B: 0\nA: 1", "a"), some("1"));
}

#[test]
fn plain_line_feeds_and_a_missing_last_one() {
    assert_eq!(header_field("From: x@y.z\nSubject: hi there", "subject"), some("hi there"));
    assert_eq!(header_field("Subject:hi", "subject"), some("hi"));
    assert_eq!(header_field("Subject: a: b \t", "subject"), some("a: b"));
    assert_eq!(header_field("Subject: \t \r\nFrom: q", "subject"), some(""));
}

#[test]
fn parses_the_fields_of_a_request() {
    assert_eq!(
        parse_email(RAW),
        ParsedEmail {
            subject: some("Send $5 usdc to a@b.com"),
            sender: some("alice@example.com"),
            salt_sender: some("s1"),
            salt_receiver: some("r1"),
        }
    );
    assert_eq!(
        parse_email("Subject: hello\r\n\r\n"),
        ParsedEmail { subject: some("hello"), sender: None, salt_sender: None, salt_receiver: None }
    );
}

#[test]
fn file_id_joins_the_salts() {
    assert_eq!(file_id("s1", "r1"), "s1_r1");
    assert_eq!(file_id("", ""), "_");
    assert_eq!(file_id("a_b", "c"), "a_b_c");
}

#[test]
fn file_id_follows_each_salt() {
    assert_eq!(file_id("abc", "def"), file_id("abc", "def"));
    assert_ne!(file_id("abc", "def"), file_id("abd", "def"));
    assert_ne!(file_id("abc", "def"), file_id("abc", "dee"));
    assert_ne!(file_id("abc", "def"), file_id("ab", "def"));
    assert_ne!(file_id("abc", "def"), file_id("abc", "defg"));
}

#[test]
fn texts_are_read_by_character() {
    assert_eq!(chars_of(""), Vec::<char>::new());
    assert_eq!(chars_of("a\u{fc}b"), vec!['a', '\u{fc}', 'b']);
    assert_eq!(slice_of("a\u{fc}bc", 1, 3), "\u{fc}b");
    assert_eq!(slice_of("abc", 0, 3), "abc");
    assert_eq!(slice_of("abc", 2, 2), "");
    assert_eq!(slice_of("abc", 3, 3), "");
}

#[test]
fn field_names_and_values_may_hold_other_scripts() {
    assert_eq!(
        header_field("Subject: gr\u{fc}\u{df}e\r\nFrom: j\u{fc}rg@b.de\r\n", "from"),
        some("j\u{fc}rg@b.de")
    );
    assert_eq!(header_field("Betreff\u{fc}: x\n", "betreff\u{fc}"), some("x"));
    assert_eq!(header_field("Betreff\u{fc}: x\n", "betreff\u{dc}"), None);
}

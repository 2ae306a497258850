use relayer::calldata::{
    artifact_paths, assemble, assemble_calldata, calldata_from_json, read_entry, read_pair,
    read_signals, AssembleError, ParseError, ProofCalldata,
};
use relayer::field::Field;
use serde_json::Value;

const PROOF: &str = r#"{
 "pi_a": ["1", "2", "1"],
 "pi_b": [["3", "4"], ["5", "6"], ["1", "0"]],
 "pi_c": ["7", "18446744073709551616", "1"],
 "protocol": "groth16",
 "curve": "bn128"
}"#;

const PUBLIC: &str = r#"["9", "10", "340282366920938463463374607431768211456"]"#;

fn f(v: u64) -> Field {
    Field::from_u64(v)
}

fn text(s: &str) -> Value {
    Value::String(s.to_string())
}

fn expected() -> ProofCalldata {
    ProofCalldata {
        pi_a: [f(1), f(2)],
        pi_b: [[f(3), f(4)], [f(5), f(6)]],
        pi_c: [f(7), Field { limbs: [0, 1, 0, 0] }],
        signals: vec![f(9), f(10), Field { limbs: [0, 0, 1, 0] }],
    }
}

#[test]
fn assembles_a_valid_pair() {
    assert_eq!(assemble_calldata(PROOF, PUBLIC), Ok(expected()));
}

#[test]
fn assembling_twice_gives_the_same_calldata() {
    let first = assemble(Some(PROOF), Some(PUBLIC));
    let second = assemble(Some(PROOF), Some(PUBLIC));
    assert_eq!(first, Ok(expected()));
    assert_eq!(first, second);
    let bad = r#"{"pi_a": ["1", "x"]}"#;
    assert_eq!(assemble(Some(bad), Some(PUBLIC)), assemble(Some(bad), Some(PUBLIC)));
}

#[test]
fn empty_signals_are_accepted() {
    let calldata = assemble_calldata(PROOF, "[]").unwrap();
    assert!(calldata.signals.is_empty());
    assert_eq!(calldata.pi_a, [f(1), f(2)]);
}

#[test]
fn non_numeric_entry_in_pi_a_is_a_parse_error() {
    let proof = r#"{"pi_a": ["1", "abc"], "pi_b": [["3", "4"], ["5", "6"]], "pi_c": ["7", "8"]}"#;
    assert_eq!(assemble_calldata(proof, PUBLIC), Err(ParseError::NotNumeric));
    assert_eq!(
        assemble(Some(proof), Some(PUBLIC)),
        Err(AssembleError::Parse(ParseError::NotNumeric))
    );
}

#[test]
fn out_of_range_entry_is_a_parse_error() {
    let proof = r#"{"pi_a": ["1", "2"], "pi_b": [["3", "115792089237316195423570985008687907853269984665640564039457584007913129639936"], ["5", "6"]], "pi_c": ["7", "8"]}"#;
    assert_eq!(assemble_calldata(proof, PUBLIC), Err(ParseError::OutOfRange));
    let fits = r#"{"pi_a": ["1", "2"], "pi_b": [["3", "115792089237316195423570985008687907853269984665640564039457584007913129639935"], ["5", "6"]], "pi_c": ["7", "8"]}"#;
    assert_eq!(
        assemble_calldata(fits, PUBLIC).unwrap().pi_b[0][1],
        Field { limbs: [u64::MAX; 4] }
    );
}

#[test]
fn entries_must_be_strings() {
    let number = r#"{"pi_a": [1, "2"], "pi_b": [["3", "4"], ["5", "6"]], "pi_c": ["7", "8"]}"#;
    assert_eq!(assemble_calldata(number, PUBLIC), Err(ParseError::NotText));
    assert_eq!(assemble_calldata(PROOF, r#"["9", 10]"#), Err(ParseError::NotText));
    assert_eq!(assemble_calldata(PROOF, r#"["9", null]"#), Err(ParseError::NotText));
}

#[test]
fn missing_points_are_parse_errors() {
    let no_pi_b = r#"{"pi_a": ["1", "2"], "pi_c": ["7", "8"]}"#;
    assert_eq!(assemble_calldata(no_pi_b, PUBLIC), Err(ParseError::NotText));
    let short_pi_c = r#"{"pi_a": ["1", "2"], "pi_b": [["3", "4"], ["5", "6"]], "pi_c": ["7"]}"#;
    assert_eq!(assemble_calldata(short_pi_c, PUBLIC), Err(ParseError::NotText));
    let flat_pi_b = r#"{"pi_a": ["1", "2"], "pi_b": ["3", "4"], "pi_c": ["7", "8"]}"#;
    assert_eq!(assemble_calldata(flat_pi_b, PUBLIC), Err(ParseError::NotText));
    assert_eq!(assemble_calldata("[]", PUBLIC), Err(ParseError::NotText));
}

#[test]
fn signals_must_be_an_array() {
    assert_eq!(assemble_calldata(PROOF, r#"{"0": "9"}"#), Err(ParseError::NotAList));
    assert_eq!(assemble_calldata(PROOF, r#""9""#), Err(ParseError::NotAList));
}

#[test]
fn text_that_is_no_json_is_refused() {
    assert_eq!(assemble_calldata("{", PUBLIC), Err(ParseError::InvalidJson));
    assert_eq!(assemble_calldata(PROOF, "[\"9\","), Err(ParseError::InvalidJson));
    assert_eq!(assemble_calldata("", ""), Err(ParseError::InvalidJson));
    assert_eq!(assemble_calldata(PROOF, "[] []"), Err(ParseError::InvalidJson));
}

#[test]
fn the_first_fault_in_reading_order_is_reported() {
    let proof = r#"{"pi_a": ["1", "2"], "pi_b": [["3", "x"], ["5", "6"]], "pi_c": [7, "8"]}"#;
    assert_eq!(assemble_calldata(proof, "{}"), Err(ParseError::NotNumeric));
    let proof = r#"{"pi_a": ["1", "2"], "pi_b": [["3", "4"], ["5", "6"]], "pi_c": [7, "8"]}"#;
    assert_eq!(assemble_calldata(proof, "{}"), Err(ParseError::NotText));
    assert_eq!(assemble_calldata(PROOF, r#"["1", "x", 3]"#), Err(ParseError::NotNumeric));
    assert_eq!(assemble_calldata(PROOF, r#"["1", 3, "x"]"#), Err(ParseError::NotText));
}

#[test]
fn unreadable_files_are_io_errors() {
    assert_eq!(assemble(None, Some(PUBLIC)), Err(AssembleError::Io));
    assert_eq!(assemble(Some(PROOF), None), Err(AssembleError::Io));
    assert_eq!(assemble(None, None), Err(AssembleError::Io));
    assert_eq!(assemble(None, Some("{")), Err(AssembleError::Io));
    assert_eq!(
        assemble(Some("{"), Some(PUBLIC)),
        Err(AssembleError::Parse(ParseError::InvalidJson))
    );
}

#[test]
fn reads_values_built_by_hand() {
    let mut proof = serde_json::Map::new();
    proof.insert("pi_a".to_string(), Value::Array(vec![text("11"), text("12")]));
    proof.insert(
        "pi_b".to_string(),
        Value::Array(vec![
            Value::Array(vec![text("13"), text("14")]),
            Value::Array(vec![text("15"), text("16")]),
        ]),
    );
    proof.insert("pi_c".to_string(), Value::Array(vec![text("17"), text("18")]));
    let public = Value::Array(vec![text("19")]);
    assert_eq!(
        calldata_from_json(&Value::Object(proof), &public),
        Ok(ProofCalldata {
            pi_a: [f(11), f(12)],
            pi_b: [[f(13), f(14)], [f(15), f(16)]],
            pi_c: [f(17), f(18)],
            signals: vec![f(19)],
        })
    );
    assert_eq!(calldata_from_json(&Value::Null, &public), Err(ParseError::NotText));
}

#[test]
fn reads_single_entries() {
    assert_eq!(read_entry(&text("42")), Ok(f(42)));
    assert_eq!(read_entry(&text("4 2")), Err(ParseError::NotNumeric));
    assert_eq!(read_entry(&Value::Null), Err(ParseError::NotText));
    assert_eq!(read_entry(&Value::Bool(true)), Err(ParseError::NotText));
    assert_eq!(read_entry(&Value::Array(vec![text("1")])), Err(ParseError::NotText));
}

#[test]
fn reads_pairs_and_ignores_further_entries() {
    let three = Value::Array(vec![text("1"), text("2"), text("not read")]);
    assert_eq!(read_pair(&three), Ok([f(1), f(2)]));
    let one = Value::Array(vec![text("1")]);
    assert_eq!(read_pair(&one), Err(ParseError::NotText));
    assert_eq!(read_pair(&text("12")), Err(ParseError::NotText));
}

#[test]
fn reads_signals_in_order() {
    let list = Value::Array(vec![text("3"), text("2"), text("1")]);
    assert_eq!(read_signals(&list), Ok(vec![f(3), f(2), f(1)]));
    assert_eq!(read_signals(&Value::Array(vec![])), Ok(vec![]));
    assert_eq!(read_signals(&Value::Null), Err(ParseError::NotAList));
}

#[test]
fn artifact_paths_follow_the_identifier() {
    let paths = artifact_paths("proofs", "17689783363368087877");
    assert_eq!(paths.proof, "proofs/rapidsnark_proof_17689783363368087877.json");
    assert_eq!(paths.public, "proofs/rapidsnark_public_17689783363368087877.json");
    let paths = artifact_paths("proofs/", "a_b");
    assert_eq!(paths.proof, "proofs/rapidsnark_proof_a_b.json");
    assert_eq!(paths.public, "proofs/rapidsnark_public_a_b.json");
    let paths = artifact_paths("", "a_b");
    assert_eq!(paths.proof, "rapidsnark_proof_a_b.json");
    assert_eq!(paths.public, "rapidsnark_public_a_b.json");
    let paths = artifact_paths("/", "n");
    assert_eq!(paths.proof, "/rapidsnark_proof_n.json");
}

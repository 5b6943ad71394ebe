use gradechain::blockchain::Blockchain;
use gradechain::blockchain::BlockchainRecord;
use gradechain::blockchain::generate_hash;
use gradechain::blockchain::hash;
use gradechain::digits::parse_u64;
use gradechain::digits::parse_usize;
use gradechain::digits::u64_to_string;

#[test]
fn test_same_inputs_generate_same_outputs() {
    assert_eq!(
        generate_hash(&String::from("asdasd"), &format!("{}", 6.5), 0),
        generate_hash(&String::from("asdasd"), &format!("{}", 6.5), 0)
    )
}

#[test]
fn test_empty_blockchain_is_valid() {
    assert_eq!(Blockchain::new().is_valid(), true)
}

#[test]
fn test_add_grade_always_generates_valid_blockchains() {
    let mut blockchain = Blockchain::new();
    blockchain.add_grade(String::from("Dylan"), format!("{}", 10.0));
    blockchain.add_grade(String::from("Gustavo"), format!("{}", 7.99));
    assert_eq!(blockchain.is_valid(), true)
}

#[test]
fn test_add_record_allows_for_invalid_blockchains() {
    let mut blockchain = Blockchain::new();
    blockchain.add_record(BlockchainRecord {
        student_name: String::from("Dylan"),
        grade: format!("{}", 10.0),
        hash: 0,
    });
    assert_eq!(blockchain.is_valid(), false)
}

#[test]
fn test_add_record_needs_manual_hash_creation_for_valid_blockchains() {
    let mut blockchain = Blockchain::new();
    let student_name = String::from("Dylan");
    let grade = format!("{}", 10.0);
    blockchain.add_record(BlockchainRecord {
        student_name: student_name.clone(),
        grade: grade.clone(),
        hash: generate_hash(&student_name, &grade, 0),
    });
    assert_eq!(blockchain.is_valid(), true)
}

#[test]
fn test_blockchain_hashes_are_recursive() {
    let mut blockchain = Blockchain::new();
    let first_student_name = String::from("Gustavo");
    let first_grade = format!("{}", 8.50);
    blockchain.add_grade(first_student_name.clone(), first_grade.clone());
    let second_student_name = String::from("Dylan");
    let second_grade = format!("{}", 10.0);
    blockchain.add_record(BlockchainRecord {
        student_name: second_student_name.clone(),
        grade: second_grade.clone(),
        hash: generate_hash(
            &second_student_name,
            &second_grade,
            generate_hash(&first_student_name, &first_grade, 0),
        ),
    });
    assert_eq!(blockchain.is_valid(), true)
}

#[test]
fn digest_of_empty_text_is_the_seed() {
    assert_eq!(hash(String::new()), 0xcbf2_9ce4_8422_2325);
}

#[test]
fn digest_folds_one_character() {
    // one round of the fold: seed xor 'a', times the prime, wrapping
    let expected = (0xcbf2_9ce4_8422_2325u64 ^ 'a' as u64).wrapping_mul(0x100_0000_01b3);
    assert_eq!(hash(String::from("a")), expected);
}

#[test]
fn hash_determinism_across_independent_ledgers() {
    // two ledgers fed the same writes serialize byte for byte the same
    let mut first = Blockchain::new();
    let mut second = Blockchain::new();
    first.add_grade(String::from("Dylan"), format!("{}", 10.0));
    first.add_grade(String::from("Gustavo"), format!("{}", 7.99));
    second.add_grade(String::from("Dylan"), format!("{}", 10.0));
    second.add_grade(String::from("Gustavo"), format!("{}", 7.99));
    assert_eq!(first.as_str().as_bytes(), second.as_str().as_bytes());
    assert!(first.as_str().len() > 0);
}

#[test]
fn serialization_round_trip_restores_the_ledger() {
    let mut blockchain = Blockchain::new();
    blockchain.add_grade(String::from("Dylan"), format!("{}", 10.0));
    blockchain.add_grade(String::from("Gustavo"), format!("{}", 7.99));
    let text = blockchain.as_str();
    let parsed = Blockchain::from_str(text.clone());
    assert_eq!(parsed, blockchain);
    assert_eq!(parsed.as_str(), text);
}

#[test]
fn parsing_round_trip_restores_the_text() {
    let text = String::from("asd,10.5,123;qwe,8.5,678");
    assert_eq!(Blockchain::from_str(text.clone()).as_str(), text);
}

#[test]
fn empty_ledger_serializes_to_empty_text() {
    assert_eq!(Blockchain::new().as_str(), String::new());
    assert_eq!(Blockchain::from_str(String::new()), Blockchain::new());
}

#[test]
fn malformed_chunks_are_passed_over() {
    // too few fields in the middle chunk, and a hash that is no number
    let parsed = Blockchain::from_str(String::from("a,1,7;justnoise;b,2,notanumber"));
    assert_eq!(parsed.records().len(), 1);
    assert_eq!(parsed.records()[0].student_name, String::from("a"));
    assert_eq!(parsed.records()[0].hash, 7);
}

#[test]
fn last_record_follows_appends() {
    let mut blockchain = Blockchain::new();
    assert!(blockchain.last_record().is_none());
    blockchain.add_grade(String::from("Dylan"), format!("{}", 10.0));
    let last = blockchain.last_record().unwrap();
    assert_eq!(last.student_name, String::from("Dylan"));
    assert_eq!(last.grade, String::from("10"));
}

#[test]
fn cloned_ledger_matches_its_source() {
    let mut blockchain = Blockchain::new();
    blockchain.add_grade(String::from("Dylan"), format!("{}", 10.0));
    let copy = blockchain.clone();
    assert_eq!(copy, blockchain);
    assert_eq!(copy.as_str(), blockchain.as_str());
}

#[test]
fn decimal_text_of_u64_values() {
    assert_eq!(u64_to_string(0), String::from("0"));
    assert_eq!(u64_to_string(7), String::from("7"));
    assert_eq!(u64_to_string(1234567890), String::from("1234567890"));
    assert_eq!(
        u64_to_string(u64::MAX),
        String::from("18446744073709551615")
    );
}

#[test]
fn parsing_decimal_text_as_u64() {
    assert_eq!(parse_u64("0"), Some(0));
    assert_eq!(parse_u64("383838"), Some(383838));
    assert_eq!(parse_u64("18446744073709551615"), Some(u64::MAX));
    assert_eq!(parse_u64("18446744073709551616"), None);
    assert_eq!(parse_u64(""), None);
    assert_eq!(parse_u64("12a4"), None);
    assert_eq!(parse_u64("-5"), None);
}

#[test]
fn parsing_decimal_text_as_usize() {
    assert_eq!(parse_usize("8080"), Some(8080));
    assert_eq!(parse_usize("not a port"), None);
}

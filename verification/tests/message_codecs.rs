use gradechain::acquire_message::AcquireMessage;
use gradechain::add_grade_message::AddGradeMessage;
use gradechain::blockchain::Blockchain;
use gradechain::blockchain::BlockchainRecord;
use gradechain::blockchain_message::BlockchainMessage;
use gradechain::election_message::ElectionMessage;

#[test]
fn acquire_message_test_as_bytes() {
    assert_eq!(*b"ACQUI", AcquireMessage::Acquire.as_bytes());
    assert_eq!(*b"OKACQ", AcquireMessage::OkAcquire.as_bytes());
    assert_eq!(*b"RELEA", AcquireMessage::Release.as_bytes());
}

#[test]
fn acquire_message_from_bytes() {
    assert_eq!(
        Some(AcquireMessage::Acquire),
        AcquireMessage::from_bytes("ACQUI".as_bytes())
    );
    assert_eq!(
        Some(AcquireMessage::OkAcquire),
        AcquireMessage::from_bytes("OKACQ".as_bytes())
    );
    assert_eq!(
        Some(AcquireMessage::Release),
        AcquireMessage::from_bytes("RELEA".as_bytes())
    );
}

#[test]
fn acquire_message_from_bytes_rejects_unknown() {
    assert_eq!(None, AcquireMessage::from_bytes("Whatever".as_bytes()));
    assert_eq!(None, AcquireMessage::from_bytes("ACQUX".as_bytes()));
    assert_eq!(None, AcquireMessage::from_bytes(&[]));
}

#[test]
fn election_message_test_as_bytes() {
    assert_eq!([b'E'], ElectionMessage::Election.as_bytes());
    assert_eq!([b'O'], ElectionMessage::OkElection.as_bytes());
    assert_eq!([b'C'], ElectionMessage::Coordinator.as_bytes());
}

#[test]
fn election_message_from_bytes() {
    assert_eq!(
        Some(ElectionMessage::Election),
        ElectionMessage::from_bytes(&[b'E'])
    );
    assert_eq!(
        Some(ElectionMessage::OkElection),
        ElectionMessage::from_bytes(&[b'O'])
    );
    assert_eq!(
        Some(ElectionMessage::Coordinator),
        ElectionMessage::from_bytes(&[b'C'])
    );
}

#[test]
fn election_message_from_bytes_rejects_unknown() {
    assert_eq!(None, ElectionMessage::from_bytes(&[b'X']));
    assert_eq!(None, ElectionMessage::from_bytes("EO".as_bytes()));
}

#[test]
fn test_from_coordinator_as_string() {
    assert_eq!(
        *b"GRADE_FROM_COORDINATOR;asd;12.4;383838",
        AddGradeMessage::FromCoordinator(BlockchainRecord {
            student_name: "asd".to_string(),
            grade: format!("{}", 12.4),
            hash: 383838,
        })
        .as_string()
        .as_bytes()
    );
}

#[test]
fn test_to_coordinator_as_string() {
    assert_eq!(
        *b"GRADE_TO_COORDINATOR;qwe;52.6",
        AddGradeMessage::ToCoordinator("qwe".to_string(), format!("{}", 52.6))
            .as_string()
            .as_bytes()
    );
}

#[test]
fn test_to_coordinator_from_string() {
    assert_eq!(
        AddGradeMessage::from_string(String::from("GRADE_TO_COORDINATOR;ueu;399.4")),
        Some(AddGradeMessage::ToCoordinator(
            "ueu".to_string(),
            format!("{}", 399.4),
        ))
    );
}

#[test]
fn test_from_coordinator_from_string() {
    assert_eq!(
        AddGradeMessage::from_string(String::from(
            "GRADE_FROM_COORDINATOR;aaaa bbbb;123.123;9393939"
        )),
        Some(AddGradeMessage::FromCoordinator(BlockchainRecord {
            student_name: "aaaa bbbb".to_string(),
            grade: format!("{}", 123.123),
            hash: 9393939,
        }))
    );
}

#[test]
fn add_grade_message_test_none_from_string() {
    assert_eq!(
        AddGradeMessage::from_string(String::from("jfiosdjfiosdjio")),
        None
    );
}

#[test]
fn add_grade_message_rejects_missing_fields() {
    assert_eq!(
        AddGradeMessage::from_string(String::from("GRADE_TO_COORDINATOR;onlyname")),
        None
    );
    assert_eq!(
        AddGradeMessage::from_string(String::from("GRADE_FROM_COORDINATOR;a;1.5")),
        None
    );
    assert_eq!(
        AddGradeMessage::from_string(String::from("GRADE_FROM_COORDINATOR;a;1.5;nothash")),
        None
    );
}

#[test]
fn test_ask_for_blockchain_as_string() {
    assert_eq!(
        *b"AskForBlockchain",
        BlockchainMessage::AskForBlockchain.as_string().as_bytes()
    );
}

#[test]
fn test_blockchain_result_as_string() {
    let mut blockchain = Blockchain::new();
    let record = BlockchainRecord {
        student_name: "asd".to_string(),
        grade: format!("{}", 10.5),
        hash: 123,
    };
    blockchain.add_record(record);
    assert_eq!(
        String::from("BlockchainResult:asd,10.5,123"),
        BlockchainMessage::BlockchainResult(blockchain).as_string()
    );
}

#[test]
fn test_ask_for_blockchain_from_string() {
    assert_eq!(
        BlockchainMessage::from_string(String::from("AskForBlockchain")),
        Some(BlockchainMessage::AskForBlockchain)
    );
}

#[test]
fn test_blockchain_result_from_string() {
    let mut expected = Blockchain::new();
    let record = BlockchainRecord {
        student_name: "asd".to_string(),
        grade: format!("{}", 10.5),
        hash: 1234,
    };
    expected.add_record(record);
    assert_eq!(
        BlockchainMessage::from_string(String::from("BlockchainResult:asd,10.5,1234")),
        Some(BlockchainMessage::BlockchainResult(expected))
    );
}

#[test]
fn blockchain_message_test_none_from_string() {
    assert_eq!(
        BlockchainMessage::from_string(String::from("asdadasd")),
        None
    );
}

#[test]
fn test_empty_blockchain_result_as_string() {
    let blockchain = Blockchain::new();
    assert_eq!(
        String::from("BlockchainResult:"),
        BlockchainMessage::BlockchainResult(blockchain).as_string()
    );
}

#[test]
fn test_empty_blockchain_result_from_string() {
    let expected = Blockchain::new();
    assert_eq!(
        BlockchainMessage::from_string(String::from("BlockchainResult:")),
        Some(BlockchainMessage::BlockchainResult(expected))
    );
}

#[test]
fn test_blockchain_result_multiple_records_as_string() {
    let mut blockchain = Blockchain::new();
    let a_record = BlockchainRecord {
        student_name: "asd".to_string(),
        grade: format!("{}", 10.5),
        hash: 123,
    };
    let another_record = BlockchainRecord {
        student_name: "qwe".to_string(),
        grade: format!("{}", 8.5),
        hash: 678,
    };
    blockchain.add_record(a_record);
    blockchain.add_record(another_record);
    assert_eq!(
        String::from("BlockchainResult:asd,10.5,123;qwe,8.5,678"),
        BlockchainMessage::BlockchainResult(blockchain).as_string()
    );
}

#[test]
fn test_blockchain_result_multiple_records_from_string() {
    let mut expected = Blockchain::new();
    let record = BlockchainRecord {
        student_name: "asd".to_string(),
        grade: format!("{}", 10.5),
        hash: 123,
    };
    let another_record = BlockchainRecord {
        student_name: "qwe".to_string(),
        grade: format!("{}", 8.5),
        hash: 678,
    };
    expected.add_record(record);
    expected.add_record(another_record);
    assert_eq!(
        BlockchainMessage::from_string(String::from(
            "BlockchainResult:asd,10.5,123;qwe,8.5,678"
        )),
        Some(BlockchainMessage::BlockchainResult(expected))
    );
}

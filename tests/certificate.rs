use certificate_program::{
    issue_certificate, process_instruction, revoke_certificate, verify_certificate, AccountInfo,
    Certificate, CertificateInstruction, ProgramError, Pubkey,
};

fn key(b: u8) -> Pubkey {
    Pubkey::new([b; 32])
}

fn push_text(out: &mut Vec<u8>, s: &str) {
    out.extend_from_slice(&(s.len() as u32).to_le_bytes());
    out.extend_from_slice(s.as_bytes());
}

fn issue_data(student: &str, course: &str, id: &str, grade: &str) -> Vec<u8> {
    let mut out = vec![0u8];
    push_text(&mut out, student);
    push_text(&mut out, course);
    push_text(&mut out, id);
    push_text(&mut out, grade);
    out
}

fn accounts(signer: Pubkey, is_signer: bool, owner: Pubkey, size: usize) -> Vec<AccountInfo> {
    vec![
        AccountInfo { key: signer, is_signer, owner: key(0), data: Vec::new() },
        AccountInfo { key: key(200), is_signer: false, owner, data: vec![0u8; size] },
    ]
}

fn sample(issuer: Pubkey) -> Certificate {
    Certificate {
        student_name: "John Doe".to_string(),
        course_name: "Blockchain Development".to_string(),
        issue_date: 1234567890,
        issuer,
        certificate_id: "CERT-001".to_string(),
        grade: "A+".to_string(),
        is_revoked: false,
    }
}

#[test]
fn test_certificate_serialization() {
    let certificate = Certificate {
        student_name: "John Doe".to_string(),
        course_name: "Blockchain Development".to_string(),
        issue_date: 1234567890,
        issuer: key(42),
        certificate_id: "CERT-001".to_string(),
        grade: "A+".to_string(),
        is_revoked: false,
    };

    let mut buffer = vec![0u8; 1000];
    certificate.serialize(&mut buffer).unwrap();
    let deserialized = Certificate::try_from_slice(&buffer).unwrap();

    assert_eq!(certificate.student_name, deserialized.student_name);
    assert_eq!(certificate.course_name, deserialized.course_name);
    assert_eq!(certificate.certificate_id, deserialized.certificate_id);
}

#[test]
fn record_round_trip_keeps_every_field() {
    let mut c = sample(key(9));
    c.issue_date = -5;
    c.is_revoked = true;
    c.student_name = "Zoë Ångström".to_string();
    let bytes = c.try_to_vec();
    let d = Certificate::try_from_slice(&bytes).unwrap();
    assert_eq!(d.student_name, "Zoë Ångström");
    assert_eq!(d.course_name, c.course_name);
    assert_eq!(d.issue_date, -5);
    assert_eq!(d.issuer, key(9));
    assert_eq!(d.certificate_id, c.certificate_id);
    assert_eq!(d.grade, c.grade);
    assert!(d.is_revoked);
}

#[test]
fn record_bytes_layout() {
    let c = Certificate {
        student_name: "Al".to_string(),
        course_name: "".to_string(),
        issue_date: 0x0102030405060708,
        issuer: key(7),
        certificate_id: "é".to_string(),
        grade: "B".to_string(),
        is_revoked: true,
    };
    let mut expected: Vec<u8> = vec![2, 0, 0, 0, b'A', b'l', 0, 0, 0, 0];
    expected.extend_from_slice(&[8, 7, 6, 5, 4, 3, 2, 1]);
    expected.extend_from_slice(&[7u8; 32]);
    expected.extend_from_slice(&[2, 0, 0, 0, 0xc3, 0xa9, 1, 0, 0, 0, b'B', 1]);
    assert_eq!(c.try_to_vec(), expected);
}

#[test]
fn serialize_clears_the_rest_of_the_buffer() {
    let c = sample(key(1));
    let mut buffer = vec![0xffu8; 200];
    c.serialize(&mut buffer).unwrap();
    let n = c.try_to_vec().len();
    assert_eq!(&buffer[..n], &c.try_to_vec()[..]);
    assert!(buffer[n..].iter().all(|b| *b == 0));
}

#[test]
fn serialize_into_small_buffer_fails() {
    let c = sample(key(1));
    let n = c.try_to_vec().len();
    let mut buffer = vec![5u8; n - 1];
    assert_eq!(c.serialize(&mut buffer), Err(ProgramError::AccountDataTooSmall));
    assert_eq!(buffer, vec![5u8; n - 1]);
    let mut exact = vec![0u8; n];
    assert_eq!(c.serialize(&mut exact), Ok(()));
    assert_eq!(exact, c.try_to_vec());
}

#[test]
fn decode_rejects_truncated_buffer() {
    let bytes = sample(key(1)).try_to_vec();
    for cut in [0, 3, 10, bytes.len() - 1] {
        assert!(matches!(
            Certificate::try_from_slice(&bytes[..cut]),
            Err(ProgramError::DecodeError)
        ));
    }
}

#[test]
fn decode_rejects_nonzero_trailing_bytes() {
    let mut bytes = sample(key(1)).try_to_vec();
    bytes.push(0);
    assert!(Certificate::try_from_slice(&bytes).is_ok());
    bytes.push(3);
    assert!(matches!(Certificate::try_from_slice(&bytes), Err(ProgramError::DecodeError)));
}

#[test]
fn decode_rejects_overlong_text_length() {
    let mut bytes = sample(key(1)).try_to_vec();
    bytes[0] = 0xff;
    bytes[1] = 0xff;
    assert!(matches!(Certificate::try_from_slice(&bytes), Err(ProgramError::DecodeError)));
}

#[test]
fn decode_rejects_invalid_utf8() {
    let mut bytes = vec![1u8, 0, 0, 0, 0xff];
    bytes.extend_from_slice(&sample(key(1)).try_to_vec()[12..]);
    assert!(matches!(Certificate::try_from_slice(&bytes), Err(ProgramError::DecodeError)));
}

#[test]
fn decode_rejects_bad_flag_byte() {
    let mut bytes = sample(key(1)).try_to_vec();
    let last = bytes.len() - 1;
    bytes[last] = 2;
    assert!(matches!(Certificate::try_from_slice(&bytes), Err(ProgramError::DecodeError)));
}

#[test]
fn instruction_decoding() {
    assert!(matches!(
        CertificateInstruction::try_from_slice(&[1]),
        Ok(CertificateInstruction::VerifyCertificate)
    ));
    assert!(matches!(
        CertificateInstruction::try_from_slice(&[2]),
        Ok(CertificateInstruction::RevokeCertificate)
    ));
    match CertificateInstruction::try_from_slice(&issue_data("a", "b", "c", "d")) {
        Ok(CertificateInstruction::IssueCertificate {
            student_name,
            course_name,
            certificate_id,
            grade,
        }) => {
            assert_eq!(student_name, "a");
            assert_eq!(course_name, "b");
            assert_eq!(certificate_id, "c");
            assert_eq!(grade, "d");
        }
        other => panic!("unexpected {:?}", other),
    }
}

#[test]
fn malformed_instructions_are_rejected() {
    let mut trailing = issue_data("a", "b", "c", "d");
    trailing.push(0);
    let truncated = &issue_data("a", "b", "c", "d")[..10];
    for data in [&[][..], &[3][..], &[1, 0][..], &[2, 2][..], &trailing[..], truncated] {
        assert!(matches!(
            CertificateInstruction::try_from_slice(data),
            Err(ProgramError::MalformedCommand)
        ));
        let mut accts = accounts(key(1), true, key(50), 300);
        assert_eq!(
            process_instruction(&key(50), &mut accts, data, 0),
            Err(ProgramError::MalformedCommand)
        );
        assert_eq!(accts[1].data, vec![0u8; 300]);
    }
}

#[test]
fn issue_verify_revoke_scenario() {
    let program_id = key(50);
    let signer = key(1);
    let mut accts = accounts(signer, true, program_id, 300);
    let data = issue_data("John Doe", "Blockchain Development", "CERT-001", "A+");
    assert_eq!(process_instruction(&program_id, &mut accts, &data, 1700000000), Ok(()));
    let stored = Certificate::try_from_slice(&accts[1].data).unwrap();
    assert_eq!(stored.student_name, "John Doe");
    assert_eq!(stored.course_name, "Blockchain Development");
    assert_eq!(stored.certificate_id, "CERT-001");
    assert_eq!(stored.grade, "A+");
    assert_eq!(stored.issue_date, 1700000000);
    assert_eq!(stored.issuer, signer);
    assert!(!stored.is_revoked);

    let mut verify_accts = vec![AccountInfo {
        key: key(200),
        is_signer: false,
        owner: program_id,
        data: accts[1].data.clone(),
    }];
    assert_eq!(process_instruction(&program_id, &mut verify_accts, &[1], 0), Ok(()));

    // a different signer on the issued record
    let before = accts[1].data.clone();
    let mut other = vec![
        AccountInfo { key: key(2), is_signer: true, owner: key(0), data: Vec::new() },
        AccountInfo { key: key(200), is_signer: false, owner: program_id, data: before.clone() },
    ];
    assert_eq!(
        process_instruction(&program_id, &mut other, &[2], 0),
        Err(ProgramError::Unauthorized)
    );
    assert_eq!(other[1].data, before);

    assert_eq!(process_instruction(&program_id, &mut accts, &[2], 0), Ok(()));
    let after = Certificate::try_from_slice(&accts[1].data).unwrap();
    assert!(after.is_revoked);
    assert_eq!(after.student_name, stored.student_name);
    assert_eq!(after.course_name, stored.course_name);
    assert_eq!(after.certificate_id, stored.certificate_id);
    assert_eq!(after.grade, stored.grade);
    assert_eq!(after.issue_date, stored.issue_date);
    assert_eq!(after.issuer, stored.issuer);
    let n = stored.try_to_vec().len();
    for i in 0..accts[1].data.len() {
        if i == n - 1 {
            assert_eq!((before[i], accts[1].data[i]), (0, 1));
        } else {
            assert_eq!(before[i], accts[1].data[i]);
        }
    }

    let mut verify_again = vec![AccountInfo {
        key: key(200),
        is_signer: false,
        owner: program_id,
        data: accts[1].data.clone(),
    }];
    let revoked_bytes = verify_again[0].data.clone();
    assert_eq!(
        process_instruction(&program_id, &mut verify_again, &[1], 0),
        Err(ProgramError::RevokedCertificate)
    );
    assert_eq!(verify_again[0].data, revoked_bytes);
}

#[test]
fn issue_sets_issuer_and_clears_revoked_flag() {
    let program_id = key(50);
    let mut accts = accounts(key(3), true, program_id, 400);
    accts[1].data = vec![0xaau8; 400];
    assert_eq!(
        issue_certificate(
            &program_id,
            &mut accts,
            "S".to_string(),
            "C".to_string(),
            "I".to_string(),
            "G".to_string(),
            -1
        ),
        Ok(())
    );
    let c = Certificate::try_from_slice(&accts[1].data).unwrap();
    assert_eq!(c.issuer, key(3));
    assert!(!c.is_revoked);
    assert_eq!(c.issue_date, -1);
}

#[test]
fn issue_over_issued_record_replaces_it() {
    let program_id = key(50);
    let mut accts = accounts(key(3), true, program_id, 400);
    let long = issue_data("A long student name", "A long course", "ID-1", "A");
    let short = issue_data("B", "C", "D", "E");
    assert_eq!(process_instruction(&program_id, &mut accts, &long, 1), Ok(()));
    assert_eq!(process_instruction(&program_id, &mut accts, &short, 2), Ok(()));
    let c = Certificate::try_from_slice(&accts[1].data).unwrap();
    assert_eq!(c.student_name, "B");
    assert_eq!(c.issue_date, 2);
}

#[test]
fn issue_into_small_account_fails() {
    let program_id = key(50);
    let mut accts = accounts(key(3), true, program_id, 10);
    assert_eq!(
        process_instruction(&program_id, &mut accts, &issue_data("a", "b", "c", "d"), 0),
        Err(ProgramError::AccountDataTooSmall)
    );
    assert_eq!(accts[1].data, vec![0u8; 10]);
}

#[test]
fn unsigned_issue_and_revoke_fail_with_missing_signer() {
    let program_id = key(50);
    let mut accts = accounts(key(3), false, program_id, 300);
    accts[1].data = vec![9u8; 300];
    assert_eq!(
        process_instruction(&program_id, &mut accts, &issue_data("a", "b", "c", "d"), 0),
        Err(ProgramError::MissingSigner)
    );
    assert_eq!(revoke_certificate(&program_id, &mut accts), Err(ProgramError::MissingSigner));
    assert_eq!(accts[1].data, vec![9u8; 300]);
}

#[test]
fn wrong_owner_is_rejected() {
    let mut accts = accounts(key(3), true, key(51), 300);
    assert_eq!(
        process_instruction(&key(50), &mut accts, &issue_data("a", "b", "c", "d"), 0),
        Err(ProgramError::WrongOwner)
    );
    assert_eq!(revoke_certificate(&key(50), &mut accts), Err(ProgramError::WrongOwner));
    assert_eq!(accts[1].data, vec![0u8; 300]);
}

#[test]
fn missing_accounts_are_rejected() {
    let mut none: Vec<AccountInfo> = Vec::new();
    assert_eq!(verify_certificate(&none), Err(ProgramError::NotEnoughAccountKeys));
    assert_eq!(
        process_instruction(&key(50), &mut none, &[2], 0),
        Err(ProgramError::NotEnoughAccountKeys)
    );
    let mut one = vec![AccountInfo { key: key(1), is_signer: true, owner: key(0), data: vec![] }];
    assert_eq!(
        process_instruction(&key(50), &mut one, &issue_data("a", "b", "c", "d"), 0),
        Err(ProgramError::NotEnoughAccountKeys)
    );
}

#[test]
fn undecodable_record_is_a_decode_error() {
    let program_id = key(50);
    let mut accts = accounts(key(3), true, program_id, 3);
    accts[1].data = vec![1, 2, 3];
    assert_eq!(revoke_certificate(&program_id, &mut accts), Err(ProgramError::DecodeError));
    let garbage = vec![AccountInfo { key: key(1), is_signer: false, owner: program_id, data: vec![7; 40] }];
    assert_eq!(verify_certificate(&garbage), Err(ProgramError::DecodeError));
}

#[test]
fn revoking_twice_succeeds_and_changes_nothing_more() {
    let program_id = key(50);
    let mut accts = accounts(key(3), true, program_id, 300);
    let mut buf = vec![0u8; 300];
    sample(key(3)).serialize(&mut buf).unwrap();
    accts[1].data = buf;
    assert_eq!(revoke_certificate(&program_id, &mut accts), Ok(()));
    let once = accts[1].data.clone();
    assert_eq!(revoke_certificate(&program_id, &mut accts), Ok(()));
    assert_eq!(accts[1].data, once);
    assert_eq!(verify_certificate(&vec![AccountInfo {
        key: key(200),
        is_signer: false,
        owner: program_id,
        data: once,
    }]), Err(ProgramError::RevokedCertificate));
}

#[test]
fn pubkey_equality() {
    assert_eq!(key(1), key(1));
    let mut b = [1u8; 32];
    b[31] = 2;
    assert_ne!(key(1), Pubkey::new(b));
}

//! The lifecycle operations (issue, verify, revoke) and the entry point
//! that routes a command to them.
//!
//! Issue and revoke take two accounts: the issuer, which must have signed
//! the invocation, and the record account, which must be owned by this
//! processor. Verify takes the record account alone.

use crate::codec::{
    decode_encode_round_trip, decoded_buffer_is_encoding, padded, parse_record, record_bytes, text_fits,
    valid_record, zeros,
};
use crate::instruction::{lemma_instruction_texts_fit, parse_instruction, InstructionView};
use crate::types::{
    accounts_view, AccountInfo, AccountView, Certificate, CertificateInstruction, CertificateView,
    ProgramError, Pubkey,
};
use vstd::prelude::*;

verus! {

/// The account `a` with its bytes replaced by `data`.
pub open spec fn with_data(a: AccountView, data: Seq<u8>) -> AccountView {
    AccountView { key: a.key, is_signer: a.is_signer, owner: a.owner, data }
}

/// The record that issue builds.
pub open spec fn issued(
    issuer: Seq<u8>,
    student_name: Seq<char>,
    course_name: Seq<char>,
    certificate_id: Seq<char>,
    grade: Seq<char>,
    now: i64,
) -> CertificateView {
    CertificateView {
        student_name,
        course_name,
        issue_date: now,
        issuer,
        certificate_id,
        grade,
        is_revoked: false,
    }
}

/// The record `c` marked revoked.
pub open spec fn revoked(c: CertificateView) -> CertificateView {
    CertificateView { is_revoked: true, ..c }
}

/// The checks on the issuer and record accounts, in order.
pub open spec fn authorize_outcome(program_id: Seq<u8>, accounts: Seq<AccountView>) -> Result<
    (),
    ProgramError,
> {
    if accounts.len() < 2 {
        Err(ProgramError::NotEnoughAccountKeys)
    } else if !accounts[0].is_signer {
        Err(ProgramError::MissingSigner)
    } else if accounts[1].owner != program_id {
        Err(ProgramError::WrongOwner)
    } else {
        Ok(())
    }
}

/// The result of issue and the accounts after it.
pub open spec fn issue_outcome(
    program_id: Seq<u8>,
    accounts: Seq<AccountView>,
    student_name: Seq<char>,
    course_name: Seq<char>,
    certificate_id: Seq<char>,
    grade: Seq<char>,
    now: i64,
) -> (Result<(), ProgramError>, Seq<AccountView>) {
    match authorize_outcome(program_id, accounts) {
        Err(e) => (Err(e), accounts),
        Ok(_) => {
            let bytes = record_bytes(
                issued(accounts[0].key, student_name, course_name, certificate_id, grade, now),
            );
            let target = accounts[1];
            if bytes.len() > target.data.len() {
                (Err(ProgramError::AccountDataTooSmall), accounts)
            } else {
                (
                    Ok(()),
                    accounts.update(1, with_data(target, padded(bytes, target.data.len()))),
                )
            }
        },
    }
}

/// The result of verify.
pub open spec fn verify_outcome(accounts: Seq<AccountView>) -> Result<(), ProgramError> {
    if accounts.len() < 1 {
        Err(ProgramError::NotEnoughAccountKeys)
    } else {
        match parse_record(accounts[0].data) {
            None => Err(ProgramError::DecodeError),
            Some(c) => if c.is_revoked {
                Err(ProgramError::RevokedCertificate)
            } else {
                Ok(())
            },
        }
    }
}

/// The result of revoke and the accounts after it.
pub open spec fn revoke_outcome(program_id: Seq<u8>, accounts: Seq<AccountView>) -> (
    Result<(), ProgramError>,
    Seq<AccountView>,
) {
    match authorize_outcome(program_id, accounts) {
        Err(e) => (Err(e), accounts),
        Ok(_) => {
            let target = accounts[1];
            match parse_record(target.data) {
                None => (Err(ProgramError::DecodeError), accounts),
                Some(c) => if c.issuer != accounts[0].key {
                    (Err(ProgramError::Unauthorized), accounts)
                } else {
                    (
                        Ok(()),
                        accounts.update(
                            1,
                            with_data(target, padded(record_bytes(revoked(c)), target.data.len())),
                        ),
                    )
                },
            }
        },
    }
}

/// The result of an invocation and the accounts after it.
pub open spec fn process_outcome(
    program_id: Seq<u8>,
    accounts: Seq<AccountView>,
    data: Seq<u8>,
    now: i64,
) -> (Result<(), ProgramError>, Seq<AccountView>) {
    match parse_instruction(data) {
        None => (Err(ProgramError::MalformedCommand), accounts),
        Some(InstructionView::Issue { student_name, course_name, certificate_id, grade }) => {
            issue_outcome(
                program_id,
                accounts,
                student_name,
                course_name,
                certificate_id,
                grade,
                now,
            )
        },
        Some(InstructionView::Verify) => (verify_outcome(accounts), accounts),
        Some(InstructionView::Revoke) => revoke_outcome(program_id, accounts),
    }
}

/// Checks that the issuer signed and that the record account belongs to
/// this processor, stopping at the first failure.
fn authorize(program_id: &Pubkey, accounts: &Vec<AccountInfo>) -> (r: Result<(), ProgramError>)
    ensures
        r == authorize_outcome(program_id@, accounts_view(accounts@)),
{
    if accounts.len() < 2 {
        return Err(ProgramError::NotEnoughAccountKeys);
    }
    if !accounts[0].is_signer {
        return Err(ProgramError::MissingSigner);
    }
    if !(accounts[1].owner == *program_id) {
        return Err(ProgramError::WrongOwner);
    }
    Ok(())
}

/// Writes `certificate` into the record account (the second one).
fn write_record(accounts: &mut Vec<AccountInfo>, certificate: &Certificate) -> (r: Result<
    (),
    ProgramError,
>)
    requires
        old(accounts)@.len() >= 2,
        valid_record(certificate@),
    ensures
        ({
            let before = accounts_view(old(accounts)@);
            let bytes = record_bytes(certificate@);
            if bytes.len() > before[1].data.len() {
                r == Err::<(), ProgramError>(ProgramError::AccountDataTooSmall)
                    && final(accounts)@ == old(accounts)@
            } else {
                r == Ok::<(), ProgramError>(()) && accounts_view(final(accounts)@) == before.update(
                    1,
                    with_data(before[1], padded(bytes, before[1].data.len())),
                )
            }
        }),
{
    let mut data = accounts[1].data.clone();
    assert(data@ == accounts@[1].data@);
    match certificate.serialize(&mut data) {
        Err(e) => Err(e),
        Ok(()) => {
            let updated = AccountInfo {
                key: accounts[1].key,
                is_signer: accounts[1].is_signer,
                owner: accounts[1].owner,
                data,
            };
            accounts.set(1, updated);
            assert(accounts_view(accounts@) =~= accounts_view(old(accounts)@).update(
                1,
                with_data(
                    accounts_view(old(accounts)@)[1],
                    padded(record_bytes(certificate@), old(accounts)@[1].data@.len()),
                ),
            ));
            Ok(())
        },
    }
}

/// Issues a certificate: the issuer (first account) must have signed and
/// the record account (second) must belong to this processor. The record
/// gets the issue date `now`, the issuer's key, and is not revoked; it is
/// written over the record account's bytes, the rest of which are cleared.
pub fn issue_certificate(
    program_id: &Pubkey,
    accounts: &mut Vec<AccountInfo>,
    student_name: String,
    course_name: String,
    certificate_id: String,
    grade: String,
    now: i64,
) -> (r: Result<(), ProgramError>)
    requires
        text_fits(student_name@),
        text_fits(course_name@),
        text_fits(certificate_id@),
        text_fits(grade@),
    ensures
        (r, accounts_view(final(accounts)@)) == issue_outcome(
            program_id@,
            accounts_view(old(accounts)@),
            student_name@,
            course_name@,
            certificate_id@,
            grade@,
            now,
        ),
{
    match authorize(program_id, accounts) {
        Err(e) => return Err(e),
        Ok(()) => {},
    }
    let certificate = Certificate {
        student_name,
        course_name,
        issue_date: now,
        issuer: accounts[0].key,
        certificate_id,
        grade,
        is_revoked: false,
    };
    write_record(accounts, &certificate)
}

/// Verifies the certificate held by the (first) record account: fails
/// where it cannot be read or has been revoked.
pub fn verify_certificate(accounts: &Vec<AccountInfo>) -> (r: Result<(), ProgramError>)
    ensures
        r == verify_outcome(accounts_view(accounts@)),
{
    if accounts.len() < 1 {
        return Err(ProgramError::NotEnoughAccountKeys);
    }
    let certificate = match Certificate::try_from_slice(accounts[0].data.as_slice()) {
        Ok(c) => c,
        Err(e) => return Err(e),
    };
    if certificate.is_revoked {
        return Err(ProgramError::RevokedCertificate);
    }
    Ok(())
}

/// Revokes the certificate held by the record account (second): the
/// issuer (first account) must have signed, the record account must belong
/// to this processor, and the signer must be the record's issuer.
pub fn revoke_certificate(program_id: &Pubkey, accounts: &mut Vec<AccountInfo>) -> (r: Result<
    (),
    ProgramError,
>)
    ensures
        (r, accounts_view(final(accounts)@)) == revoke_outcome(
            program_id@,
            accounts_view(old(accounts)@),
        ),
{
    match authorize(program_id, accounts) {
        Err(e) => return Err(e),
        Ok(()) => {},
    }
    let mut certificate = match Certificate::try_from_slice(accounts[1].data.as_slice()) {
        Ok(c) => c,
        Err(e) => return Err(e),
    };
    if !(certificate.issuer == accounts[0].key) {
        return Err(ProgramError::Unauthorized);
    }
    proof {
        decoded_buffer_is_encoding(accounts@[1].data@);
    }
    certificate.is_revoked = true;
    assert(certificate@ == revoked(parse_record(accounts@[1].data@).unwrap()));
    write_record(accounts, &certificate)
}

/// The entry point: decodes the command in `instruction_data` and runs it
/// on `accounts`; `now` is the clock's current time.
pub fn process_instruction(
    program_id: &Pubkey,
    accounts: &mut Vec<AccountInfo>,
    instruction_data: &[u8],
    now: i64,
) -> (r: Result<(), ProgramError>)
    ensures
        (r, accounts_view(final(accounts)@)) == process_outcome(
            program_id@,
            accounts_view(old(accounts)@),
            instruction_data@,
            now,
        ),
{
    let instruction = match CertificateInstruction::try_from_slice(instruction_data) {
        Ok(i) => i,
        Err(e) => return Err(e),
    };
    match instruction {
        CertificateInstruction::IssueCertificate {
            student_name,
            course_name,
            certificate_id,
            grade,
        } => {
            proof {
                lemma_instruction_texts_fit(instruction_data@);
            }
            issue_certificate(
                program_id,
                accounts,
                student_name,
                course_name,
                certificate_id,
                grade,
                now,
            )
        },
        CertificateInstruction::VerifyCertificate => verify_certificate(accounts),
        CertificateInstruction::RevokeCertificate => revoke_certificate(program_id, accounts),
    }
}

/// Every key and owner in the account list is 32 bytes long.
pub open spec fn valid_accounts(accounts: Seq<AccountView>) -> bool {
    forall|k: int| 0 <= k < accounts.len() ==> (#[trigger] accounts[k]).key.len() == 32
        && accounts[k].owner.len() == 32
}

/// A successful issue leaves in the record account a record that decodes
/// to the supplied texts, the issue date `now`, the signer's key as issuer,
/// and not revoked, whatever the account held before.
pub proof fn issue_sets_issuer_and_unrevoked(
    program_id: Seq<u8>,
    accounts: Seq<AccountView>,
    student_name: Seq<char>,
    course_name: Seq<char>,
    certificate_id: Seq<char>,
    grade: Seq<char>,
    now: i64,
)
    requires
        valid_accounts(accounts),
        text_fits(student_name),
        text_fits(course_name),
        text_fits(certificate_id),
        text_fits(grade),
        issue_outcome(
            program_id,
            accounts,
            student_name,
            course_name,
            certificate_id,
            grade,
            now,
        ).0 is Ok,
    ensures
        ({
            let after = issue_outcome(
                program_id,
                accounts,
                student_name,
                course_name,
                certificate_id,
                grade,
                now,
            ).1;
            &&& parse_record(after[1].data) == Some(
                issued(accounts[0].key, student_name, course_name, certificate_id, grade, now),
            )
            &&& parse_record(after[1].data).unwrap().is_revoked == false
            &&& parse_record(after[1].data).unwrap().issuer == accounts[0].key
        }),
{
    let c = issued(accounts[0].key, student_name, course_name, certificate_id, grade, now);
    let len = accounts[1].data.len();
    let z = zeros((len - record_bytes(c).len()) as nat);
    decode_encode_round_trip(c, z);
}

/// Revoke by a signer whose key differs from the stored record's issuer
/// fails with `Unauthorized` and leaves the accounts as they were.
pub proof fn revoke_by_other_signer_is_unauthorized(
    program_id: Seq<u8>,
    accounts: Seq<AccountView>,
)
    requires
        accounts.len() >= 2,
        accounts[0].is_signer,
        accounts[1].owner == program_id,
        parse_record(accounts[1].data) is Some,
        parse_record(accounts[1].data).unwrap().issuer != accounts[0].key,
    ensures
        revoke_outcome(program_id, accounts) == (
        Err::<(), ProgramError>(ProgramError::Unauthorized),
        accounts,
        ),
{
}

/// A successful revoke leaves a record equal to the old one but for the
/// revoked flag, which is set.
pub proof fn revoke_keeps_other_fields(program_id: Seq<u8>, accounts: Seq<AccountView>)
    requires
        revoke_outcome(program_id, accounts).0 is Ok,
    ensures
        parse_record(revoke_outcome(program_id, accounts).1[1].data) == Some(
            revoked(parse_record(accounts[1].data).unwrap()),
        ),
{
    let data = accounts[1].data;
    let c = parse_record(data).unwrap();
    decoded_buffer_is_encoding(data);
    let z = zeros((data.len() - record_bytes(revoked(c)).len()) as nat);
    decode_encode_round_trip(revoked(c), z);
}

/// A verify command on a revoked record fails with `RevokedCertificate`
/// and changes no account.
pub proof fn verify_of_revoked_fails(
    program_id: Seq<u8>,
    accounts: Seq<AccountView>,
    data: Seq<u8>,
    now: i64,
)
    requires
        parse_instruction(data) == Some(InstructionView::Verify),
        accounts.len() >= 1,
        parse_record(accounts[0].data) is Some,
        parse_record(accounts[0].data).unwrap().is_revoked,
    ensures
        verify_outcome(accounts) == Err::<(), ProgramError>(ProgramError::RevokedCertificate),
        process_outcome(program_id, accounts, data, now) == (
        Err::<(), ProgramError>(ProgramError::RevokedCertificate),
        accounts,
        ),
{
}

/// Issue and revoke fail with `MissingSigner` where the issuer account did
/// not sign, whatever the record account holds, and change no account.
pub proof fn unsigned_issue_and_revoke_fail(
    program_id: Seq<u8>,
    accounts: Seq<AccountView>,
    student_name: Seq<char>,
    course_name: Seq<char>,
    certificate_id: Seq<char>,
    grade: Seq<char>,
    now: i64,
)
    requires
        accounts.len() >= 2,
        !accounts[0].is_signer,
    ensures
        issue_outcome(
            program_id,
            accounts,
            student_name,
            course_name,
            certificate_id,
            grade,
            now,
        ) == (Err::<(), ProgramError>(ProgramError::MissingSigner), accounts),
        revoke_outcome(program_id, accounts) == (
        Err::<(), ProgramError>(ProgramError::MissingSigner),
        accounts,
        ),
{
}

} // verus!

use vstd::prelude::*;

verus! {

/// A 32-byte identity key (of a signer, an account or this processor).
#[derive(Clone, Copy, Debug)]
pub struct Pubkey {
    pub bytes: [u8; 32],
}

impl Pubkey {
    pub fn new(bytes: [u8; 32]) -> (r: Pubkey)
        ensures
            r.bytes@ == bytes@,
    {
        Pubkey { bytes }
    }
}

impl View for Pubkey {
    type V = Seq<u8>;

    open spec fn view(&self) -> Seq<u8> {
        self.bytes@
    }
}

impl PartialEq for Pubkey {
    fn eq(&self, other: &Pubkey) -> (r: bool)
        ensures
            r == (self@ == other@),
    {
        let mut i: usize = 0;
        while i < 32
            invariant
                i <= 32,
                self@.len() == 32,
                other@.len() == 32,
                forall|k: int| 0 <= k < i ==> self@[k] == other@[k],
            decreases 32 - i,
        {
            if self.bytes[i] != other.bytes[i] {
                return false;
            }
            i = i + 1;
        }
        assert(self@ =~= other@);
        true
    }
}

impl vstd::std_specs::cmp::PartialEqSpecImpl for Pubkey {
    open spec fn obeys_eq_spec() -> bool {
        true
    }

    open spec fn eq_spec(&self, other: &Pubkey) -> bool {
        self@ == other@
    }
}

/// The stored certificate record.
#[derive(Debug)]
pub struct Certificate {
    pub student_name: String,
    pub course_name: String,
    pub issue_date: i64,
    pub issuer: Pubkey,
    pub certificate_id: String,
    pub grade: String,
    pub is_revoked: bool,
}

/// The mathematical value of a certificate record.
pub struct CertificateView {
    pub student_name: Seq<char>,
    pub course_name: Seq<char>,
    pub issue_date: i64,
    pub issuer: Seq<u8>,
    pub certificate_id: Seq<char>,
    pub grade: Seq<char>,
    pub is_revoked: bool,
}

impl View for Certificate {
    type V = CertificateView;

    open spec fn view(&self) -> CertificateView {
        CertificateView {
            student_name: self.student_name@,
            course_name: self.course_name@,
            issue_date: self.issue_date,
            issuer: self.issuer@,
            certificate_id: self.certificate_id@,
            grade: self.grade@,
            is_revoked: self.is_revoked,
        }
    }
}

/// One account handed to an invocation: its identity, whether it signed the
/// invocation, the processor that owns it, and its bytes.
#[derive(Debug)]
pub struct AccountInfo {
    pub key: Pubkey,
    pub is_signer: bool,
    pub owner: Pubkey,
    pub data: Vec<u8>,
}

pub struct AccountView {
    pub key: Seq<u8>,
    pub is_signer: bool,
    pub owner: Seq<u8>,
    pub data: Seq<u8>,
}

impl View for AccountInfo {
    type V = AccountView;

    open spec fn view(&self) -> AccountView {
        AccountView {
            key: self.key@,
            is_signer: self.is_signer,
            owner: self.owner@,
            data: self.data@,
        }
    }
}

/// The views of a list of accounts.
pub open spec fn accounts_view(accounts: Seq<AccountInfo>) -> Seq<AccountView> {
    accounts.map_values(|a: AccountInfo| a@)
}

/// The ways an invocation can fail.
#[derive(Clone, Copy, Debug, PartialEq, Eq, Structural)]
pub enum ProgramError {
    /// The command buffer matches no known command.
    MalformedCommand,
    /// Fewer accounts were supplied than the command needs.
    NotEnoughAccountKeys,
    /// A required account did not sign the invocation.
    MissingSigner,
    /// The record account is not owned by this processor.
    WrongOwner,
    /// The signer is not the record's issuer.
    Unauthorized,
    /// The record has been revoked.
    RevokedCertificate,
    /// The record bytes do not hold a valid record.
    DecodeError,
    /// The record account's buffer is too small for the record.
    AccountDataTooSmall,
}

/// The commands the processor accepts.
#[derive(Debug)]
pub enum CertificateInstruction {
    /// Accounts: the issuer (signer), then the record account (owned by this processor).
    IssueCertificate {
        student_name: String,
        course_name: String,
        certificate_id: String,
        grade: String,
    },
    /// Accounts: the record account.
    VerifyCertificate,
    /// Accounts: the issuer (signer), then the record account (owned by this processor).
    RevokeCertificate,
}

} // verus!

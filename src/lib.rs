//! Issues, verifies and revokes course certificates kept in
//! account-addressed byte buffers.

pub mod codec;
pub mod instruction;
pub mod processor;
pub mod types;

pub use processor::{
    issue_certificate, process_instruction, revoke_certificate, verify_certificate,
};
pub use types::{
    AccountInfo, Certificate, CertificateInstruction, ProgramError, Pubkey,
};

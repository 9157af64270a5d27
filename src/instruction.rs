//! The command envelope: one tag byte (0 issue, 1 verify, 2 revoke); an
//! issue command is followed by its four texts, laid out as in a record.

use crate::codec::{lemma_text_bytes_parse, parse_text, read_text_at, suffix, text_fits};
use crate::types::{CertificateInstruction, ProgramError};
use vstd::prelude::*;

verus! {

pub enum InstructionView {
    Issue {
        student_name: Seq<char>,
        course_name: Seq<char>,
        certificate_id: Seq<char>,
        grade: Seq<char>,
    },
    Verify,
    Revoke,
}

impl View for CertificateInstruction {
    type V = InstructionView;

    open spec fn view(&self) -> InstructionView {
        match self {
            CertificateInstruction::IssueCertificate {
                student_name,
                course_name,
                certificate_id,
                grade,
            } => InstructionView::Issue {
                student_name: student_name@,
                course_name: course_name@,
                certificate_id: certificate_id@,
                grade: grade@,
            },
            CertificateInstruction::VerifyCertificate => InstructionView::Verify,
            CertificateInstruction::RevokeCertificate => InstructionView::Revoke,
        }
    }
}

/// The command that a buffer holds, if any; nothing may follow it.
pub open spec fn parse_instruction(b: Seq<u8>) -> Option<InstructionView> {
    if b.len() == 0 {
        None
    } else if b[0] == 0 {
        match parse_text(suffix(b, 1)) {
            None => None,
            Some((student_name, b1)) => match parse_text(b1) {
                None => None,
                Some((course_name, b2)) => match parse_text(b2) {
                    None => None,
                    Some((certificate_id, b3)) => match parse_text(b3) {
                        None => None,
                        Some((grade, b4)) => if b4.len() == 0 {
                            Some(
                                InstructionView::Issue {
                                    student_name,
                                    course_name,
                                    certificate_id,
                                    grade,
                                },
                            )
                        } else {
                            None
                        },
                    },
                },
            },
        }
    } else if b.len() == 1 && b[0] == 1 {
        Some(InstructionView::Verify)
    } else if b.len() == 1 && b[0] == 2 {
        Some(InstructionView::Revoke)
    } else {
        None
    }
}

/// The texts of a decoded issue command fit a record.
pub proof fn lemma_instruction_texts_fit(b: Seq<u8>)
    requires
        parse_instruction(b) matches Some(InstructionView::Issue { .. }),
    ensures
        parse_instruction(b) matches Some(
            InstructionView::Issue { student_name, course_name, certificate_id, grade },
        ) ==> text_fits(student_name) && text_fits(course_name) && text_fits(certificate_id)
            && text_fits(grade),
{
    let b1 = parse_text(suffix(b, 1)).unwrap().1;
    let b2 = parse_text(b1).unwrap().1;
    let b3 = parse_text(b2).unwrap().1;
    lemma_text_bytes_parse(suffix(b, 1));
    lemma_text_bytes_parse(b1);
    lemma_text_bytes_parse(b2);
    lemma_text_bytes_parse(b3);
}

impl CertificateInstruction {
    /// Reads the command that `data` holds.
    pub fn try_from_slice(data: &[u8]) -> (r: Result<CertificateInstruction, ProgramError>)
        ensures
            match parse_instruction(data@) {
                Some(v) => r is Ok && r->Ok_0@ == v,
                None => r == Err::<CertificateInstruction, ProgramError>(
                    ProgramError::MalformedCommand,
                ),
            },
    {
        if data.len() == 0 {
            return Err(ProgramError::MalformedCommand);
        }
        if data[0] == 1 && data.len() == 1 {
            return Ok(CertificateInstruction::VerifyCertificate);
        }
        if data[0] == 2 && data.len() == 1 {
            return Ok(CertificateInstruction::RevokeCertificate);
        }
        if data[0] != 0 {
            return Err(ProgramError::MalformedCommand);
        }
        let (student_name, pos1) = match read_text_at(data, 1) {
            Some(x) => x,
            None => return Err(ProgramError::MalformedCommand),
        };
        let (course_name, pos2) = match read_text_at(data, pos1) {
            Some(x) => x,
            None => return Err(ProgramError::MalformedCommand),
        };
        let (certificate_id, pos3) = match read_text_at(data, pos2) {
            Some(x) => x,
            None => return Err(ProgramError::MalformedCommand),
        };
        let (grade, pos4) = match read_text_at(data, pos3) {
            Some(x) => x,
            None => return Err(ProgramError::MalformedCommand),
        };
        if pos4 != data.len() {
            return Err(ProgramError::MalformedCommand);
        }
        Ok(CertificateInstruction::IssueCertificate { student_name, course_name, certificate_id, grade })
    }
}

} // verus!

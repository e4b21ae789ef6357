//! The operations of the program and their wire format: one opcode byte,
//! then the payload.

use crate::codec::read_text;
use crate::codec::read_u8;
use crate::codec::text_at;
use crate::codec::u8_at;
use crate::error::ReviewError;
use vstd::prelude::*;

verus! {

/// Opcode of [`MovieInstruction::AddMovieReview`].
pub const OP_ADD_REVIEW: u8 = 0;

/// Opcode of [`MovieInstruction::UpdateMovieReview`].
pub const OP_UPDATE_REVIEW: u8 = 1;

/// Opcode of [`MovieInstruction::AddComment`].
pub const OP_ADD_COMMENT: u8 = 2;

/// A decoded operation.
#[derive(Clone, Debug, PartialEq, Eq)]
pub enum MovieInstruction {
    AddMovieReview { title: String, rating: u8, description: String },
    UpdateMovieReview { title: String, rating: u8, description: String },
    AddComment { comment: String },
}

/// The mathematical value of a [`MovieInstruction`].
pub enum InstructionView {
    AddMovieReview { title: Seq<char>, rating: u8, description: Seq<char> },
    UpdateMovieReview { title: Seq<char>, rating: u8, description: Seq<char> },
    AddComment { comment: Seq<char> },
}

impl View for MovieInstruction {
    type V = InstructionView;

    open spec fn view(&self) -> InstructionView {
        match self {
            MovieInstruction::AddMovieReview {
                title,
                rating,
                description,
            } => InstructionView::AddMovieReview {
                title: title@,
                rating: *rating,
                description: description@,
            },
            MovieInstruction::UpdateMovieReview {
                title,
                rating,
                description,
            } => InstructionView::UpdateMovieReview {
                title: title@,
                rating: *rating,
                description: description@,
            },
            MovieInstruction::AddComment { comment } => InstructionView::AddComment {
                comment: comment@,
            },
        }
    }
}

/// The payload of the two review operations, read after the opcode: title,
/// rating, description, and nothing after them.
pub open spec fn review_payload(b: Seq<u8>) -> Option<(Seq<char>, u8, Seq<char>)> {
    match text_at(b, 1) {
        Some((title, end1)) => match u8_at(b, end1) {
            Some((rating, end2)) => match text_at(b, end2) {
                Some((description, end3)) => if end3 == b.len() {
                    Some((title, rating, description))
                } else {
                    None
                },
                None => None,
            },
            None => None,
        },
        None => None,
    }
}

/// The payload of the comment operation, read after the opcode: the text,
/// and nothing after it.
pub open spec fn comment_payload(b: Seq<u8>) -> Option<Seq<char>> {
    match text_at(b, 1) {
        Some((comment, p)) => if p == b.len() {
            Some(comment)
        } else {
            None
        },
        None => None,
    }
}

/// The operation that the bytes `b` stand for, if they stand for one.
pub open spec fn unpacked(b: Seq<u8>) -> Option<InstructionView> {
    if b.len() == 0 {
        None
    } else if b[0] == OP_ADD_REVIEW {
        match review_payload(b) {
            Some((title, rating, description)) => Some(
                InstructionView::AddMovieReview { title, rating, description },
            ),
            None => None,
        }
    } else if b[0] == OP_UPDATE_REVIEW {
        match review_payload(b) {
            Some((title, rating, description)) => Some(
                InstructionView::UpdateMovieReview { title, rating, description },
            ),
            None => None,
        }
    } else if b[0] == OP_ADD_COMMENT {
        match comment_payload(b) {
            Some(comment) => Some(InstructionView::AddComment { comment }),
            None => None,
        }
    } else {
        None
    }
}

/// Reads the payload of the two review operations.
fn unpack_review(input: &[u8]) -> (r: Option<(String, u8, String)>)
    ensures
        match r {
            Some((t, n, d)) => review_payload(input@) == Some((t@, n, d@)),
            None => review_payload(input@) is None,
        },
{
    let (title, end1) = match read_text(input, 1) {
        Some(x) => x,
        None => {
            return None;
        },
    };
    let (rating, end2) = match read_u8(input, end1) {
        Some(x) => x,
        None => {
            return None;
        },
    };
    let (description, end3) = match read_text(input, end2) {
        Some(x) => x,
        None => {
            return None;
        },
    };
    if end3 != input.len() {
        return None;
    }
    Some((title, rating, description))
}

impl MovieInstruction {
    /// Decodes an operation. Bytes that stand for none are rejected with
    /// `InvalidInstructionData`.
    pub fn unpack(input: &[u8]) -> (r: Result<MovieInstruction, ReviewError>)
        ensures
            match r {
                Ok(ix) => unpacked(input@) == Some(ix@),
                Err(e) => unpacked(input@) is None && e == ReviewError::InvalidInstructionData,
            },
    {
        if input.len() == 0 {
            return Err(ReviewError::InvalidInstructionData);
        }
        let opcode = input[0];
        if opcode == OP_ADD_REVIEW {
            match unpack_review(input) {
                Some((title, rating, description)) => Ok(
                    MovieInstruction::AddMovieReview { title, rating, description },
                ),
                None => Err(ReviewError::InvalidInstructionData),
            }
        } else if opcode == OP_UPDATE_REVIEW {
            match unpack_review(input) {
                Some((title, rating, description)) => Ok(
                    MovieInstruction::UpdateMovieReview { title, rating, description },
                ),
                None => Err(ReviewError::InvalidInstructionData),
            }
        } else if opcode == OP_ADD_COMMENT {
            match read_text(input, 1) {
                Some((comment, p)) => if p == input.len() {
                    Ok(MovieInstruction::AddComment { comment })
                } else {
                    Err(ReviewError::InvalidInstructionData)
                },
                None => Err(ReviewError::InvalidInstructionData),
            }
        } else {
            Err(ReviewError::InvalidInstructionData)
        }
    }
}

} // verus!

//! Parsing of numeric id fields from request bodies.
//!
//! Multipart fields arrive as raw bytes; the ids they carry are signed
//! 32-bit decimals with an optional sign.  An absent message id is
//! allowed and reads as zero.

use vstd::prelude::*;
use crate::byteseq::{all_dec_digits, dec_seq_val, parse_digits_u64, BYTE_DASH, BYTE_PLUS};
use crate::error::UploadError;

verus! {

/// The sign a numeric text denotes.
pub open spec fn sign_of(s: Seq<u8>) -> int {
    if s.len() > 0 && s[0] == BYTE_DASH {
        -1
    } else {
        1
    }
}

/// The digits of a numeric text, after any sign.
pub open spec fn num_body(s: Seq<u8>) -> Seq<u8> {
    if s.len() > 0 && (s[0] == BYTE_PLUS || s[0] == BYTE_DASH) {
        s.subrange(1, s.len() as int)
    } else {
        s
    }
}

/// Is `s` the decimal text of a 32-bit signed integer?
pub open spec fn is_i32_text(s: Seq<u8>) -> bool {
    num_body(s).len() > 0 && all_dec_digits(num_body(s)) && (if sign_of(s) < 0 {
        dec_seq_val(num_body(s)) <= 0x80000000
    } else {
        dec_seq_val(num_body(s)) <= 0x7fffffff
    })
}

/// The value a valid 32-bit decimal text denotes.
pub open spec fn i32_text_val(s: Seq<u8>) -> int {
    sign_of(s) * dec_seq_val(num_body(s))
}

/// Parses a signed 32-bit decimal with an optional leading sign.
pub fn parse_i32_bytes(s: &[u8]) -> (r: Option<i32>)
    ensures
        match r {
            Some(v) => is_i32_text(s@) && v as int == i32_text_val(s@),
            None => !is_i32_text(s@),
        },
{
    if s.len() == 0 {
        return None;
    }
    let neg: bool;
    let body: &[u8];
    if s[0] == BYTE_PLUS {
        neg = false;
        body = vstd::slice::slice_subrange(s, 1, s.len());
    } else if s[0] == BYTE_DASH {
        neg = true;
        body = vstd::slice::slice_subrange(s, 1, s.len());
    } else {
        neg = false;
        body = vstd::slice::slice_subrange(s, 0, s.len());
    }
    proof {
        assert(body@ =~= num_body(s@));
    }
    let bound: u64 = if neg {
        0x80000000
    } else {
        0x7fffffff
    };
    match parse_digits_u64(body, bound) {
        Some(v) => {
            if neg {
                Some((-(v as i64)) as i32)
            } else {
                Some(v as i32)
            }
        },
        None => None,
    }
}

/// The id fields a request may carry.
#[derive(Clone, Copy, PartialEq, Eq, Structural, Debug)]
pub enum IdField {
    GroupId,
    OwnerId,
    MessageId,
}

/// Parses an id field from its raw bytes.
///
/// A missing message id is tolerated and reads as zero; any other field
/// must be a well-formed 32-bit decimal or the request is rejected.
pub fn parse_id(field: IdField, data: &[u8]) -> (r: Result<i32, UploadError>)
    ensures
        field == IdField::MessageId && data@.len() == 0 ==> (r matches Ok(v) && v == 0),
        !(field == IdField::MessageId && data@.len() == 0) ==> match r {
            Ok(v) => is_i32_text(data@) && v as int == i32_text_val(data@),
            Err(e) => !is_i32_text(data@) && (e matches UploadError::BadRequest(_)),
        },
{
    if field == IdField::MessageId && data.len() == 0 {
        return Ok(0);
    }
    match parse_i32_bytes(data) {
        Some(v) => Ok(v),
        None => Err(
            UploadError::BadRequest(
                match field {
                    IdField::GroupId => "Invalid group_id format".to_owned(),
                    IdField::OwnerId => "Invalid owner_id format".to_owned(),
                    IdField::MessageId => "Invalid message_id format".to_owned(),
                },
            ),
        ),
    }
}

/// Parses the owner id of an upload from its raw bytes.
pub fn parse_owner_id(data: &[u8]) -> (r: Result<i32, UploadError>)
    ensures
        match r {
            Ok(v) => is_i32_text(data@) && v as int == i32_text_val(data@),
            Err(e) => !is_i32_text(data@) && (e matches UploadError::BadRequest(_)),
        },
{
    match parse_i32_bytes(data) {
        Some(v) => Ok(v),
        None => Err(UploadError::BadRequest("Invalid owner_id format".to_owned())),
    }
}

} // verus!

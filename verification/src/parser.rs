//! Command-line and environment configuration.
//!
//! The server reads its port from configuration text; anything that is
//! not a well-formed 16-bit decimal falls back to the default port.

use vstd::prelude::*;
use crate::byteseq::{all_dec_digits, dec_seq_val, parse_digits_u64, BYTE_PLUS};

verus! {

/// The port the server listens on when none is configured.
pub const DEFAULT_PORT: u16 = 8080;

/// The command-line arguments of the server.
#[derive(Clone, Copy, PartialEq, Eq, Structural, Debug)]
pub struct CliApiArgs {
    /// The port number the server listens on.
    pub port: u16,
    /// Logging verbosity; repeats raise the level.
    pub verbose: u8,
    /// Debug level; repeats raise the level.
    pub debug: u8,
    /// Trace level; repeats raise the level.
    pub trace: u8,
}

/// The digits of an unsigned numeric text, after an optional plus sign.
pub open spec fn unsigned_body(s: Seq<u8>) -> Seq<u8> {
    if s.len() > 0 && s[0] == BYTE_PLUS {
        s.subrange(1, s.len() as int)
    } else {
        s
    }
}

/// Is `s` the decimal text of a 16-bit unsigned integer?
pub open spec fn is_u16_text(s: Seq<u8>) -> bool {
    unsigned_body(s).len() > 0 && all_dec_digits(unsigned_body(s)) && dec_seq_val(unsigned_body(s))
        <= 0xffff
}

/// The value a valid 16-bit decimal text denotes.
pub open spec fn u16_text_val(s: Seq<u8>) -> int {
    dec_seq_val(unsigned_body(s)) as int
}

/// The port the server should listen on, given the configured port
/// text: the configured value when it is a well-formed 16-bit decimal,
/// and the default port otherwise or when nothing is configured.
pub fn get_server_port(text: Option<&Vec<u8>>) -> (r: u16)
    ensures
        match text {
            Some(t) => if is_u16_text(t@) {
                r as int == u16_text_val(t@)
            } else {
                r == DEFAULT_PORT
            },
            None => r == DEFAULT_PORT,
        },
{
    let t = match text {
        Some(t) => t,
        None => {
            return DEFAULT_PORT;
        },
    };
    if t.len() == 0 {
        return DEFAULT_PORT;
    }
    let body: &[u8];
    if t[0] == BYTE_PLUS {
        body = vstd::slice::slice_subrange(t.as_slice(), 1, t.len());
    } else {
        body = vstd::slice::slice_subrange(t.as_slice(), 0, t.len());
    }
    proof {
        assert(body@ =~= unsigned_body(t@));
    }
    match parse_digits_u64(body, 0xffff) {
        Some(v) => v as u16,
        None => DEFAULT_PORT,
    }
}

} // verus!

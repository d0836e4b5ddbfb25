//! The greeting endpoint's body.

use vstd::prelude::*;
use crate::byteseq::push_all;
use crate::literals::{lit_bang, lit_bang_vec, lit_hello_head, lit_hello_head_vec};

verus! {

/// A name to greet.
#[derive(Debug)]
pub struct HelloWithName {
    pub name: String,
}

impl HelloWithName {
    /// The greeting for this name, as UTF-8 bytes.
    pub fn greeting(&self) -> (r: Vec<u8>)
        ensures
            r@ == lit_hello_head() + vstd::utf8::encode_utf8(self.name@) + lit_bang(),
    {
        let mut v = lit_hello_head_vec();
        push_all(&mut v, self.name.as_str().as_bytes());
        let bang = lit_bang_vec();
        push_all(&mut v, bang.as_slice());
        proof {
            assert(v@ =~= lit_hello_head() + vstd::utf8::encode_utf8(self.name@) + lit_bang());
        }
        v
    }
}

} // verus!

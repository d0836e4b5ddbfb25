//! Fixed byte strings used when building storage paths, access URLs and
//! default field values.  Each literal comes as a spec-level sequence and
//! an executable constructor proved to produce it.

use vstd::prelude::*;

verus! {

/// The bytes of `"content%2F"`: prefix of every content storage path.
pub open spec fn lit_content_prefix() -> Seq<u8> {
    seq![99, 111, 110, 116, 101, 110, 116, 37, 50, 70]
}

/// Builds the bytes of `"content%2F"`.
pub fn lit_content_prefix_vec() -> (r: Vec<u8>)
    ensures
        r@ == lit_content_prefix(),
{
    let mut v: Vec<u8> = Vec::new();
    v.push(99);
    v.push(111);
    v.push(110);
    v.push(116);
    v.push(101);
    v.push(110);
    v.push(116);
    v.push(37);
    v.push(50);
    v.push(70);
    proof {
        assert(v@ =~= lit_content_prefix());
    }
    v
}

/// The bytes of `"%2F"`: the escaped path separator.
pub open spec fn lit_sep_pct2f() -> Seq<u8> {
    seq![37, 50, 70]
}

/// Builds the bytes of `"%2F"`.
pub fn lit_sep_pct2f_vec() -> (r: Vec<u8>)
    ensures
        r@ == lit_sep_pct2f(),
{
    let mut v: Vec<u8> = Vec::new();
    v.push(37);
    v.push(50);
    v.push(70);
    proof {
        assert(v@ =~= lit_sep_pct2f());
    }
    v
}

/// The bytes of `"group%2F"`: prefix of every group storage path.
pub open spec fn lit_group_prefix() -> Seq<u8> {
    seq![103, 114, 111, 117, 112, 37, 50, 70]
}

/// Builds the bytes of `"group%2F"`.
pub fn lit_group_prefix_vec() -> (r: Vec<u8>)
    ensures
        r@ == lit_group_prefix(),
{
    let mut v: Vec<u8> = Vec::new();
    v.push(103);
    v.push(114);
    v.push(111);
    v.push(117);
    v.push(112);
    v.push(37);
    v.push(50);
    v.push(70);
    proof {
        assert(v@ =~= lit_group_prefix());
    }
    v
}

/// The bytes of `"https://firebasestorage.googleapis.com/v0/b/"`: head of a public access URL.
pub open spec fn lit_url_head() -> Seq<u8> {
    seq![104, 116, 116, 112, 115, 58, 47, 47, 102, 105, 114, 101, 98, 97, 115, 101, 115, 116, 111, 114, 97, 103, 101, 46, 103, 111, 111, 103, 108, 101, 97, 112, 105, 115, 46, 99, 111, 109, 47, 118, 48, 47, 98, 47]
}

/// Builds the bytes of `"https://firebasestorage.googleapis.com/v0/b/"`.
pub fn lit_url_head_vec() -> (r: Vec<u8>)
    ensures
        r@ == lit_url_head(),
{
    let mut v: Vec<u8> = Vec::new();
    v.push(104);
    v.push(116);
    v.push(116);
    v.push(112);
    v.push(115);
    v.push(58);
    v.push(47);
    v.push(47);
    v.push(102);
    v.push(105);
    v.push(114);
    v.push(101);
    v.push(98);
    v.push(97);
    v.push(115);
    v.push(101);
    v.push(115);
    v.push(116);
    v.push(111);
    v.push(114);
    v.push(97);
    v.push(103);
    v.push(101);
    v.push(46);
    v.push(103);
    v.push(111);
    v.push(111);
    v.push(103);
    v.push(108);
    v.push(101);
    v.push(97);
    v.push(112);
    v.push(105);
    v.push(115);
    v.push(46);
    v.push(99);
    v.push(111);
    v.push(109);
    v.push(47);
    v.push(118);
    v.push(48);
    v.push(47);
    v.push(98);
    v.push(47);
    proof {
        assert(v@ =~= lit_url_head());
    }
    v
}

/// The bytes of `"/o/"`: bucket/object separator of a public access URL.
pub open spec fn lit_url_mid() -> Seq<u8> {
    seq![47, 111, 47]
}

/// Builds the bytes of `"/o/"`.
pub fn lit_url_mid_vec() -> (r: Vec<u8>)
    ensures
        r@ == lit_url_mid(),
{
    let mut v: Vec<u8> = Vec::new();
    v.push(47);
    v.push(111);
    v.push(47);
    proof {
        assert(v@ =~= lit_url_mid());
    }
    v
}

/// The bytes of `"?alt=media"`: trailing query of a public access URL.
pub open spec fn lit_url_tail() -> Seq<u8> {
    seq![63, 97, 108, 116, 61, 109, 101, 100, 105, 97]
}

/// Builds the bytes of `"?alt=media"`.
pub fn lit_url_tail_vec() -> (r: Vec<u8>)
    ensures
        r@ == lit_url_tail(),
{
    let mut v: Vec<u8> = Vec::new();
    v.push(63);
    v.push(97);
    v.push(108);
    v.push(116);
    v.push(61);
    v.push(109);
    v.push(101);
    v.push(100);
    v.push(105);
    v.push(97);
    proof {
        assert(v@ =~= lit_url_tail());
    }
    v
}

/// The bytes of `"application/octet-stream"`: the default content type.
pub open spec fn lit_octet_stream() -> Seq<u8> {
    seq![97, 112, 112, 108, 105, 99, 97, 116, 105, 111, 110, 47, 111, 99, 116, 101, 116, 45, 115, 116, 114, 101, 97, 109]
}

/// Builds the bytes of `"application/octet-stream"`.
pub fn lit_octet_stream_vec() -> (r: Vec<u8>)
    ensures
        r@ == lit_octet_stream(),
{
    let mut v: Vec<u8> = Vec::new();
    v.push(97);
    v.push(112);
    v.push(112);
    v.push(108);
    v.push(105);
    v.push(99);
    v.push(97);
    v.push(116);
    v.push(105);
    v.push(111);
    v.push(110);
    v.push(47);
    v.push(111);
    v.push(99);
    v.push(116);
    v.push(101);
    v.push(116);
    v.push(45);
    v.push(115);
    v.push(116);
    v.push(114);
    v.push(101);
    v.push(97);
    v.push(109);
    proof {
        assert(v@ =~= lit_octet_stream());
    }
    v
}

/// The bytes of `"Hello, "`: head of a greeting.
pub open spec fn lit_hello_head() -> Seq<u8> {
    seq![72, 101, 108, 108, 111, 44, 32]
}

/// Builds the bytes of `"Hello, "`.
pub fn lit_hello_head_vec() -> (r: Vec<u8>)
    ensures
        r@ == lit_hello_head(),
{
    let mut v: Vec<u8> = Vec::new();
    v.push(72);
    v.push(101);
    v.push(108);
    v.push(108);
    v.push(111);
    v.push(44);
    v.push(32);
    proof {
        assert(v@ =~= lit_hello_head());
    }
    v
}

/// The bytes of `"!"`: tail of a greeting.
pub open spec fn lit_bang() -> Seq<u8> {
    seq![33]
}

/// Builds the bytes of `"!"`.
pub fn lit_bang_vec() -> (r: Vec<u8>)
    ensures
        r@ == lit_bang(),
{
    let mut v: Vec<u8> = Vec::new();
    v.push(33);
    proof {
        assert(v@ =~= lit_bang());
    }
    v
}

/// The bytes of `"ping"`: the health-check command.
pub open spec fn lit_ping() -> Seq<u8> {
    seq![112, 105, 110, 103]
}

/// Builds the bytes of `"ping"`.
pub fn lit_ping_vec() -> (r: Vec<u8>)
    ensures
        r@ == lit_ping(),
{
    let mut v: Vec<u8> = Vec::new();
    v.push(112);
    v.push(105);
    v.push(110);
    v.push(103);
    proof {
        assert(v@ =~= lit_ping());
    }
    v
}

/// The bytes of `"ok"`: the health-check reply key.
pub open spec fn lit_ok() -> Seq<u8> {
    seq![111, 107]
}

/// Builds the bytes of `"ok"`.
pub fn lit_ok_vec() -> (r: Vec<u8>)
    ensures
        r@ == lit_ok(),
{
    let mut v: Vec<u8> = Vec::new();
    v.push(111);
    v.push(107);
    proof {
        assert(v@ =~= lit_ok());
    }
    v
}

} // verus!

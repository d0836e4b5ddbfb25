//! Storage naming for group uploads.
//!
//! A group avatar replaces the uploaded filename with the group and
//! owner ids, keeping the original extension, and lives in the group
//! area of the object store — so a group has one avatar per owner,
//! overwritten in place on every upload.

use vstd::prelude::*;
use crate::byteseq::{dec_int, ext_of, last_dot_index, push_all, split_extension, BYTE_DASH, BYTE_DOT};
use crate::literals::{lit_group_prefix, lit_group_prefix_vec, lit_sep_pct2f, lit_sep_pct2f_vec};

verus! {

/// The name a group upload is stored under: the group and owner ids
/// with the original extension, or the filename itself when it has no
/// extension.
pub open spec fn group_storage_name(filename: Seq<u8>, group: int, owner: int) -> Seq<u8> {
    if last_dot_index(filename) < 0 {
        filename
    } else {
        let stem = dec_int(group) + seq![BYTE_DASH] + dec_int(owner);
        if ext_of(filename).len() == 0 {
            stem
        } else {
            stem + seq![BYTE_DOT] + ext_of(filename)
        }
    }
}

/// The storage path of a group upload within its owner's area.
pub open spec fn group_path(filename: Seq<u8>, group: int, owner: int) -> Seq<u8> {
    lit_group_prefix() + dec_int(owner) + lit_sep_pct2f() + group_storage_name(
        filename,
        group,
        owner,
    )
}

/// Builds the storage path of a group upload.
pub fn build_group_path(filename: &[u8], group_id: i32, owner_id: i32) -> (r: Vec<u8>)
    ensures
        r@ == group_path(filename@, group_id as int, owner_id as int),
{
    let (base, ext) = split_extension(filename);
    proof {
        crate::byteseq::lemma_last_dot_index_range(filename@);
        assert(base@.len() + ext@.len() <= filename@.len());
    }
    let n = filename.len();
    let has_dot = base.len() + ext.len() < n;
    proof {
        assert(has_dot == (last_dot_index(filename@) >= 0));
    }
    let mut name: Vec<u8>;
    if !has_dot {
        name = vstd::slice::slice_to_vec(filename);
    } else {
        name = crate::byteseq::i32_to_dec(group_id);
        name.push(BYTE_DASH);
        let mut o = crate::byteseq::i32_to_dec(owner_id);
        name.append(&mut o);
        if ext.len() > 0 {
            name.push(BYTE_DOT);
            push_all(&mut name, ext.as_slice());
        }
    }
    proof {
        assert(name@ =~= group_storage_name(filename@, group_id as int, owner_id as int));
    }
    let mut v = lit_group_prefix_vec();
    let mut o = crate::byteseq::i32_to_dec(owner_id);
    v.append(&mut o);
    let sep = lit_sep_pct2f_vec();
    push_all(&mut v, sep.as_slice());
    push_all(&mut v, name.as_slice());
    proof {
        assert(v@ =~= group_path(filename@, group_id as int, owner_id as int));
    }
    v
}

} // verus!

//! Deterministic identity derivation: each record's storage key is the
//! concatenation of fixed-width little-endian encodings of its immutable
//! fields plus the owner's identity bytes. The external addressing scheme
//! hashes these byte strings; producing them bit-for-bit is this module's job.

use vstd::prelude::*;
use vstd::slice::slice_to_vec;
use vstd::string::StringSliceAdditionalSpecFns;
use vstd::utf8::encode_utf8;

use crate::identity::Identity;

verus! {

/// The key material of a journal entry:
/// `year (LE16) ++ month (LE8) ++ day (LE8) ++ owner`.
pub open spec fn entry_seed_spec(year: u16, month: u8, day: u8, owner: Seq<u8>) -> Seq<u8> {
    seq![(year % 256) as u8, (year / 256) as u8, month, day] + owner
}

/// The key material of a blog: `owner ++ title (UTF-8 bytes)`.
pub open spec fn blog_seed_spec(owner: Seq<u8>, title: Seq<char>) -> Seq<u8> {
    owner + encode_utf8(title)
}

/// The key material of a post: `parent blog key ++ title (UTF-8 bytes)`.
pub open spec fn post_seed_spec(blog_key: Seq<u8>, title: Seq<char>) -> Seq<u8> {
    blog_key + encode_utf8(title)
}

/// Derives a journal entry's key material from its immutable fields.
pub fn entry_seed(year: u16, month: u8, day: u8, owner: &Identity) -> (r: Vec<u8>)
    ensures
        r@ == entry_seed_spec(year, month, day, owner@),
{
    let mut r: Vec<u8> = Vec::new();
    r.push((year % 256) as u8);
    r.push((year / 256) as u8);
    r.push(month);
    r.push(day);
    let mut tail = slice_to_vec(owner.as_bytes().as_slice());
    r.append(&mut tail);
    proof {
        assert(r@ =~= entry_seed_spec(year, month, day, owner@));
    }
    r
}

/// Derives a blog's key material from its owner and title.
pub fn blog_seed(owner: &Identity, title: &str) -> (r: Vec<u8>)
    ensures
        r@ == blog_seed_spec(owner@, title@),
{
    let mut r = slice_to_vec(owner.as_bytes().as_slice());
    let mut tail = slice_to_vec(title.as_bytes());
    r.append(&mut tail);
    proof {
        assert(r@ =~= blog_seed_spec(owner@, title@));
    }
    r
}

/// Derives a post's key material from its parent blog's key and its title.
pub fn post_seed(blog_key: &Vec<u8>, title: &str) -> (r: Vec<u8>)
    ensures
        r@ == post_seed_spec(blog_key@, title@),
{
    let mut r = slice_to_vec(blog_key.as_slice());
    let mut tail = slice_to_vec(title.as_bytes());
    r.append(&mut tail);
    proof {
        assert(r@ =~= post_seed_spec(blog_key@, title@));
    }
    r
}

} // verus!

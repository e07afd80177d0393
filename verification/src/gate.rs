//! The access gate: a shared secret, where one is configured.

use vstd::prelude::*;
use vstd::utf8::encode_utf8_decode_utf8;

use crate::error::{AppError, Failure};
use crate::text::text_of;

verus! {

/// Whether a request that presents `token` passes a gate that is configured
/// with `secret`: any request where no secret is configured, else one whose
/// token is the secret.
pub open spec fn admitted(secret: Option<Seq<char>>, token: Option<Seq<char>>) -> bool {
    match secret {
        None => true,
        Some(expected) => token == Some(expected),
    }
}

/// Whether two texts are the same. Texts of one length are compared to their
/// end, so that the time taken does not tell where they differ.
pub fn same_text(a: &str, b: &str) -> (same: bool)
    ensures
        same == (a@ == b@),
{
    let left = a.as_bytes();
    let right = b.as_bytes();
    proof {
        encode_utf8_decode_utf8(a@);
        encode_utf8_decode_utf8(b@);
    }
    if left.len() != right.len() {
        return false;
    }
    let mut differing: u8 = 0;
    let mut i: usize = 0;
    while i < left.len()
        invariant
            i <= left.len(),
            left.len() == right.len(),
            differing == 0 <==> left@.take(i as int) =~= right@.take(i as int),
        decreases left.len() - i,
    {
        let x: u8 = left[i];
        let y: u8 = right[i];
        let ghost before = differing;
        differing = differing | (x ^ y);
        proof {
            assert(((before | (x ^ y)) == 0) <==> (before == 0 && x == y)) by (bit_vector);
            let l = left@.take(i + 1);
            let r = right@.take(i + 1);
            assert(l.drop_last() =~= left@.take(i as int));
            assert(r.drop_last() =~= right@.take(i as int));
            if before == 0 && x == y {
                assert(l =~= r);
            }
            if l == r {
                assert(l.drop_last() == r.drop_last());
                assert(l.last() == r.last());
            }
        }
        i += 1;
    }
    assert(left@.take(i as int) =~= left@);
    assert(right@.take(i as int) =~= right@);
    differing == 0
}

/// Lets a request pass, or refuses it before any of its work is done.
pub fn authorize(secret: Option<&str>, token: Option<&str>) -> (r: Result<(), AppError>)
    ensures
        r is Ok <==> admitted(text_of(secret), text_of(token)),
        r matches Err(e) ==> e@ == Failure::Unauthorized,
{
    match secret {
        None => Ok(()),
        Some(expected) => match token {
            Some(given) => if same_text(given, expected) {
                Ok(())
            } else {
                Err(AppError::Unauthorized)
            },
            None => Err(AppError::Unauthorized),
        },
    }
}

} // verus!

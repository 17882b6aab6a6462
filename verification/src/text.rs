use vstd::prelude::*;

use vstd::utf8::{
    decode_utf8, is_leading_byte_width_1, length_of_first_scalar, pop_first_scalar,
    valid_first_scalar, valid_utf8,
};

verus! {

/// Relies on `String::from_utf8`: it returns the string holding exactly the
/// given bytes when they are valid UTF-8, and an error otherwise.
#[verifier::external_body]
pub(crate) fn decode_text(data: &[u8]) -> (r: Option<String>)
    ensures
        r is Some <==> valid_utf8(data@),
        r matches Some(t) ==> t@ == decode_utf8(data@),
{
    match String::from_utf8(data.to_vec()) {
        Ok(s) => Some(s),
        Err(_) => None,
    }
}

/// A sequence of ASCII bytes (each below 0x80) is valid UTF-8 and decodes
/// byte for byte into the corresponding characters.
pub proof fn lemma_ascii_bytes_decode(bytes: Seq<u8>)
    requires
        forall|i: int| 0 <= i < bytes.len() ==> bytes[i] < 0x80,
    ensures
        valid_utf8(bytes),
        decode_utf8(bytes) =~= Seq::new(bytes.len(), |i: int| bytes[i] as char),
    decreases bytes.len(),
{
    if bytes.len() != 0 {
        let b0 = bytes[0];
        assert(b0 & 0x7f == b0) by (bit_vector)
            requires
                b0 < 0x80,
        ;
        assert(is_leading_byte_width_1(b0));
        assert(valid_first_scalar(bytes));
        assert(length_of_first_scalar(bytes) == 1);
        let rest = pop_first_scalar(bytes);
        assert(rest =~= bytes.subrange(1, bytes.len() as int));
        lemma_ascii_bytes_decode(rest);
        assert(decode_utf8(bytes) =~= Seq::new(bytes.len(), |i: int| bytes[i] as char));
    }
}

} // verus!

use vstd::prelude::*;
use vstd::utf8::{decode_utf8, valid_utf8};

verus! {

/// The text value a sequence of accumulated field bytes decodes to: the UTF-8
/// decoding when the bytes are valid, and the empty string otherwise (an
/// invalid text field falls back to empty rather than failing the request).
pub open spec fn text_value(b: Seq<u8>) -> Seq<char> {
    if valid_utf8(b) {
        decode_utf8(b)
    } else {
        Seq::empty()
    }
}

/// Relies on std's str::from_utf8: it returns the decoded string exactly when
/// the bytes are valid UTF-8, and an error otherwise.
#[verifier::external_body]
fn utf8_to_str(v: &[u8]) -> (r: Option<&str>)
    ensures
        r is Some <==> valid_utf8(v@),
        r is Some ==> r->0@ == decode_utf8(v@),
{
    std::str::from_utf8(v).ok()
}

/// Decodes accumulated text-field bytes, substituting the empty string for
/// invalid UTF-8.
pub fn text_field_value(bytes: &Vec<u8>) -> (r: String)
    ensures
        r@ == text_value(bytes@),
{
    match utf8_to_str(bytes.as_slice()) {
        Some(s) => s.to_owned(),
        None => String::new(),
    }
}

/// Appends one chunk of a field stream to an accumulator.
pub fn append_chunk(acc: &mut Vec<u8>, chunk: &[u8])
    ensures
        final(acc)@ == old(acc)@ + chunk@,
{
    let mut i: usize = 0;
    while i < chunk.len()
        invariant
            i <= chunk@.len(),
            acc@ == old(acc)@ + chunk@.subrange(0, i as int),
        decreases chunk@.len() - i,
    {
        acc.push(chunk[i]);
        proof {
            assert(acc@ =~= old(acc)@ + chunk@.subrange(0, (i + 1) as int));
        }
        i = i + 1;
    }
    proof {
        assert(acc@ =~= old(acc)@ + chunk@);
    }
}

} // verus!

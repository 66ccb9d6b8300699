use vstd::prelude::*;

verus! {

/// Length in bytes of the UTF-8 encoding of `s`.
pub open spec fn byte_len(s: Seq<char>) -> nat {
    vstd::utf8::encode_utf8(s).len()
}

/// Whether the UTF-8 encoding of `s` takes at most `max` bytes.
pub fn fits(s: &String, max: usize) -> (r: bool)
    ensures
        r == (byte_len(s@) <= max),
{
    s.as_str().as_bytes().len() <= max
}

} // verus!

//! Decisions taken when a session starts.

use vstd::prelude::*;
use crate::lines::chars_of;

verus! {

/// The name of the one position encoding served: byte offsets into UTF-8.
pub open spec fn utf8_encoding() -> Seq<char> {
    seq!['u', 't', 'f', '-', '8']
}

/// Whether `name` is the UTF-8 position encoding.
pub fn is_utf8_encoding(name: &String) -> (r: bool)
    ensures
        r == (name@ == utf8_encoding()),
{
    let c = chars_of(name.as_str());
    let r = c.len() == 5 && c[0] == 'u' && c[1] == 't' && c[2] == 'f' && c[3] == '-' && c[4] == '8';
    assert(r ==> c@ =~= utf8_encoding());
    r
}

/// Whether the client offers the UTF-8 position encoding among
/// `position_encodings`. The session may start only when it does.
pub fn supports_utf8(position_encodings: &Vec<String>) -> (r: bool)
    ensures
        r == (exists|k: int| 0 <= k < position_encodings@.len() && #[trigger] position_encodings@[k]@ == utf8_encoding()),
{
    let mut i: usize = 0;
    while i < position_encodings.len()
        invariant
            i <= position_encodings@.len(),
            forall|k: int| 0 <= k < i ==> #[trigger] position_encodings@[k]@ != utf8_encoding(),
        decreases position_encodings@.len() - i,
    {
        if is_utf8_encoding(&position_encodings[i]) {
            assert(position_encodings@[i as int]@ == utf8_encoding());
            return true;
        }
        i = i + 1;
    }
    false
}

} // verus!

//! Texts: reading them from bytes, and joining them.

use vstd::prelude::*;
use vstd::string::*;
use vstd::utf8::{decode_utf8, valid_utf8};

verus! {

/// The views of a sequence of texts.
pub open spec fn spec_texts(texts: Seq<String>) -> Seq<Seq<char>> {
    Seq::new(texts.len(), |i: int| texts[i]@)
}

/// The text with which the standard library says why `bytes` are no valid
/// UTF-8.
pub uninterp spec fn spec_utf8_error(bytes: Seq<u8>) -> Seq<char>;

/// `core::str::from_utf8`, with the text of its error: the text that
/// `bytes` encode where they are valid UTF-8, and otherwise what the error
/// of the standard library prints. That the call succeeds exactly on valid
/// UTF-8 and yields the encoded text is what its documentation says; the
/// wording of the error is left to the standard library.
#[verifier::external_body]
pub(crate) fn decode(bytes: &[u8]) -> (decoded: Result<String, String>)
    ensures
        match decoded {
            Ok(text) => valid_utf8(bytes@) && text@ == decode_utf8(bytes@),
            Err(reason) => !valid_utf8(bytes@) && reason@ == spec_utf8_error(bytes@),
        },
{
    match core::str::from_utf8(bytes) {
        Ok(text) => Ok(text.to_owned()),
        Err(error) => Err(format!("{}", error)),
    }
}

/// The texts of `parts` in order, with `separator` between each two of them.
pub open spec fn spec_join(parts: Seq<Seq<char>>, separator: Seq<char>) -> Seq<char>
    decreases parts.len(),
{
    if parts.len() == 0 {
        Seq::empty()
    } else if parts.len() == 1 {
        parts[0]
    } else {
        spec_join(parts.drop_last(), separator) + separator + parts.last()
    }
}

/// The texts of `parts` in order, with `separator` between each two of them.
pub fn join(parts: &Vec<String>, separator: &str) -> (joined: String)
    ensures
        joined@ == spec_join(spec_texts(parts@), separator@),
{
    let mut joined = String::new();
    let mut i: usize = 0;
    while i < parts.len()
        invariant
            i <= parts@.len(),
            joined@ == spec_join(spec_texts(parts@).take(i as int), separator@),
        decreases parts@.len() - i,
    {
        proof {
            let texts = spec_texts(parts@);
            assert(texts.take(i + 1).drop_last() =~= texts.take(i as int));
            assert(texts.take(i + 1).last() == parts@[i as int]@);
            assert(Seq::<char>::empty() + parts@[i as int]@ =~= parts@[i as int]@);
        }
        if i > 0 {
            joined.append(separator);
        }
        joined.append(parts[i].as_str());
        i += 1;
    }
    assert(spec_texts(parts@).take(parts@.len() as int) =~= spec_texts(parts@));
    joined
}

} // verus!

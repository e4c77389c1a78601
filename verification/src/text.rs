//! Text decoded from bytes.
use vstd::prelude::*;

verus! {

/// The characters that std's `String::from_utf8_lossy` decodes from `bytes`.
pub uninterp spec fn utf8_lossy(bytes: Seq<u8>) -> Seq<char>;

/// std's `String::from_utf8_lossy`, made into an owned `String`: the bytes
/// decoded as UTF-8, each invalid sequence replaced by U+FFFD. Claimed: the
/// result is `utf8_lossy` of the bytes, and where every byte is ASCII (below
/// 128), which is valid UTF-8 of one character per byte, the characters are
/// the bytes' code points.
#[verifier::external_body]
pub(crate) fn string_from_utf8_lossy(bytes: &[u8]) -> (s: String)
    ensures
        s@ == utf8_lossy(bytes@),
        (forall|i: int| 0 <= i < bytes@.len() ==> bytes@[i] < 128) ==> s@ == bytes@.map_values(
            |b: u8| b as char,
        ),
{
    String::from_utf8_lossy(bytes).into_owned()
}

} // verus!

use vstd::prelude::*;

use crate::record::Timestamp;

verus! {

/// The characters that a generated code is made of: letters, digits,
/// underscore and hyphen. All of them can stand in the path of a URL.
pub open spec fn is_code_char(c: char) -> bool {
    ||| 'a' <= c <= 'z'
    ||| 'A' <= c <= 'Z'
    ||| '0' <= c <= '9'
    ||| c == '_'
    ||| c == '-'
}

/// Whether `code` is a generated code of `length` characters.
pub open spec fn is_code(code: Seq<char>, length: nat) -> bool {
    &&& code.len() == length
    &&& forall|i: int| 0 <= i < code.len() ==> is_code_char(#[trigger] code[i])
}

/// `nanoid::format` with the generator `nanoid::rngs::default` and the
/// alphabet `nanoid::alphabet::SAFE`: a random string of `length` characters
/// of that alphabet. Which string it is depends on chance. The function
/// does not return for a length of zero and multiplies the length by eight,
/// so both ends are kept out.
#[verifier::external_body]
pub(crate) fn random_code(length: usize) -> (code: String)
    requires
        0 < length <= 0xffff,
    ensures
        is_code(code@, length as nat),
{
    nanoid::format(nanoid::rngs::default, &nanoid::alphabet::SAFE, length)
}

/// `chrono::Utc::now`, read off by `DateTime::timestamp` and
/// `DateTime::timestamp_subsec_nanos`: the current time. Nothing is claimed
/// of it.
#[verifier::external_body]
pub(crate) fn current_time() -> (now: Timestamp) {
    let now = chrono::Utc::now();
    Timestamp { secs: now.timestamp(), nanos: now.timestamp_subsec_nanos() }
}

} // verus!

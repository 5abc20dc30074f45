//! Short ids: the alphabet they are drawn from and the generator that draws them.

use rand::Rng;
use vstd::prelude::*;

verus! {

/// Length of the shortest id that is ever generated.
pub const MIN_ID_LEN: usize = 1;

/// Length of the longest id that is ever generated.
pub const MAX_ID_LEN: usize = 11;

/// The safe alphabet: ASCII digits and letters, `_` and `-`. Every character
/// of it can stand in a URL path unescaped.
pub open spec fn is_safe_char(c: char) -> bool {
    ||| c == '_'
    ||| c == '-'
    ||| ('0' <= c && c <= '9')
    ||| ('a' <= c && c <= 'z')
    ||| ('A' <= c && c <= 'Z')
}

/// A well-formed id: between `MIN_ID_LEN` and `MAX_ID_LEN` characters, all of
/// them from the safe alphabet.
pub open spec fn is_valid_id(id: Seq<char>) -> bool {
    &&& MIN_ID_LEN <= id.len() <= MAX_ID_LEN
    &&& forall|i: int| 0 <= i < id.len() ==> is_safe_char(#[trigger] id[i])
}

/// Draws a number from the thread-local generator of `rand`, by
/// `rand::thread_rng().gen_range(low..high)`. `gen_range` panics on an empty
/// range, which the precondition excludes; the number drawn lies in the range,
/// and nothing else is known of it.
#[verifier::external_body]
fn random_in_range(low: usize, high: usize) -> (n: usize)
    requires
        low < high,
    ensures
        low <= n < high,
{
    rand::thread_rng().gen_range(low..high)
}

/// Draws `size` characters by `nanoid::format`, with nanoid's default random
/// source and its `SAFE` alphabet. `format` appends characters of the alphabet
/// until the string has `size` of them, so it never returns for `size == 0`,
/// and it computes `8 * size`; the precondition excludes both. Which characters
/// are drawn is not known.
#[verifier::external_body]
fn random_safe_string(size: usize) -> (s: String)
    requires
        1 <= size,
        8 * size <= usize::MAX,
    ensures
        s@.len() == size,
        forall|i: int| 0 <= i < s@.len() ==> is_safe_char(#[trigger] s@[i]),
{
    nanoid::format(nanoid::rngs::default, &nanoid::alphabet::SAFE, size)
}

/// Draws the length of a candidate id from `MIN_ID_LEN..=MAX_ID_LEN`: each
/// of the eleven lengths is asked for, and none beside them can be drawn.
pub fn draw_id_length() -> (length: usize)
    ensures
        MIN_ID_LEN <= length <= MAX_ID_LEN,
{
    random_in_range(MIN_ID_LEN, MAX_ID_LEN + 1)
}

/// Generates an id of the given length, its characters drawn from the safe
/// alphabet.
pub fn id_of_length(length: usize) -> (id: String)
    requires
        MIN_ID_LEN <= length <= MAX_ID_LEN,
    ensures
        id@.len() == length,
        is_valid_id(id@),
{
    random_safe_string(length)
}

/// Generates a candidate id: a length drawn from `MIN_ID_LEN..=MAX_ID_LEN`,
/// then that many characters drawn from the safe alphabet.
pub fn generate_id() -> (id: String)
    ensures
        is_valid_id(id@),
{
    id_of_length(draw_id_length())
}

} // verus!

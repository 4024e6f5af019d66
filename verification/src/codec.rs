//! The bytes of the state file, as bincode writes and reads them.

use vstd::prelude::*;

verus! {

/// What the state file holds, as plain lists: for each pane the codes of its notifications, and
/// for each tab position a name.
pub type Record<'a> = (Vec<(u32, Vec<u32>)>, Vec<(u64, &'a str)>);

/// Why bincode did not write a value.
#[verifier::external_type_specification]
#[verifier::external_body]
pub struct ExEncodeError(bincode::error::EncodeError);

/// Why bincode did not read a value.
#[verifier::external_type_specification]
#[verifier::external_body]
pub struct ExDecodeError(bincode::error::DecodeError);

/// The bytes that bincode writes for the two lists, in its standard configuration.
pub uninterp spec fn encoded_record(
    notifications: Seq<(u32, Seq<u32>)>,
    names: Seq<(u64, Seq<char>)>,
) -> Seq<u8>;

/// The two lists that bincode reads at the start of the bytes, in its standard configuration, on
/// a machine whose `usize` has `width` bits; nothing where the bytes do not start with such lists.
///
/// The width counts where a list claims more entries than a `usize` can hold: bincode then drops
/// the upper bits of the number.
pub uninterp spec fn decoded_record(bytes: Seq<u8>, width: nat) -> Option<
    (Seq<(u32, Seq<u32>)>, Seq<(u64, Seq<char>)>),
>;

/// Calls `bincode::serde::encode_to_vec` with `bincode::config::standard()` on the pair of the
/// two lists.
///
/// The call succeeds: both lists know their length, and writing to a vector does not fail. The
/// bytes depend on the lists alone, and reading them on the same machine gives the same two lists.
#[verifier::external_body]
pub(crate) fn encode_record(
    notifications: &Vec<(u32, Vec<u32>)>,
    names: &Vec<(u64, &str)>,
) -> (r: Result<Vec<u8>, bincode::error::EncodeError>)
    ensures
        r is Ok,
        r->Ok_0@ == encoded_record(notifications.deep_view(), names.deep_view()),
        decoded_record(r->Ok_0@, usize::BITS as nat) == Some(
            (notifications.deep_view(), names.deep_view()),
        ),
{
    bincode::serde::encode_to_vec((notifications, names), bincode::config::standard())
}

/// Calls `bincode::serde::borrow_decode_from_slice` with `bincode::config::standard()` for a pair
/// of lists whose names are borrowed from the bytes. The second part of the result is the number
/// of bytes that were read.
///
/// What is read depends on the bytes and the width of a `usize`; bytes behind the lists are left
/// alone.
#[verifier::external_body]
pub(crate) fn decode_record(bytes: &Vec<u8>) -> (r: Result<
    (Record<'_>, usize),
    bincode::error::DecodeError,
>)
    ensures
        match r {
            Ok(read) => decoded_record(bytes@, usize::BITS as nat) == Some(
                (read.0.0.deep_view(), read.0.1.deep_view()),
            ) && read.1 <= bytes@.len(),
            Err(_) => decoded_record(bytes@, usize::BITS as nat) is None,
        },
{
    bincode::serde::borrow_decode_from_slice(bytes, bincode::config::standard())
}

} // verus!

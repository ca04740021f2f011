//! Errors of the dealing engine, and the text form of player ids that they carry.
use vstd::prelude::*;
use vstd::arithmetic::power::pow;
use crate::card::GameState;

verus! {

/// Failures of the dealing engine, one kind per cause.
#[derive(Clone, Debug, PartialEq, Eq)]
pub enum ContractError {
    /// A failure passed through from storage, entropy or another collaborator.
    Std(String),
    /// The caller is not the configured operator.
    Unauthorized {},
    /// The operation is not valid in the given phase.
    GameStateError { method: String, table_id: u32, game_state: Option<GameState> },
    /// The cards of this phase, or the showdown, were already disclosed.
    CardsAlreadyRetrieved {},
    PlayerNotFound { table_id: u32, player: String },
    TableNotFound { table_id: u32 },
    CustomError { val: String },
    /// Encoding a response failed after the operation itself succeeded.
    SerializationFailed { error: String },
    DuplicatePublicKeys {},
    InvalidPlayerCount { count: usize },
}

/// The lower-case hexadecimal digits.
pub open spec fn hex_digits() -> Seq<char> {
    seq!['0', '1', '2', '3', '4', '5', '6', '7', '8', '9', 'a', 'b', 'c', 'd', 'e', 'f']
}

/// The `k`-th of the 32 hexadecimal digits of `id`, most significant first.
pub open spec fn id_nibble(id: u128, k: int) -> int {
    (id as int / pow(16, (31 - k) as nat)) % 16
}

/// Which hexadecimal digit stands at position `p` of the hyphenated form.
pub open spec fn digit_position(p: int) -> int {
    if p < 8 {
        p
    } else if p < 13 {
        p - 1
    } else if p < 18 {
        p - 2
    } else if p < 23 {
        p - 3
    } else {
        p - 4
    }
}

/// The hyphenated lower-case form of a 128-bit id, its digits grouped 8-4-4-4-12,
/// most significant first.
pub open spec fn uuid_text(id: u128) -> Seq<char> {
    Seq::new(
        36,
        |p: int|
            if p == 8 || p == 13 || p == 18 || p == 23 {
                '-'
            } else {
                hex_digits()[id_nibble(id, digit_position(p))]
            },
    )
}

/// Relies on uuid's `Display` for `Uuid::from_u128`, which writes the hyphenated
/// lower-case form of the id's big-endian bytes.
#[verifier::external_body]
pub(crate) fn uuid_string(id: u128) -> (r: String)
    ensures
        r@ == uuid_text(id),
{
    uuid::Uuid::from_u128(id).to_string()
}

} // verus!

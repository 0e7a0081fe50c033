//! Resolving a board: from its address to what the catalogue knows of it.
//!
//! Resolution takes one catalogue call. What comes before the call ([`Board::describe`]
//! and [`Board::request_board_url`]) and what comes after it
//! ([`Board::from_description`]) stand here; the call itself is the caller's.

use vstd::prelude::*;
use crate::address::{described, BoardDescription, BoardDescriptionView};
use crate::board::{Board, BoardView};
use crate::error::{ApiError, CreationError};
use crate::json::{lookup, number_at, numbers, text_at, texts};

verus! {

/// Where the answer to the board call holds the board's identifier.
pub const BOARD_ID_PATH: &'static str = "/resource_response/data/id";

/// Where the answer to the board call holds the number of pins.
pub const PIN_COUNT_PATH: &'static str = "/resource_response/data/pin_count";

/// What the answer to the board call holds at its two places, each absent where the
/// answer has nothing there or something of another type.
#[derive(Debug)]
pub struct RawBoard {
    /// The string at [`BOARD_ID_PATH`].
    pub id: Option<String>,
    /// The non-negative integer at [`PIN_COUNT_PATH`].
    pub pin_count: Option<u64>,
}

/// What a [`RawBoard`] is in contracts.
pub ghost struct RawBoardView {
    pub id: Option<Seq<char>>,
    pub pin_count: Option<u64>,
}

impl View for RawBoard {
    type V = RawBoardView;

    open spec fn view(&self) -> RawBoardView {
        RawBoardView { id: self.id.deep_view(), pin_count: self.pin_count }
    }
}

/// The board that a description and the answer to its call make: both fields of the
/// answer are needed.
pub open spec fn resolved(description: BoardDescriptionView, raw: RawBoardView) -> Result<
    BoardView,
    ApiError,
> {
    match (raw.id, raw.pin_count) {
        (Some(id), Some(count)) => Ok(
            BoardView { name: description.name, user: description.user, id: id, len: count as nat },
        ),
        _ => Err(ApiError::MissingField),
    }
}

/// The answer to the board call as it is read: the string at [`BOARD_ID_PATH`] and the
/// count at [`PIN_COUNT_PATH`].
pub open spec fn raw_board_of(response: serde_json::Value) -> RawBoardView {
    RawBoardView {
        id: lookup(texts(response), BOARD_ID_PATH@),
        pin_count: lookup(numbers(response), PIN_COUNT_PATH@),
    }
}

/// Reads from the answer to the board call what a board is made of.
pub fn read_board(response: &serde_json::Value) -> (raw: RawBoard)
    ensures
        raw@ == raw_board_of(*response),
{
    RawBoard {
        id: text_at(response, BOARD_ID_PATH),
        pin_count: number_at(response, PIN_COUNT_PATH),
    }
}

impl Board {
    /// Reads a board's address: owner and name as [`described`] says, `BadUrl` where
    /// the address names none.
    pub fn describe(url: &str) -> (description: Result<BoardDescription, CreationError>)
        ensures
            match description {
                Ok(found) => described(url@) == Some(found@),
                Err(e) => e == CreationError::BadUrl && described(url@) is None,
            },
    {
        match BoardDescription::from_url(url) {
            Some(found) => Ok(found),
            None => Err(CreationError::BadUrl),
        }
    }

    /// Makes the board of a description and of what its call answered.
    pub fn from_fields(description: BoardDescription, raw: RawBoard) -> (board: Result<
        Board,
        ApiError,
    >)
        ensures
            match board {
                Ok(found) => resolved(description@, raw@) == Ok::<BoardView, ApiError>(found@),
                Err(e) => resolved(description@, raw@) == Err::<BoardView, ApiError>(e),
            },
    {
        let BoardDescription { name, user } = description;
        let RawBoard { id, pin_count } = raw;
        match id {
            Some(id) => match pin_count {
                Some(len) => Ok(Board { name: name, user: user, id: id, len: len }),
                None => Err(ApiError::MissingField),
            },
            None => Err(ApiError::MissingField),
        }
    }

    /// Makes the board of a description and of the answer to its call: the board that
    /// [`resolved`] makes of what [`raw_board_of`] reads, or `MissingField` where that
    /// is no board.
    pub fn from_description(description: BoardDescription, response: &serde_json::Value) -> (board:
        Result<Board, CreationError>)
        ensures
            match board {
                Ok(found) => resolved(description@, raw_board_of(*response)) == Ok::<
                    BoardView,
                    ApiError,
                >(found@),
                Err(e) => e == CreationError::ApiError(ApiError::MissingField) && resolved(
                    description@,
                    raw_board_of(*response),
                ) is Err,
            },
    {
        match Self::from_fields(description, read_board(response)) {
            Ok(found) => Ok(found),
            Err(e) => Err(CreationError::ApiError(e)),
        }
    }
}

} // verus!

//! The values that travel through a job: a board, its pins, one page of them.

use vstd::prelude::*;

verus! {

/// One item of a board that has a picture.
#[derive(Debug)]
pub struct Pin {
    /// The identifier the catalogue gave the item.
    pub id: String,
    /// Where the picture is fetched from.
    pub pic_url: String,
}

/// What a [`Pin`] is in contracts.
pub ghost struct PinView {
    pub id: Seq<char>,
    pub pic_url: Seq<char>,
}

impl View for Pin {
    type V = PinView;

    open spec fn view(&self) -> PinView {
        PinView { id: self.id@, pic_url: self.pic_url@ }
    }
}

impl DeepView for Pin {
    type V = PinView;

    open spec fn deep_view(&self) -> PinView {
        self@
    }
}

/// One page of a board's feed: its pins, and the bookmarks that ask for the next page.
#[derive(Debug)]
pub struct PinResult {
    /// The pins of this page, in the order the catalogue sent them.
    pub pins: Vec<Pin>,
    /// The continuation token, echoed back as it came.
    pub bookmarks: Vec<String>,
}

/// What a [`PinResult`] is in contracts.
pub ghost struct PinResultView {
    pub pins: Seq<PinView>,
    pub bookmarks: Seq<Seq<char>>,
}

impl View for PinResult {
    type V = PinResultView;

    open spec fn view(&self) -> PinResultView {
        PinResultView { pins: self.pins.deep_view(), bookmarks: self.bookmarks.deep_view() }
    }
}

impl DeepView for PinResult {
    type V = PinResultView;

    open spec fn deep_view(&self) -> PinResultView {
        self@
    }
}

/// A resolved board.
#[derive(Debug)]
pub struct Board {
    /// The board's name, as its address spells it.
    pub name: String,
    /// The owner's name, as the address spells it.
    pub user: String,
    /// The identifier the catalogue knows the board by.
    pub id: String,
    /// How many pins the catalogue says the board holds; a hint, not a promise.
    pub len: u64,
}

/// What a [`Board`] is in contracts.
pub ghost struct BoardView {
    pub name: Seq<char>,
    pub user: Seq<char>,
    pub id: Seq<char>,
    pub len: nat,
}

impl View for Board {
    type V = BoardView;

    open spec fn view(&self) -> BoardView {
        BoardView { name: self.name@, user: self.user@, id: self.id@, len: self.len as nat }
    }
}

} // verus!

//! Decoding one page of a board's feed.

use vstd::prelude::*;
use crate::board::{Pin, PinResult, PinResultView, PinView};
use crate::error::ApiError;
use crate::json::{element_path, element_pointer, length_at, lengths, lookup, text_at, texts};

verus! {

/// One entry of a feed page as it was read: either field may be absent or mistyped.
#[derive(Debug)]
pub struct RawPin {
    /// The entry's `id`, if a string stands there.
    pub id: Option<String>,
    /// The entry's `images.orig.url`, if a string stands there.
    pub image_url: Option<String>,
}

/// What a [`RawPin`] is in contracts.
pub ghost struct RawPinView {
    pub id: Option<Seq<char>>,
    pub image_url: Option<Seq<char>>,
}

impl View for RawPin {
    type V = RawPinView;

    open spec fn view(&self) -> RawPinView {
        RawPinView { id: self.id.deep_view(), image_url: self.image_url.deep_view() }
    }
}

impl DeepView for RawPin {
    type V = RawPinView;

    open spec fn deep_view(&self) -> RawPinView {
        self@
    }
}

/// One feed page as it was read: the entries and the bookmarks, each absent where the
/// answer holds no array at its place; a bookmark is absent where it is no string.
#[derive(Debug)]
pub struct RawPage {
    /// The entries under `resource_response.data`.
    pub items: Option<Vec<RawPin>>,
    /// The bookmarks under `resource.options.bookmarks`.
    pub bookmarks: Option<Vec<Option<String>>>,
}

/// What a [`RawPage`] is in contracts.
pub ghost struct RawPageView {
    pub items: Option<Seq<RawPinView>>,
    pub bookmarks: Option<Seq<Option<Seq<char>>>>,
}

impl View for RawPage {
    type V = RawPageView;

    open spec fn view(&self) -> RawPageView {
        RawPageView { items: self.items.deep_view(), bookmarks: self.bookmarks.deep_view() }
    }
}

/// The pin an entry stands for: one with a picture and an identifier.
pub open spec fn pin_of(raw: RawPinView) -> Option<PinView> {
    match (raw.image_url, raw.id) {
        (Some(url), Some(id)) => Some(PinView { id: id, pic_url: url }),
        _ => None,
    }
}

/// [`pin_of`] as a function value, to filter a whole page with.
pub open spec fn pin_filter() -> spec_fn(RawPinView) -> Option<PinView> {
    |raw: RawPinView| pin_of(raw)
}

/// An entry that has a picture but no identifier: the answer is broken.
pub open spec fn lacks_id(raw: RawPinView) -> bool {
    raw.image_url is Some && raw.id is None
}

/// The pins of a page: entries without a picture are left out, the others keep their
/// order; an entry with a picture and no identifier spoils the page.
pub open spec fn decoded_pins(items: Seq<RawPinView>) -> Result<Seq<PinView>, ApiError> {
    if exists|i: int| 0 <= i < items.len() && lacks_id(#[trigger] items[i]) {
        Err(ApiError::MissingField)
    } else {
        Ok(items.filter_map(pin_filter()))
    }
}

/// The text of a bookmark that is a string, as a function value.
pub open spec fn mark_text() -> spec_fn(Option<Seq<char>>) -> Seq<char> {
    |mark: Option<Seq<char>>| mark->Some_0
}

/// The bookmarks of a page: all of them, provided each is a string.
pub open spec fn decoded_bookmarks(raw: Seq<Option<Seq<char>>>) -> Result<
    Seq<Seq<char>>,
    ApiError,
> {
    if exists|i: int| 0 <= i < raw.len() && (#[trigger] raw[i]) is None {
        Err(ApiError::MissingField)
    } else {
        Ok(raw.map_values(mark_text()))
    }
}

/// The page a raw page stands for, or `MissingField` where an array is absent, an entry
/// with a picture has no identifier, or a bookmark is no string.
pub open spec fn decoded_page(raw: RawPageView) -> Result<PinResultView, ApiError> {
    match (raw.items, raw.bookmarks) {
        (Some(items), Some(bookmarks)) => match (
            decoded_pins(items),
            decoded_bookmarks(bookmarks),
        ) {
            (Ok(pins), Ok(marks)) => Ok(PinResultView { pins: pins, bookmarks: marks }),
            _ => Err(ApiError::MissingField),
        },
        _ => Err(ApiError::MissingField),
    }
}

/// Turns the entries of a page into pins.
pub fn decode_pins(items: Vec<RawPin>) -> (pins: Result<Vec<Pin>, ApiError>)
    ensures
        match pins {
            Ok(found) => decoded_pins(items.deep_view()) == Ok::<Seq<PinView>, ApiError>(
                found.deep_view(),
            ),
            Err(e) => decoded_pins(items.deep_view()) == Err::<Seq<PinView>, ApiError>(e),
        },
{
    let ghost raw = items.deep_view();
    let ghost entries = items@;
    let mut pins: Vec<Pin> = Vec::new();
    for entry in it: items
        invariant
            raw == items.deep_view(),
            entries.len() == raw.len(),
            forall|j: int| 0 <= j < entries.len() ==> (#[trigger] entries[j])@ == raw[j],
            it.seq() == entries,
            forall|j: int| 0 <= j < it.index() ==> !lacks_id(#[trigger] raw[j]),
            pins.deep_view() == raw.take(it.index() as int).filter_map(pin_filter()),
    {
        proof {
            raw.lemma_filter_map_take_succ(pin_filter(), it.index() as int);
        }
        match entry.image_url {
            Some(url) => match entry.id {
                Some(id) => {
                    pins.push(Pin { id: id, pic_url: url });
                },
                None => {
                    return Err(ApiError::MissingField);
                },
            },
            None => {},
        }
    }
    assert(raw.take(raw.len() as int) =~= raw);
    Ok(pins)
}

/// Turns the bookmarks of a page into the token to echo back.
pub fn decode_bookmarks(raw: Vec<Option<String>>) -> (bookmarks: Result<Vec<String>, ApiError>)
    ensures
        match bookmarks {
            Ok(found) => decoded_bookmarks(raw.deep_view()) == Ok::<Seq<Seq<char>>, ApiError>(
                found.deep_view(),
            ),
            Err(e) => decoded_bookmarks(raw.deep_view()) == Err::<Seq<Seq<char>>, ApiError>(e),
        },
{
    let ghost marks = raw.deep_view();
    let ghost entries = raw@;
    let mut bookmarks: Vec<String> = Vec::new();
    for entry in it: raw
        invariant
            marks == raw.deep_view(),
            entries.len() == marks.len(),
            forall|j: int|
                0 <= j < entries.len() ==> (#[trigger] entries[j]).deep_view() == marks[j],
            it.seq() == entries,
            bookmarks.len() == it.index(),
            forall|j: int|
                0 <= j < it.index() ==> marks[j] == Some((#[trigger] bookmarks[j])@),
    {
        match entry {
            Some(mark) => {
                bookmarks.push(mark);
            },
            None => {
                return Err(ApiError::MissingField);
            },
        }
    }
    assert forall|j: int| 0 <= j < marks.len() implies (#[trigger] marks[j]) is Some by {
        assert(marks[j] == Some(bookmarks[j]@));
    }
    assert(bookmarks.deep_view() =~= marks.map_values(mark_text()));
    Ok(bookmarks)
}

/// Turns a page as it was read into a page of pins, or says that a field is missing.
pub fn decode_page(raw: RawPage) -> (page: Result<PinResult, ApiError>)
    ensures
        match page {
            Ok(found) => decoded_page(raw@) == Ok::<PinResultView, ApiError>(found@),
            Err(e) => decoded_page(raw@) == Err::<PinResultView, ApiError>(e),
        },
{
    let RawPage { items, bookmarks } = raw;
    match items {
        Some(items) => match bookmarks {
            Some(bookmarks) => match decode_pins(items) {
                Ok(pins) => match decode_bookmarks(bookmarks) {
                    Ok(bookmarks) => Ok(PinResult { pins: pins, bookmarks: bookmarks }),
                    Err(e) => Err(e),
                },
                Err(e) => Err(e),
            },
            None => Err(ApiError::MissingField),
        },
        None => Err(ApiError::MissingField),
    }
}

/// Where a feed answer holds its entries.
pub const PINS_PATH: &'static str = "/resource_response/data";

/// Where a feed answer holds the bookmarks for the next page.
pub const BOOKMARKS_PATH: &'static str = "/resource/options/bookmarks";

/// Where an entry holds its identifier.
pub const PIN_ID_PATH: &'static str = "/id";

/// Where an entry holds the address of its picture.
pub const PIN_IMAGE_PATH: &'static str = "/images/orig/url";

/// The entry at `index` of a feed answer, as it is read.
pub open spec fn raw_pin_of(response: serde_json::Value, index: nat) -> RawPinView {
    RawPinView {
        id: lookup(texts(response), element_pointer(PINS_PATH@, index, PIN_ID_PATH@)),
        image_url: lookup(texts(response), element_pointer(PINS_PATH@, index, PIN_IMAGE_PATH@)),
    }
}

/// The bookmark at `index` of a feed answer, as it is read.
pub open spec fn raw_bookmark_of(response: serde_json::Value, index: nat) -> Option<Seq<char>> {
    lookup(texts(response), element_pointer(BOOKMARKS_PATH@, index, ""@))
}

/// A feed answer as it is read: one raw pin for every element of the array at
/// [`PINS_PATH`], one raw bookmark for every element of the array at
/// [`BOOKMARKS_PATH`]; either is absent where no array stands there.
pub open spec fn raw_page_of(response: serde_json::Value) -> RawPageView {
    RawPageView {
        items: match lookup(lengths(response), PINS_PATH@) {
            Some(n) => Some(Seq::new(n, |i: int| raw_pin_of(response, i as nat))),
            None => None,
        },
        bookmarks: match lookup(lengths(response), BOOKMARKS_PATH@) {
            Some(n) => Some(Seq::new(n, |i: int| raw_bookmark_of(response, i as nat))),
            None => None,
        },
    }
}

/// Reads from a feed answer what a page is made of.
pub fn read_page(response: &serde_json::Value) -> (raw: RawPage)
    ensures
        raw@ == raw_page_of(*response),
{
    let items = match length_at(response, PINS_PATH) {
        Some(n) => {
            let mut items: Vec<RawPin> = Vec::new();
            let mut i: usize = 0;
            while i < n
                invariant
                    i <= n,
                    items.len() == i,
                    forall|j: int|
                        0 <= j < i ==> (#[trigger] items[j])@ == raw_pin_of(*response, j as nat),
                decreases n - i,
            {
                let id = text_at(response, element_path(PINS_PATH, i, PIN_ID_PATH).as_str());
                let image_url = text_at(
                    response,
                    element_path(PINS_PATH, i, PIN_IMAGE_PATH).as_str(),
                );
                items.push(RawPin { id: id, image_url: image_url });
                i = i + 1;
            }
            assert(items.deep_view() =~= Seq::new(
                n as nat,
                |i: int| raw_pin_of(*response, i as nat),
            ));
            Some(items)
        },
        None => None,
    };
    let bookmarks = match length_at(response, BOOKMARKS_PATH) {
        Some(n) => {
            let mut marks: Vec<Option<String>> = Vec::new();
            let mut i: usize = 0;
            while i < n
                invariant
                    i <= n,
                    marks.len() == i,
                    forall|j: int|
                        0 <= j < i ==> (#[trigger] marks[j]).deep_view() == raw_bookmark_of(
                            *response,
                            j as nat,
                        ),
                decreases n - i,
            {
                marks.push(text_at(response, element_path(BOOKMARKS_PATH, i, "").as_str()));
                i = i + 1;
            }
            assert(marks.deep_view() =~= Seq::new(
                n as nat,
                |i: int| raw_bookmark_of(*response, i as nat),
            ));
            Some(marks)
        },
        None => None,
    };
    RawPage { items: items, bookmarks: bookmarks }
}

impl PinResult {
    /// Decodes a feed answer: the page that [`decoded_page`] makes of what
    /// [`raw_page_of`] reads, or `MissingField` where that is no page.
    pub fn from_response(response: &serde_json::Value) -> (page: Result<PinResult, ApiError>)
        ensures
            match page {
                Ok(found) => decoded_page(raw_page_of(*response)) == Ok::<PinResultView, ApiError>(
                    found@,
                ),
                Err(e) => e == ApiError::MissingField && decoded_page(raw_page_of(*response))
                    is Err,
            },
    {
        decode_page(read_page(response))
    }
}

} // verus!

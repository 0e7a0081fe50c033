//! Walking a board's feed page by page.
//!
//! The catalogue hands out each page with a continuation token, a list of opaque
//! bookmarks that is echoed back to ask for the next page. Nothing documents how the
//! catalogue says that no page is left: three forms of token were seen to mean it, and
//! [`is_terminal`] names them. The engine itself fetches nothing. It is fed each answer
//! and says what to do next, so that the caller runs the requests, one at a time.

use vstd::prelude::*;
use crate::board::{Pin, PinResult, PinResultView, PinView};
use crate::error::ApiError;
use crate::text::{same_text, starts_with};

verus! {

/// A first bookmark that begins so was seen to mean "treat this as no continuation".
pub const NO_CONTINUATION_PREFIX: &'static str = "Y2JOb25lO";

/// A first bookmark that reads so was seen to mean "the feed ends here".
pub const END_MARK: &'static str = "-end-";

/// Whether a token says that no page is left: it is empty, or its first bookmark begins
/// with [`NO_CONTINUATION_PREFIX`], or its first bookmark is [`END_MARK`]. Any other
/// token asks for another page.
pub open spec fn is_terminal(token: Seq<Seq<char>>) -> bool {
    ||| token.len() == 0
    ||| NO_CONTINUATION_PREFIX@.is_prefix_of(token[0])
    ||| token[0] == END_MARK@
}

/// Decides whether a token ends the feed.
pub fn is_terminal_token(token: &Vec<String>) -> (terminal: bool)
    ensures
        terminal == is_terminal(token.deep_view()),
{
    if token.len() == 0 {
        return true;
    }
    let first = token[0].as_str();
    starts_with(first, NO_CONTINUATION_PREFIX) || same_text(first, END_MARK)
}

/// The engine between two pages: the pins gathered so far.
#[derive(Debug)]
pub struct Pagination {
    /// The pins of every page taken in, in the order they came.
    pub pins: Vec<Pin>,
}

/// Where a walk stands after an answer was taken in.
#[derive(Debug)]
pub enum Progress {
    /// Another page is wanted.
    Fetch {
        /// The walk, waiting for the answer.
        engine: Pagination,
        /// What the request for the page carries, as it came with the page before.
        bookmarks: Vec<String>,
    },
    /// The feed ended: these are all its pins.
    Done(Vec<Pin>),
    /// A page could not be had: the walk is over and what was gathered is gone.
    Failed(ApiError),
}

/// What a [`Progress`] is in contracts.
pub ghost enum ProgressView {
    Fetch { collected: Seq<PinView>, bookmarks: Seq<Seq<char>> },
    Done(Seq<PinView>),
    Failed(ApiError),
}

impl View for Progress {
    type V = ProgressView;

    open spec fn view(&self) -> ProgressView {
        match *self {
            Progress::Fetch { engine, bookmarks } => ProgressView::Fetch {
                collected: engine.pins.deep_view(),
                bookmarks: bookmarks.deep_view(),
            },
            Progress::Done(pins) => ProgressView::Done(pins.deep_view()),
            Progress::Failed(e) => ProgressView::Failed(e),
        }
    }
}

/// A walk that has taken in nothing yet: the first page is asked for with no bookmark.
pub open spec fn initial() -> ProgressView {
    ProgressView::Fetch { collected: Seq::empty(), bookmarks: Seq::empty() }
}

/// What taking in one answer does to the pins gathered so far. A failure ends the walk
/// and drops them. A page adds its pins at the end; its token then either ends the walk
/// or is what the next request carries.
pub open spec fn step(
    collected: Seq<PinView>,
    response: Result<PinResultView, ApiError>,
) -> ProgressView {
    match response {
        Err(e) => ProgressView::Failed(e),
        Ok(page) => if is_terminal(page.bookmarks) {
            ProgressView::Done(collected + page.pins)
        } else {
            ProgressView::Fetch { collected: collected + page.pins, bookmarks: page.bookmarks }
        },
    }
}

/// What a [`Result`] of a page is in contracts.
pub open spec fn response_view(response: Result<PinResult, ApiError>) -> Result<
    PinResultView,
    ApiError,
> {
    match response {
        Ok(page) => Ok(page@),
        Err(e) => Err(e),
    }
}

impl Pagination {
    /// Begins a walk: nothing gathered, and the first request carries no bookmark.
    pub fn start() -> (progress: Progress)
        ensures
            progress@ == initial(),
    {
        let progress = Progress::Fetch {
            engine: Pagination { pins: Vec::new() },
            bookmarks: Vec::new(),
        };
        assert(progress@ =~= initial()) by {
            assert(progress@->Fetch_collected =~= Seq::empty());
            assert(progress@->Fetch_bookmarks =~= Seq::empty());
        }
        progress
    }

    /// Takes in the answer to the request that is out, and says what comes next.
    pub fn on_page(self, response: Result<PinResult, ApiError>) -> (progress: Progress)
        ensures
            progress@ == step(self.pins.deep_view(), response_view(response)),
    {
        match response {
            Err(e) => Progress::Failed(e),
            Ok(page) => {
                let ghost before = self.pins.deep_view();
                let ghost added = page.pins.deep_view();
                let PinResult { pins: mut fresh, bookmarks } = page;
                let mut pins = self.pins;
                pins.append(&mut fresh);
                assert(pins.deep_view() =~= before + added);
                if is_terminal_token(&bookmarks) {
                    Progress::Done(pins)
                } else {
                    Progress::Fetch { engine: Pagination { pins: pins }, bookmarks: bookmarks }
                }
            },
        }
    }
}

/// What one more answer does to a walk: a walk that asks takes it in, a walk that is
/// over stays as it is.
pub open spec fn advance(
    progress: ProgressView,
    response: Result<PinResultView, ApiError>,
) -> ProgressView {
    match progress {
        ProgressView::Fetch { collected, bookmarks } => step(collected, response),
        settled => settled,
    }
}

/// Where a walk stands after it was fed `responses`, first to last.
pub open spec fn replay(responses: Seq<Result<PinResultView, ApiError>>) -> ProgressView
    decreases responses.len(),
{
    if responses.len() == 0 {
        initial()
    } else {
        advance(replay(responses.drop_last()), responses.last())
    }
}

/// A page as the answer that delivers it.
pub open spec fn delivered() -> spec_fn(PinResultView) -> Result<PinResultView, ApiError> {
    |page: PinResultView| Ok(page)
}

/// The pins of a page, as a function value.
pub open spec fn page_pins() -> spec_fn(PinResultView) -> Seq<PinView> {
    |page: PinResultView| page.pins
}

/// The pins of `pages` laid end to end, page after page.
pub open spec fn all_pins(pages: Seq<PinResultView>) -> Seq<PinView> {
    pages.map_values(page_pins()).flatten()
}

/// The token that came with the last of `pages`; no bookmark where there is no page.
pub open spec fn last_token(pages: Seq<PinResultView>) -> Seq<Seq<char>> {
    if pages.len() == 0 {
        Seq::empty()
    } else {
        pages.last().bookmarks
    }
}

/// No page of `pages` carries a token that ends the feed.
pub open spec fn none_terminal(pages: Seq<PinResultView>) -> bool {
    forall|j: int| 0 <= j < pages.len() ==> !is_terminal(#[trigger] pages[j].bookmarks)
}

proof fn all_pins_push(pages: Seq<PinResultView>, page: PinResultView)
    ensures
        all_pins(pages.push(page)) == all_pins(pages) + page.pins,
{
    let sets = pages.map_values(page_pins());
    assert(pages.push(page).map_values(page_pins()) =~= sets.push(page.pins));
    sets.lemma_flatten_push(page.pins);
}

/// A walk never stops by itself. As long as no token ends the feed, the walk keeps
/// asking, however many pages have come: it holds the pins of all of them in order, and
/// the next request carries the last token as it came.
pub proof fn walk_continues(pages: Seq<PinResultView>)
    requires
        none_terminal(pages),
    ensures
        replay(pages.map_values(delivered())) == (ProgressView::Fetch {
            collected: all_pins(pages),
            bookmarks: last_token(pages),
        }),
    decreases pages.len(),
{
    if pages.len() > 0 {
        let earlier = pages.drop_last();
        walk_continues(earlier);
        assert(pages.map_values(delivered()).drop_last() =~= earlier.map_values(delivered()));
        all_pins_push(earlier, pages.last());
        assert(earlier.push(pages.last()) =~= pages);
    }
}

/// A walk halts exactly at the first page whose token ends the feed. Before that page
/// it still asks; with that page it is done, and what it returns is the pins of the
/// pages up to and including that one, in order; pages scripted after it change
/// nothing.
pub proof fn walk_halts_at_terminal_token(pages: Seq<PinResultView>, k: int, n: int)
    requires
        0 <= k < n <= pages.len(),
        none_terminal(pages.take(k)),
        is_terminal(pages[k].bookmarks),
    ensures
        replay(pages.take(k).map_values(delivered())) is Fetch,
        replay(pages.take(n).map_values(delivered())) == ProgressView::Done(
            all_pins(pages.take(k + 1)),
        ),
    decreases n,
{
    let responses = pages.take(n).map_values(delivered());
    let earlier = pages.take(n - 1);
    assert(responses.drop_last() =~= earlier.map_values(delivered()));
    walk_continues(pages.take(k));
    if n == k + 1 {
        all_pins_push(earlier, pages[k]);
        assert(earlier.push(pages[k]) =~= pages.take(k + 1));
    } else {
        walk_halts_at_terminal_token(pages, k, n - 1);
    }
}

/// A failure ends the walk and discards what was gathered: once an answer is a failure
/// while the walk still asks, the walk has failed with that error, whatever follows.
pub proof fn walk_fails_on_failure(
    responses: Seq<Result<PinResultView, ApiError>>,
    k: int,
    n: int,
)
    requires
        0 <= k < n <= responses.len(),
        replay(responses.take(k)) is Fetch,
        responses[k] is Err,
    ensures
        replay(responses.take(n)) == ProgressView::Failed(responses[k]->Err_0),
    decreases n,
{
    assert(responses.take(n).drop_last() =~= responses.take(n - 1));
    if n > k + 1 {
        walk_fails_on_failure(responses, k, n - 1);
    }
}

} // verus!

//! The two catalogue requests: where they go and what they carry.
//!
//! A request is a GET of `<root>/resource/<Name>Resource/get/` with two query
//! parameters: `data`, a JSON object that holds the options of the call, and an empty
//! `source_url`. The JSON text is compact, its keys in alphabetical order.

use vstd::prelude::*;
use vstd::string::{StrSliceExecFns, StringExecFns};
use crate::address::{BoardDescription, BoardDescriptionView};
use crate::board::Board;

verus! {

/// Where the catalogue lives.
pub const ROOT: &'static str = "https://www.pinterest.com";

/// The address of a resource of the catalogue, before any parameter.
pub open spec fn resource_address(resource: Seq<char>) -> Seq<char> {
    ROOT@ + "/resource/"@ + resource + "Resource/get/"@
}

/// Builds the address of a resource of the catalogue.
pub fn resource_format(resource: &str) -> (address: String)
    ensures
        address@ == resource_address(resource@),
{
    let mut address = String::from_str(ROOT);
    address.append("/resource/");
    address.append(resource);
    address.append("Resource/get/");
    address
}

/// The JSON text of a string: what `serde_json` writes for `Value::String`, quotes and
/// escapes included.
pub uninterp spec fn json_string(text: Seq<char>) -> Seq<char>;

/// `<serde_json::Value as Display>::fmt`, reached through `to_string`, on a
/// `Value::String`: the compact JSON text of the string. The result is named, not
/// spelled out.
#[verifier::external_body]
fn quote(text: &str) -> (quoted: String)
    ensures
        quoted@ == json_string(text@),
{
    serde_json::Value::String(text.to_owned()).to_string()
}

/// No text longer than this, in characters, is handed to the address parser.
pub const TEXT_LIMIT: usize = 0x10_0000;

/// No more query pairs than this are handed to the address parser.
pub const PAIRS_LIMIT: usize = 16;

/// Whether an address and its query pairs are of a size that the address parser
/// takes: it keeps positions in 32 bits and gives up, without returning, on an address
/// that outgrows them.
pub open spec fn parseable(base: Seq<char>, params: Seq<(Seq<char>, Seq<char>)>) -> bool {
    &&& base.len() <= TEXT_LIMIT
    &&& params.len() <= PAIRS_LIMIT
    &&& forall|i: int|
        0 <= i < params.len() ==> (#[trigger] params[i]).0.len() <= TEXT_LIMIT
            && params[i].1.len() <= TEXT_LIMIT
}

/// What `Url::parse_with_params` makes of an address and a list of query pairs, as
/// text; nothing where it finds no absolute address to parse.
pub uninterp spec fn address_with_params(
    base: Seq<char>,
    params: Seq<(Seq<char>, Seq<char>)>,
) -> Option<Seq<char>>;

/// `reqwest::Url::parse_with_params`: parses `base` and appends `params` to its query,
/// form-encoded. The result is handed out as text and named, not spelled out; it is
/// absent where the parser refuses `base`. Left out are inputs so long that the
/// result could pass 4 GiB, on which the parser panics.
#[verifier::external_body]
fn parse_with_params(base: &str, params: &Vec<(&str, &str)>) -> (address: Option<String>)
    requires
        parseable(base@, params.deep_view()),
    ensures
        address.deep_view() == address_with_params(base@, params.deep_view()),
{
    match reqwest::Url::parse_with_params(base, params) {
        Ok(url) => Some(String::from(url)),
        Err(_) => None,
    }
}

/// The query pairs of every catalogue request.
pub open spec fn query(options: Seq<char>) -> Seq<(Seq<char>, Seq<char>)> {
    seq![("data"@, options), ("source_url"@, ""@)]
}

/// The address of a call to the resource `name` with `options` as its JSON payload.
/// There is none where the name or the payload is longer than [`TEXT_LIMIT`], or where
/// the parser finds no address in what they make.
pub open spec fn request_address(name: Seq<char>, options: Seq<char>) -> Option<Seq<char>> {
    if resource_address(name).len() <= TEXT_LIMIT && options.len() <= TEXT_LIMIT {
        address_with_params(resource_address(name), query(options))
    } else {
        None
    }
}

/// The options of the call that resolves a board.
pub open spec fn board_options(description: BoardDescriptionView) -> Seq<char> {
    "{\"options\":{\"field_set_key\":\"detailed\",\"slug\":"@ + json_string(description.name)
        + ",\"username\":"@ + json_string(description.user) + "}}"@
}

/// Strings as JSON texts, with a comma between each two.
pub open spec fn json_items(items: Seq<Seq<char>>) -> Seq<char>
    decreases items.len(),
{
    if items.len() == 0 {
        Seq::empty()
    } else if items.len() == 1 {
        json_string(items[0])
    } else {
        json_items(items.drop_last()) + ","@ + json_string(items.last())
    }
}

/// The options of the call that fetches one page of a board's feed.
pub open spec fn feed_options(board_id: Seq<char>, bookmarks: Seq<Seq<char>>) -> Seq<char> {
    "{\"options\":{\"board_id\":"@ + json_string(board_id) + ",\"bookmarks\":["@ + json_items(
        bookmarks,
    ) + "],\"field_set_key\":\"react_grid_pin\",\"prepend\":false}}"@
}

/// The header set that goes with every catalogue request, verbatim.
pub open spec fn header_set() -> Seq<(Seq<char>, Seq<char>)> {
    seq![
        ("Accept"@, "application/json, text/javascript, */*, q=0.01"@),
        ("Content-Type"@, "application/json"@),
        ("X-Requested-With"@, "XMLHttpRequest"@),
        ("X-APP-VERSION"@, "a89153f"@),
        ("X-Pinterest-AppState"@, "active"@),
        ("X-Pinterest-Source-Url"@, ""@),
        ("X-Pinterest-PWS-Handler"@, "www/[username].js"@),
        ("Alt-Used"@, "www.pinterest.com"@),
        ("Connection"@, "keep-alive"@),
        ("Cookie"@, ""@),
        ("Sec-Fetch-Dest"@, "empty"@),
        ("Sec-Fetch-Mode"@, "cors"@),
        ("Sec-Fetch-Site"@, "same-origin"@),
    ]
}

impl Board {
    /// The headers of a catalogue request, as name and value.
    pub fn headers() -> (headers: Vec<(&'static str, &'static str)>)
        ensures
            headers.deep_view() == header_set(),
    {
        let mut headers: Vec<(&'static str, &'static str)> = Vec::new();
        headers.push(("Accept", "application/json, text/javascript, */*, q=0.01"));
        headers.push(("Content-Type", "application/json"));
        headers.push(("X-Requested-With", "XMLHttpRequest"));
        headers.push(("X-APP-VERSION", "a89153f"));
        headers.push(("X-Pinterest-AppState", "active"));
        headers.push(("X-Pinterest-Source-Url", ""));
        headers.push(("X-Pinterest-PWS-Handler", "www/[username].js"));
        headers.push(("Alt-Used", "www.pinterest.com"));
        headers.push(("Connection", "keep-alive"));
        headers.push(("Cookie", ""));
        headers.push(("Sec-Fetch-Dest", "empty"));
        headers.push(("Sec-Fetch-Mode", "cors"));
        headers.push(("Sec-Fetch-Site", "same-origin"));
        headers
    }

    /// The address of a call to the resource `name` with `options` as its JSON payload;
    /// nothing where no address can be made of them.
    pub fn url_options(name: &str, options: &str) -> (address: Option<String>)
        ensures
            address.deep_view() == request_address(name@, options@),
    {
        let base = resource_format(name);
        if base.as_str().unicode_len() > TEXT_LIMIT || options.unicode_len() > TEXT_LIMIT {
            return None;
        }
        let mut params: Vec<(&str, &str)> = Vec::new();
        params.push(("data", options));
        params.push(("source_url", ""));
        proof {
            reveal_strlit("data");
            reveal_strlit("source_url");
            reveal_strlit("");
            assert(params.deep_view() =~= query(options@));
        }
        parse_with_params(base.as_str(), &params)
    }

    /// The address of the call that resolves the board `description` names.
    pub fn request_board_url(description: &BoardDescription) -> (address: Option<String>)
        ensures
            address.deep_view() == request_address("Board"@, board_options(description@)),
    {
        let mut data = String::from_str("{\"options\":{\"field_set_key\":\"detailed\",\"slug\":");
        data.append(quote(description.name.as_str()).as_str());
        data.append(",\"username\":");
        data.append(quote(description.user.as_str()).as_str());
        data.append("}}");
        Self::url_options("Board", data.as_str())
    }

    /// The address of the call that fetches the page of this board's feed that
    /// `bookmarks` asks for; no bookmark asks for the first page.
    pub fn request_pins_url(&self, bookmarks: Vec<String>) -> (address: Option<String>)
        ensures
            address.deep_view() == request_address(
                "BoardFeed"@,
                feed_options(self.id@, bookmarks.deep_view()),
            ),
    {
        let ghost marks = bookmarks.deep_view();
        let mut data = String::from_str("{\"options\":{\"board_id\":");
        data.append(quote(self.id.as_str()).as_str());
        data.append(",\"bookmarks\":[");
        let ghost head = data@;
        let mut i: usize = 0;
        while i < bookmarks.len()
            invariant
                i <= bookmarks.len(),
                marks == bookmarks.deep_view(),
                data@ == head + json_items(marks.take(i as int)),
            decreases bookmarks.len() - i,
        {
            proof {
                assert(marks.take(i + 1).drop_last() =~= marks.take(i as int));
            }
            if i > 0 {
                data.append(",");
            }
            data.append(quote(bookmarks[i].as_str()).as_str());
            i = i + 1;
        }
        assert(marks.take(i as int) =~= marks);
        data.append("],\"field_set_key\":\"react_grid_pin\",\"prepend\":false}}");
        Self::url_options("BoardFeed", data.as_str())
    }
}

} // verus!

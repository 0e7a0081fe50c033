//! From a board's address to its owner and name.
//!
//! Only the path of an address counts: a query or fragment after it and a scheme and
//! host before it are left aside. The path is cut at every `/`. Its last two pieces
//! that are not empty are the owner and the board, each percent-decoded and read as
//! UTF-8.

use vstd::prelude::*;
use vstd::utf8::{decode_utf8, encode_utf8, valid_utf8};
use vstd::slice::slice_subrange;
use crate::text::chars_of;

verus! {

/// Who owns a board and what it is called, as its address spells them.
#[derive(Debug)]
pub struct BoardDescription {
    /// The owner, percent-decoded.
    pub user: String,
    /// The board's name, percent-decoded.
    pub name: String,
}

/// What a [`BoardDescription`] is in contracts.
pub ghost struct BoardDescriptionView {
    pub user: Seq<char>,
    pub name: Seq<char>,
}

impl View for BoardDescription {
    type V = BoardDescriptionView;

    open spec fn view(&self) -> BoardDescriptionView {
        BoardDescriptionView { user: self.user@, name: self.name@ }
    }
}

impl Clone for BoardDescription {
    fn clone(&self) -> (copy: Self)
        ensures
            copy@ == self@,
    {
        BoardDescription { user: self.user.clone(), name: self.name.clone() }
    }
}

impl DeepView for BoardDescription {
    type V = BoardDescriptionView;

    open spec fn deep_view(&self) -> BoardDescriptionView {
        self@
    }
}

/// The value of a hexadecimal digit given as an ASCII byte.
pub open spec fn hex_digit(byte: u8) -> Option<int> {
    if 0x30 <= byte <= 0x39 {
        Some(byte - 0x30)
    } else if 0x41 <= byte <= 0x46 {
        Some(byte - 0x41 + 10)
    } else if 0x61 <= byte <= 0x66 {
        Some(byte - 0x61 + 10)
    } else {
        None
    }
}

/// Percent-decoding of bytes: `%` followed by two hexadecimal digits becomes the byte
/// they spell; every other byte, a `%` without two such digits too, stays.
pub open spec fn percent_decoded(bytes: Seq<u8>) -> Seq<u8>
    decreases bytes.len(),
{
    if bytes.len() == 0 {
        Seq::empty()
    } else if bytes[0] == 0x25 && bytes.len() >= 3 && hex_digit(bytes[1]) is Some && hex_digit(
        bytes[2],
    ) is Some {
        seq![(hex_digit(bytes[1])->0 * 16 + hex_digit(bytes[2])->0) as u8] + percent_decoded(
            bytes.skip(3),
        )
    } else {
        seq![bytes[0]] + percent_decoded(bytes.skip(1))
    }
}

/// A piece of an address read as text: its UTF-8 bytes percent-decoded and read as
/// UTF-8 again; nothing where the decoded bytes are not well-formed UTF-8.
pub open spec fn decoded_text(piece: Seq<char>) -> Option<Seq<char>> {
    let bytes = percent_decoded(encode_utf8(piece));
    if valid_utf8(bytes) {
        Some(decode_utf8(bytes))
    } else {
        None
    }
}

/// `percent_encoding::percent_decode_str` followed by `PercentDecode::decode_utf8`:
/// the text percent-decoded byte by byte as [`percent_decoded`] says, then read as
/// UTF-8, which fails exactly where the decoded bytes are not well-formed.
#[verifier::external_body]
pub(crate) fn decode_str(s: &str) -> (decoded: Option<String>)
    ensures
        decoded.deep_view() == decoded_text(s@),
{
    match percent_encoding::percent_decode_str(s).decode_utf8() {
        Ok(text) => Some(text.into_owned()),
        Err(_) => None,
    }
}

/// The pieces of `s` between occurrences of `sep`, empty ones included: one more than
/// there are separators.
pub open spec fn split(s: Seq<char>, sep: char) -> Seq<Seq<char>>
    decreases s.len(),
{
    if s.len() == 0 {
        seq![Seq::<char>::empty()]
    } else {
        let parts = split(s.drop_last(), sep);
        if s.last() == sep {
            parts.push(Seq::empty())
        } else {
            parts.drop_last().push(parts.last().push(s.last()))
        }
    }
}

/// A piece that holds at least one character, as a function value.
pub open spec fn filled() -> spec_fn(Seq<char>) -> bool {
    |piece: Seq<char>| piece.len() > 0
}

/// The position of the first character of `s` that is `wanted`; the length of `s` where
/// there is none.
pub open spec fn first_index(s: Seq<char>, wanted: spec_fn(char) -> bool) -> int
    decreases s.len(),
{
    if s.len() == 0 || wanted(s[0]) {
        0
    } else {
        1 + first_index(s.drop_first(), wanted)
    }
}

/// The characters that end a path: `?` opens the query, `#` the fragment.
pub open spec fn ends_path() -> spec_fn(char) -> bool {
    |c: char| c == '?' || c == '#'
}

/// The slash, as a function value.
pub open spec fn is_slash() -> spec_fn(char) -> bool {
    |c: char| c == '/'
}

/// An address up to its query or fragment.
pub open spec fn without_query(url: Seq<char>) -> Seq<char> {
    url.take(first_index(url, ends_path()))
}

/// Whether a text without query names a host: its first slash is doubled, and stands
/// at the very beginning or behind the colon of a scheme, as in `https://host/path`
/// and `//host/path`.
pub open spec fn names_host(s: Seq<char>) -> bool {
    let slash = first_index(s, is_slash());
    &&& slash + 1 < s.len()
    &&& s[slash + 1] == '/'
    &&& (slash == 0 || s[slash - 1] == ':')
}

/// Where the path of a text without query begins: behind the host where it names one,
/// at the beginning where it names none.
pub open spec fn path_start(s: Seq<char>) -> int {
    if names_host(s) {
        let host = first_index(s, is_slash()) + 2;
        host + first_index(s.skip(host), is_slash())
    } else {
        0
    }
}

/// The path of an address: what is left when the query, the fragment, the scheme and
/// the host are taken away.
pub open spec fn path_of(url: Seq<char>) -> Seq<char> {
    without_query(url).skip(path_start(without_query(url)))
}

/// The pieces of a path between slashes that are not empty.
pub open spec fn pieces(path: Seq<char>) -> Seq<Seq<char>> {
    split(path, '/').filter(filled())
}

/// The segments of an address: the pieces of its path.
pub open spec fn segments(url: Seq<char>) -> Seq<Seq<char>> {
    pieces(path_of(url))
}

/// The board an address names: owner and name are its last two segments, decoded.
/// Nothing where there are fewer than two segments, or where one of the two does not
/// decode to UTF-8.
pub open spec fn described(url: Seq<char>) -> Option<BoardDescriptionView> {
    described_by_path(path_of(url))
}

/// The board a path names: owner and name are its last two pieces, decoded.
pub open spec fn described_by_path(path: Seq<char>) -> Option<BoardDescriptionView> {
    let found = pieces(path);
    if found.len() < 2 {
        None
    } else {
        match (decoded_text(found[found.len() - 2]), decoded_text(found[found.len() - 1])) {
            (Some(user), Some(name)) => Some(BoardDescriptionView { user: user, name: name }),
            _ => None,
        }
    }
}

/// Cutting never yields nothing: a text without separator is one piece.
pub proof fn split_is_never_empty(s: Seq<char>, sep: char)
    ensures
        split(s, sep).len() >= 1,
    decreases s.len(),
{
    if s.len() > 0 {
        split_is_never_empty(s.drop_last(), sep);
    }
}

/// A run of characters in a text: from position `start` up to, not including, `end`.
#[derive(Clone, Copy, Debug)]
pub struct Span {
    pub start: usize,
    pub end: usize,
}

impl Span {
    /// The characters of `s` that the span covers.
    pub open spec fn of(self, s: Seq<char>) -> Seq<char> {
        s.subrange(self.start as int, self.end as int)
    }
}

/// Where the last two pieces of a path lie.
#[derive(Clone, Copy, Debug)]
pub struct Ranges {
    /// The last segment but one.
    pub owner: Span,
    /// The last segment.
    pub board: Span,
}

/// Finds the last two pieces of a path.
pub fn last_two_segments(url: &[char]) -> (found: Option<Ranges>)
    ensures
        found is Some <==> pieces(url@).len() >= 2,
        found matches Some(at) ==> {
            let all = pieces(url@);
            &&& at.owner.start <= at.owner.end <= at.board.start <= at.board.end <= url@.len()
            &&& all[all.len() - 2] == at.owner.of(url@)
            &&& all[all.len() - 1] == at.board.of(url@)
        },
{
    let n = url.len();
    let ghost s = url@;
    // The last two segments that are complete, and where the piece being read began.
    let mut owner: Option<Span> = None;
    let mut board: Option<Span> = None;
    let mut start: usize = 0;
    let mut i: usize = 0;
    proof {
        broadcast use Seq::lemma_filter_push;

        assert(Seq::<Seq<char>>::empty().filter(filled()).len() == 0) by {
            Seq::<Seq<char>>::empty().lemma_filter_len(filled());
        }
    }
    while i < n
        invariant
            s == url@,
            n == s.len(),
            start <= i <= n,
            split(s.take(i as int), '/').len() >= 1,
            split(s.take(i as int), '/').last() == s.subrange(start as int, i as int),
            ({
                let done = split(s.take(i as int), '/').drop_last().filter(filled());
                &&& board is None <==> done.len() == 0
                &&& owner is None <==> done.len() <= 1
                &&& board matches Some(b) ==> b.start <= b.end <= start && done[done.len() - 1]
                    == b.of(s)
                &&& owner matches Some(o) ==> o.start <= o.end <= board->0.start && done[done.len()
                    - 2] == o.of(s)
            }),
        decreases n - i,
    {
        let ghost parts = split(s.take(i as int), '/');
        proof {
            broadcast use Seq::lemma_filter_push;

            assert(s.take(i + 1).drop_last() =~= s.take(i as int));
            assert(parts.drop_last().push(parts.last()) =~= parts);
        }
        if url[i] == '/' {
            proof {
                let next = split(s.take(i + 1), '/');
                assert(next.drop_last() =~= parts);
            }
            if start < i {
                owner = board;
                board = Some(Span { start: start, end: i });
            }
            start = i + 1;
        } else {
            proof {
                let next = split(s.take(i + 1), '/');
                assert(next.drop_last() =~= parts.drop_last());
            }
        }
        i = i + 1;
    }
    proof {
        broadcast use Seq::lemma_filter_push;

        assert(s.take(n as int) =~= s);
        let parts = split(s, '/');
        assert(parts.drop_last().push(parts.last()) =~= parts);
    }
    if start < n {
        owner = board;
        board = Some(Span { start: start, end: n });
    }
    match (owner, board) {
        (Some(o), Some(b)) => Some(Ranges { owner: o, board: b }),
        _ => None,
    }
}

/// The first position is where nothing wanted stands before and something wanted, or
/// the end, stands at.
pub proof fn first_index_is(s: Seq<char>, wanted: spec_fn(char) -> bool, at: int)
    requires
        0 <= at <= s.len(),
        forall|i: int| 0 <= i < at ==> !wanted(#[trigger] s[i]),
        at < s.len() ==> wanted(s[at]),
    ensures
        first_index(s, wanted) == at,
    decreases s.len(),
{
    if s.len() > 0 && !wanted(s[0]) {
        first_index_is(s.drop_first(), wanted, at - 1);
    }
}

/// Which character the search is for.
#[derive(Clone, Copy, Debug, PartialEq, Eq, Structural)]
pub enum Mark {
    /// A `/`.
    Slash,
    /// A `?` or a `#`.
    PathEnd,
}

impl Mark {
    /// The characters a mark stands for.
    pub open spec fn wanted(self) -> spec_fn(char) -> bool {
        match self {
            Mark::Slash => is_slash(),
            Mark::PathEnd => ends_path(),
        }
    }
}

impl Mark {
    /// Whether `c` is a character the mark stands for.
    pub fn matches(self, c: char) -> (hit: bool)
        ensures
            hit == (self.wanted())(c),
    {
        match self {
            Mark::Slash => c == '/',
            Mark::PathEnd => c == '?' || c == '#',
        }
    }
}

/// Finds the first character from `from` on that `mark` stands for.
pub fn find(chars: &[char], from: usize, mark: Mark) -> (at: usize)
    requires
        from <= chars@.len(),
    ensures
        from <= at <= chars@.len(),
        at == from + first_index(chars@.skip(from as int), mark.wanted()),
{
    let mut at = from;
    while at < chars.len() && !mark.matches(chars[at])
        invariant
            from <= at <= chars@.len(),
            forall|i: int| from <= i < at ==> !(mark.wanted())(#[trigger] chars@[i]),
        decreases chars@.len() - at,
    {
        at = at + 1;
    }
    proof {
        first_index_is(chars@.skip(from as int), mark.wanted(), at - from);
    }
    at
}

/// Finds the path of an address.
pub fn path_span(url: &[char]) -> (path: Span)
    ensures
        path.start <= path.end <= url@.len(),
        path.of(url@) == path_of(url@),
{
    let end = find(url, 0, Mark::PathEnd);
    assert(url@.skip(0) =~= url@);
    let head = slice_subrange(url, 0, end);
    let slash = find(head, 0, Mark::Slash);
    assert(head@.skip(0) =~= head@);
    let start = if slash < end && end - slash > 1 && head[slash + 1] == '/' && (slash == 0
        || head[slash - 1] == ':') {
        find(head, slash + 2, Mark::Slash)
    } else {
        0
    };
    Span { start: start, end: end }
}

impl BoardDescription {
    /// Reads owner and board name off an address: see [`described`].
    pub fn from_url(url: &str) -> (description: Option<BoardDescription>)
        ensures
            description.deep_view() == described(url@),
    {
        let chars = chars_of(url);
        let path = path_span(chars.as_slice());
        match last_two_segments(slice_subrange(chars.as_slice(), path.start, path.end)) {
            None => None,
            Some(at) => {
                let ghost inner = path.of(url@);
                assert(at.owner.of(inner) =~= url@.subrange(
                    path.start + at.owner.start,
                    path.start + at.owner.end,
                ));
                assert(at.board.of(inner) =~= url@.subrange(
                    path.start + at.board.start,
                    path.start + at.board.end,
                ));
                let user = decode_str(
                    url.substring_char(path.start + at.owner.start, path.start + at.owner.end),
                );
                let name = decode_str(
                    url.substring_char(path.start + at.board.start, path.start + at.board.end),
                );
                match (user, name) {
                    (Some(user), Some(name)) => Some(BoardDescription { user: user, name: name }),
                    _ => None,
                }
            },
        }
    }
}

/// Pieces that follow the last separator only lengthen the last piece.
proof fn split_extends_last(s: Seq<char>, t: Seq<char>, sep: char)
    requires
        !t.contains(sep),
    ensures
        split(s + t, sep) == split(s, sep).drop_last().push(split(s, sep).last() + t),
    decreases t.len(),
{
    split_is_never_empty(s, sep);
    let parts = split(s, sep);
    if t.len() > 0 {
        let shorter = t.drop_last();
        split_extends_last(s, shorter, sep);
        assert((s + t).drop_last() =~= s + shorter);
        assert(split(s + shorter, sep).last().push(t.last()) =~= parts.last() + t);
    }
}

/// A separator at the end opens a new, empty piece.
proof fn split_after_separator(s: Seq<char>, sep: char)
    ensures
        split(s.push(sep), sep) == split(s, sep).push(Seq::empty()),
{
    assert(s.push(sep).drop_last() =~= s);
}

/// What may follow the board's name: a slash, or nothing.
pub open spec fn tail(closed: bool) -> Seq<char> {
    if closed {
        seq!['/']
    } else {
        Seq::empty()
    }
}

/// A path of the form `.../<owner>/<board>` or `.../<owner>/<board>/` names that owner
/// and that board: they are its last two pieces, and the description is made of what
/// the two decode to. What stands before them does not matter, as long as it is
/// nothing or ends in a slash.
pub proof fn path_names_owner_and_board(
    prefix: Seq<char>,
    owner: Seq<char>,
    board: Seq<char>,
    closed: bool,
)
    requires
        prefix.len() == 0 || prefix.last() == '/',
        owner.len() > 0,
        board.len() > 0,
        !owner.contains('/'),
        !board.contains('/'),
    ensures
        ({
            let path = prefix + owner + seq!['/'] + board + tail(closed);
            let all = pieces(path);
            &&& all.len() >= 2
            &&& all[all.len() - 2] == owner
            &&& all[all.len() - 1] == board
            &&& described_by_path(path) == match (decoded_text(owner), decoded_text(board)) {
                (Some(user), Some(name)) => Some(BoardDescriptionView { user: user, name: name }),
                _ => None,
            }
        }),
{
    broadcast use Seq::lemma_filter_push;

    let sep = '/';
    let head = split(prefix, sep);
    split_is_never_empty(prefix, sep);
    assert(head.last() =~= Seq::empty()) by {
        if prefix.len() > 0 {
            split_after_separator(prefix.drop_last(), sep);
        }
    }
    split_extends_last(prefix, owner, sep);
    let with_owner = head.drop_last().push(owner);
    split_after_separator(prefix + owner, sep);
    assert((prefix + owner).push(sep) =~= prefix + owner + seq![sep]);
    split_extends_last(prefix + owner + seq![sep], board, sep);
    assert(with_owner.push(Seq::empty()).drop_last() =~= with_owner);
    if closed {
        split_after_separator(prefix + owner + seq![sep] + board, sep);
        assert((prefix + owner + seq![sep] + board).push(sep) =~= prefix + owner + seq![sep]
            + board + seq![sep]);
    } else {
        assert(prefix + owner + seq![sep] + board + Seq::empty() =~= prefix + owner + seq![sep]
            + board);
    }
}

/// A text is free of a character.
pub open spec fn free_of(s: Seq<char>, c: char) -> bool {
    !s.contains(c)
}

/// The path of `scheme://host<path>` is `<path>`, and a query or fragment behind it
/// changes nothing: scheme, host and path are what their names say as long as scheme
/// and host hold no `/`, the path is empty or begins with `/`, and none of the three
/// holds `?` or `#`.
pub proof fn path_of_full_address(
    scheme: Seq<char>,
    host: Seq<char>,
    path: Seq<char>,
    rest: Seq<char>,
)
    requires
        free_of(scheme, '/') && free_of(scheme, '?') && free_of(scheme, '#'),
        free_of(host, '/') && free_of(host, '?') && free_of(host, '#'),
        free_of(path, '?') && free_of(path, '#'),
        path.len() == 0 || path[0] == '/',
        rest.len() == 0 || rest[0] == '?' || rest[0] == '#',
    ensures
        path_of(scheme + "://"@ + host + path + rest) == path,
{
    reveal_strlit("://");
    let plain = scheme + "://"@ + host + path;
    let slash = scheme.len() as int + 1;
    first_index_is(plain + rest, ends_path(), plain.len() as int);
    assert(without_query(plain + rest) =~= plain);
    first_index_is(plain, is_slash(), slash);
    first_index_is(plain.skip(slash + 2), is_slash(), host.len() as int);
}

/// An address without scheme and host is its own path, up to its query or fragment:
/// so is every text free of `?` and `#` whose first slash is not doubled.
pub proof fn path_of_bare_path(path: Seq<char>, rest: Seq<char>)
    requires
        free_of(path, '?') && free_of(path, '#'),
        !names_host(path),
        rest.len() == 0 || rest[0] == '?' || rest[0] == '#',
    ensures
        path_of(path + rest) == path,
{
    first_index_is(path + rest, ends_path(), path.len() as int);
    assert(without_query(path + rest) =~= path);
}

/// An address of the form `scheme://host/.../<owner>/<board>`, with or without a
/// slash at its end, names that owner and that board, decoded.
pub proof fn address_names_owner_and_board(
    scheme: Seq<char>,
    host: Seq<char>,
    prefix: Seq<char>,
    owner: Seq<char>,
    board: Seq<char>,
    closed: bool,
)
    requires
        free_of(scheme, '/') && free_of(scheme, '?') && free_of(scheme, '#'),
        free_of(host, '/') && free_of(host, '?') && free_of(host, '#'),
        prefix.len() > 0 && prefix[0] == '/' && prefix.last() == '/',
        free_of(prefix, '?') && free_of(prefix, '#'),
        owner.len() > 0 && free_of(owner, '/') && free_of(owner, '?') && free_of(owner, '#'),
        board.len() > 0 && free_of(board, '/') && free_of(board, '?') && free_of(board, '#'),
    ensures
        described(scheme + "://"@ + host + prefix + owner + seq!['/'] + board + tail(closed))
            == match (decoded_text(owner), decoded_text(board)) {
            (Some(user), Some(name)) => Some(BoardDescriptionView { user: user, name: name }),
            _ => None,
        },
{
    let path = prefix + owner + seq!['/'] + board + tail(closed);
    path_of_full_address(scheme, host, path, Seq::empty());
    assert(scheme + "://"@ + host + path + Seq::empty() =~= scheme + "://"@ + host + prefix
        + owner + seq!['/'] + board + tail(closed));
    path_names_owner_and_board(prefix, owner, board, closed);
}

/// An address with a single segment behind its host, `scheme://host/<owner>` with or
/// without a slash at its end, names no board.
pub proof fn lone_segment_names_no_board(
    scheme: Seq<char>,
    host: Seq<char>,
    owner: Seq<char>,
    closed: bool,
)
    requires
        free_of(scheme, '/') && free_of(scheme, '?') && free_of(scheme, '#'),
        free_of(host, '/') && free_of(host, '?') && free_of(host, '#'),
        free_of(owner, '/') && free_of(owner, '?') && free_of(owner, '#'),
    ensures
        described(scheme + "://"@ + host + seq!['/'] + owner + tail(closed)) is None,
{
    broadcast use Seq::lemma_filter_push;

    let sep = '/';
    let path = seq![sep] + owner + tail(closed);
    path_of_full_address(scheme, host, path, Seq::empty());
    assert(scheme + "://"@ + host + path + Seq::empty() =~= scheme + "://"@ + host + seq![sep]
        + owner + tail(closed));
    let none = Seq::<char>::empty();
    split_after_separator(none, sep);
    split_extends_last(seq![sep], owner, sep);
    assert(split(seq![sep] + owner, sep) =~= seq![none, none + owner]);
    assert(seq![none, none + owner] =~= Seq::<Seq<char>>::empty().push(none).push(none + owner));
    assert(Seq::<Seq<char>>::empty().filter(filled()).len() == 0) by {
        Seq::<Seq<char>>::empty().lemma_filter_len(filled());
    }
    if closed {
        split_after_separator(seq![sep] + owner, sep);
        assert((seq![sep] + owner).push(sep) =~= path);
    }
}

/// An address with fewer than two segments names no board.
pub proof fn short_address_names_no_board(url: Seq<char>)
    requires
        segments(url).len() < 2,
    ensures
        described(url) is None,
{
}

/// Whether `encoded` is a percent-encoding of `raw`: every byte of `raw` is written
/// either as itself, unless it is a `%`, or as `%` and its two hexadecimal digits, in
/// either case of letters.
pub open spec fn spells(encoded: Seq<u8>, raw: Seq<u8>) -> bool
    decreases encoded.len(),
{
    if encoded.len() == 0 {
        raw.len() == 0
    } else if raw.len() == 0 {
        false
    } else if encoded[0] == 0x25 {
        &&& encoded.len() >= 3
        &&& hex_digit(encoded[1]) is Some
        &&& hex_digit(encoded[2]) is Some
        &&& raw[0] == hex_digit(encoded[1])->0 * 16 + hex_digit(encoded[2])->0
        &&& spells(encoded.skip(3), raw.skip(1))
    } else {
        encoded[0] == raw[0] && spells(encoded.skip(1), raw.skip(1))
    }
}

/// Percent-decoding undoes percent-encoding, however the encoder chose between a byte
/// and its escape.
pub proof fn decoding_undoes_encoding(encoded: Seq<u8>, raw: Seq<u8>)
    requires
        spells(encoded, raw),
    ensures
        percent_decoded(encoded) == raw,
    decreases encoded.len(),
{
    if encoded.len() > 0 {
        if encoded[0] == 0x25 {
            decoding_undoes_encoding(encoded.skip(3), raw.skip(1));
        } else {
            decoding_undoes_encoding(encoded.skip(1), raw.skip(1));
        }
    }
}

/// A segment that is a percent-encoding of a text reads as that text.
pub proof fn encoded_segment_reads_as_text(piece: Seq<char>, text: Seq<char>)
    requires
        spells(encode_utf8(piece), encode_utf8(text)),
    ensures
        decoded_text(piece) == Some(text),
{
    broadcast use vstd::utf8::encode_utf8_valid_utf8, vstd::utf8::encode_utf8_decode_utf8;

    decoding_undoes_encoding(encode_utf8(piece), encode_utf8(text));
}

/// A segment of ASCII characters without `%` stands for itself.
pub proof fn plain_segment_reads_as_itself(piece: Seq<char>)
    requires
        vstd::utf8::is_ascii_chars(piece),
        !piece.contains('%'),
    ensures
        decoded_text(piece) == Some(piece),
{
    broadcast use vstd::utf8::encode_utf8_valid_utf8, vstd::utf8::encode_utf8_decode_utf8;

    vstd::utf8::is_ascii_chars_encode_utf8(piece);
    percent_free_bytes_stay(encode_utf8(piece));
}

/// Bytes without `%` are not changed by percent-decoding.
proof fn percent_free_bytes_stay(bytes: Seq<u8>)
    requires
        forall|i: int| 0 <= i < bytes.len() ==> bytes[i] != 0x25,
    ensures
        percent_decoded(bytes) == bytes,
    decreases bytes.len(),
{
    if bytes.len() > 0 {
        percent_free_bytes_stay(bytes.skip(1));
    }
}

} // verus!

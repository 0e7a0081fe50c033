//! What becomes of one pin: where its picture is stored and how its download ends.

use vstd::prelude::*;
use vstd::string::StringExecFns;
use crate::board::{Pin, PinView};
use crate::text::chars_of;

verus! {

/// The extension of a picture's address: what follows its last `.`. An address
/// without `.` has none.
pub open spec fn extension_of(url: Seq<char>) -> Option<Seq<char>>
    decreases url.len(),
{
    if url.len() == 0 {
        None
    } else if url.last() == '.' {
        Some(Seq::empty())
    } else {
        match extension_of(url.drop_last()) {
            Some(found) => Some(found.push(url.last())),
            None => None,
        }
    }
}

/// The name of the file a pin is stored in: its identifier, a `.`, and the extension of
/// its picture's address. A pin whose picture has no extension has no file.
pub open spec fn file_name_of(pin: PinView) -> Option<Seq<char>> {
    match extension_of(pin.pic_url) {
        Some(found) => Some(pin.id + "."@ + found),
        None => None,
    }
}

/// An address without `.` has no extension.
pub proof fn no_dot_no_extension(url: Seq<char>)
    requires
        !url.contains('.'),
    ensures
        extension_of(url) is None,
    decreases url.len(),
{
    if url.len() > 0 {
        no_dot_no_extension(url.drop_last());
    }
}

/// The extension is what follows the last `.`: it holds no `.` itself, and the address
/// is some head, a `.`, and the extension.
pub proof fn extension_follows_last_dot(url: Seq<char>, dot: int)
    requires
        0 <= dot < url.len(),
        url[dot] == '.',
        forall|j: int| dot < j < url.len() ==> url[j] != '.',
    ensures
        extension_of(url) == Some(url.subrange(dot + 1, url.len() as int)),
    decreases url.len(),
{
    if dot < url.len() - 1 {
        let shorter = url.drop_last();
        extension_follows_last_dot(shorter, dot);
        assert(shorter.subrange(dot + 1, shorter.len() as int).push(url.last()) =~= url.subrange(
            dot + 1,
            url.len() as int,
        ));
    }
}

/// Takes the extension off a picture's address.
pub fn extension(pic_url: &str) -> (found: Option<String>)
    ensures
        found.deep_view() == extension_of(pic_url@),
{
    let chars = chars_of(pic_url);
    let mut i: usize = chars.len();
    while i > 0
        invariant
            i <= chars.len(),
            chars@ == pic_url@,
            forall|j: int| i <= j < chars.len() ==> chars[j] != '.',
        decreases i,
    {
        i = i - 1;
        if chars[i] == '.' {
            proof {
                extension_follows_last_dot(pic_url@, i as int);
            }
            return Some(pic_url.substring_char(i + 1, chars.len()).to_owned());
        }
    }
    proof {
        no_dot_no_extension(pic_url@);
    }
    None
}

impl Pin {
    /// The name of the file this pin is stored in, if its picture has an extension.
    pub fn file_name(&self) -> (name: Option<String>)
        ensures
            name.deep_view() == file_name_of(self@),
    {
        match extension(self.pic_url.as_str()) {
            Some(found) => {
                let mut name = self.id.clone();
                name.append(".");
                name.append(found.as_str());
                Some(name)
            },
            None => None,
        }
    }
}

} // verus!

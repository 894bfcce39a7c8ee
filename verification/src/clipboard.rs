//! The clipboards, which live as long as the backend.

use vstd::prelude::*;

verus! {

/// A clipboard that the platform may be asked for.
#[derive(Clone, Copy, PartialEq, Eq, Structural, Debug)]
pub enum Clipboard {
    /// The one of copy and paste.
    DefaultClipboard,
    /// The one that holds the selection.
    SelectionClipboard,
    /// One that is not known here.
    Other,
}

/// The text of the clipboards.
pub struct Clipboards {
    clipboard: Option<String>,
    sel_clipboard: Option<String>,
}

/// The text of an optional string.
pub open spec fn text_of(text: Option<String>) -> Option<Seq<char>> {
    match text {
        Some(text) => Some(text@),
        None => None,
    }
}

impl Clipboards {
    /// The text of a clipboard; one that is not known holds none.
    pub closed spec fn text(self, which: Clipboard) -> Option<Seq<char>> {
        match which {
            Clipboard::DefaultClipboard => text_of(self.clipboard),
            Clipboard::SelectionClipboard => text_of(self.sel_clipboard),
            Clipboard::Other => None,
        }
    }

    /// Clipboards without any text.
    pub fn new() -> (clipboards: Clipboards)
        ensures
            forall|which: Clipboard| #[trigger] clipboards.text(which) is None,
    {
        Clipboards { clipboard: None, sel_clipboard: None }
    }

    /// The text that a clipboard holds.
    pub fn clipboard_text(&self, which: Clipboard) -> (text: Option<String>)
        ensures
            text_of(text) == self.text(which),
    {
        match which {
            Clipboard::DefaultClipboard => match &self.clipboard {
                Some(text) => Some(text.clone()),
                None => None,
            },
            Clipboard::SelectionClipboard => match &self.sel_clipboard {
                Some(text) => Some(text.clone()),
                None => None,
            },
            Clipboard::Other => None,
        }
    }

    /// Puts text in a clipboard. The other ones keep theirs, and one that is not
    /// known takes none.
    pub fn set_clipboard_text(&mut self, text: &str, which: Clipboard)
        ensures
            which != Clipboard::Other ==> final(self).text(which) == Some(text@),
            forall|other: Clipboard|
                other != which ==> #[trigger] final(self).text(other) == old(self).text(other),
            which == Clipboard::Other ==> *final(self) == *old(self),
    {
        match which {
            Clipboard::DefaultClipboard => {
                self.clipboard = Some(String::from_str(text));
            },
            Clipboard::SelectionClipboard => {
                self.sel_clipboard = Some(String::from_str(text));
            },
            Clipboard::Other => {},
        }
    }
}

/// The text of an optional string is that of the string, and without one there is
/// none.
pub proof fn an_optional_string_has_its_text(text: String)
    ensures
        text_of(Some(text)) == Some(text@),
        text_of(None) is None,
{
}

} // verus!

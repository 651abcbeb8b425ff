//! What the windows of the program show.

use vstd::prelude::*;
use vstd::slice::slice_subrange;
use vstd::string::*;
use vstd::utf8::encode_utf8;
use crate::production::Trailer;

verus! {

/// The number of bytes of an overview that a search result shows.
pub const OVERVIEW_LIMIT: usize = 200;

/// What stands behind an overview that was cut short.
pub const ELLIPSIS: &'static str = "...";

/// What `String::from_utf8_lossy` makes of bytes: their text, with the
/// replacement character wherever they are not UTF-8.
pub uninterp spec fn lossy_text(bytes: Seq<u8>) -> Seq<char>;

/// What `str::trim` leaves of a text: the text without the white space at
/// its two ends.
pub uninterp spec fn trimmed(text: Seq<char>) -> Seq<char>;

/// `String::from_utf8_lossy`, as an owned text.
#[verifier::external_body]
fn from_utf8_lossy(bytes: &[u8]) -> (text: String)
    ensures
        text@ == lossy_text(bytes@),
{
    String::from_utf8_lossy(bytes).into_owned()
}

/// `str::trim`.
#[verifier::external_body]
fn trim(text: &str) -> (inner: &str)
    ensures
        inner@ == trimmed(text@),
{
    text.trim()
}

/// An overview as a search result shows it. Up to 200 bytes it is shown
/// whole. A longer one is cut after 200 bytes; what the cut leaves is read
/// as text again, freed of white space at its ends, and followed by an
/// ellipsis.
pub open spec fn shortened(overview: Seq<char>) -> Seq<char> {
    let bytes = encode_utf8(overview);
    if bytes.len() > OVERVIEW_LIMIT {
        trimmed(lossy_text(bytes.take(OVERVIEW_LIMIT as int))) + ELLIPSIS@
    } else {
        overview
    }
}

/// A text that was cut short, with the ellipsis behind it.
pub fn with_ellipsis(cut: &str) -> (text: String)
    ensures
        text@ == cut@ + ELLIPSIS@,
{
    String::from_str(cut).concat(ELLIPSIS)
}

/// The overview of a production as a search result shows it.
pub fn shorten_overview(overview: &str) -> (text: String)
    ensures
        text@ == shortened(overview@),
{
    let bytes = overview.as_bytes();
    if bytes.len() > OVERVIEW_LIMIT {
        let head = slice_subrange(bytes, 0, OVERVIEW_LIMIT);
        assert(head@ =~= bytes@.take(OVERVIEW_LIMIT as int));
        let read = from_utf8_lossy(head);
        with_ellipsis(trim(read.as_str()))
    } else {
        overview.to_owned()
    }
}

/// The window that lists the trailers of a production.
pub struct TrailersView {
    pub is_open: bool,
    pub title: String,
    pub trailers: Vec<Trailer>,
}

impl TrailersView {
    /// A closed window without content.
    pub fn new() -> (view: TrailersView)
        ensures
            !view.is_open,
            view.title@ == Seq::<char>::empty(),
            view.trailers@ == Seq::<Trailer>::empty(),
    {
        TrailersView { is_open: false, title: String::new(), trailers: Vec::new() }
    }

    /// Opens the window on the trailers of the production with that title.
    pub fn set_content(&mut self, title: String, trailers: Vec<Trailer>)
        ensures
            final(self).is_open,
            final(self).title == title,
            final(self).trailers == trailers,
    {
        self.is_open = true;
        self.title = title;
        self.trailers = trailers;
    }
}

} // verus!

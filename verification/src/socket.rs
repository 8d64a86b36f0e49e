//! Where the window manager listens. Asking for the path is the caller's
//! business; what is made of the answer is decided here.

use vstd::prelude::*;

use crate::error::{Error, ErrorView};

verus! {

/// The text that `String::from_utf8_lossy` makes of `bytes`: their text
/// where they are UTF-8, with a replacement character for what is not.
pub uninterp spec fn lossy_text(bytes: Seq<u8>) -> Seq<char>;

/// What `str::trim_end` leaves of `text`: the text without the white space
/// at its end.
pub uninterp spec fn trimmed_end(text: Seq<char>) -> Seq<char>;

/// `String::from_utf8_lossy`, with the text it gives as a `String`.
#[verifier::external_body]
fn text_of(bytes: &[u8]) -> (text: String)
    ensures
        text@ == lossy_text(bytes@),
{
    String::from_utf8_lossy(bytes).into_owned()
}

/// `str::trim_end`.
#[verifier::external_body]
fn without_trailing_space(text: &str) -> (cut: &str)
    ensures
        cut@ == trimmed_end(text@),
{
    text.trim_end()
}

/// The socket path in what the window manager printed when asked for it:
/// the output as text, without the line end behind it. `succeeded` says
/// whether the window manager reported success; where it did not, there is
/// no path.
pub fn socket_path_from(succeeded: bool, printed: &[u8]) -> (r: Result<String, Error>)
    ensures
        match r {
            Ok(path) => succeeded && path@ == trimmed_end(lossy_text(printed@)),
            Err(e) => !succeeded && e@ == ErrorView::Io,
        },
{
    if succeeded {
        let text = text_of(printed);
        Ok(without_trailing_space(text.as_str()).to_owned())
    } else {
        Err(Error::Io)
    }
}

} // verus!

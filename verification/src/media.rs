//! Content types: what an extension stands for, and which of them is HTML.

use vstd::prelude::*;
use vstd::string::StringExecFns;

verus! {

/// A content type as plain text: its two parts, and the full header value
/// with its parameters.
#[derive(Clone, Debug, PartialEq, Eq)]
pub struct MediaType {
    /// The top-level type, such as `text`.
    pub top: String,
    /// The subtype, such as `html`.
    pub sub: String,
    /// The value of the `Content-Type` header, parameters included.
    pub header: String,
}

/// The mathematical value of a [`MediaType`].
pub ghost struct MediaTypeView {
    pub top: Seq<char>,
    pub sub: Seq<char>,
    pub header: Seq<char>,
}

impl View for MediaType {
    type V = MediaTypeView;

    open spec fn view(&self) -> MediaTypeView {
        MediaTypeView { top: self.top@, sub: self.sub@, header: self.header@ }
    }
}

/// The content type that the extension table of the HTTP framework gives for
/// `ext`, or `None` where the table does not hold it.
pub uninterp spec fn media_type_of_extension(ext: Seq<char>) -> Option<MediaTypeView>;

/// The view of an optional content type.
pub open spec fn media_option_view(media: Option<MediaType>) -> Option<MediaTypeView> {
    match media {
        Some(m) => Some(m@),
        None => None,
    }
}

/// Whether `c` is the lower-case letter `lower` or its upper-case form `upper`.
pub open spec fn is_letter(c: char, lower: char, upper: char) -> bool {
    c == lower || c == upper
}

/// Whether `word` spells `text`, in any mix of cases.
pub open spec fn spells_text(word: Seq<char>) -> bool {
    &&& word.len() == 4
    &&& is_letter(word[0], 't', 'T')
    &&& is_letter(word[1], 'e', 'E')
    &&& is_letter(word[2], 'x', 'X')
    &&& is_letter(word[3], 't', 'T')
}

/// Whether `word` spells `html`, in any mix of cases.
pub open spec fn spells_html(word: Seq<char>) -> bool {
    &&& word.len() == 4
    &&& is_letter(word[0], 'h', 'H')
    &&& is_letter(word[1], 't', 'T')
    &&& is_letter(word[2], 'm', 'M')
    &&& is_letter(word[3], 'l', 'L')
}

/// Whether a content type is HTML: its two parts are `text` and `html`,
/// whatever the case of the letters and whatever the parameters.
pub open spec fn is_html_type(media: MediaTypeView) -> bool {
    spells_text(media.top) && spells_html(media.sub)
}

/// The content type of a file whose extension says nothing: plain text.
pub open spec fn plain_type() -> MediaTypeView {
    MediaTypeView { top: "text"@, sub: "plain"@, header: "text/plain; charset=utf-8"@ }
}

/// The content type that a file with extension `ext` is served with.
pub open spec fn served_type(ext: Seq<char>) -> MediaTypeView {
    match media_type_of_extension(ext) {
        Some(m) => m,
        None => plain_type(),
    }
}

/// Calls `rocket::http::ContentType::from_extension`, which looks `ext` up
/// in a fixed table without regard to case. The result is taken over as text:
/// the two parts of the type and the header value that it is written as.
/// Nothing is claimed of the table's contents; the result is only given its
/// name.
#[verifier::external_body]
fn lookup_extension(ext: &str) -> (found: Option<MediaType>)
    ensures
        media_option_view(found) == media_type_of_extension(ext@),
{
    match rocket::http::ContentType::from_extension(ext) {
        Some(ct) => Some(
            MediaType {
                top: ct.top().as_str().to_string(),
                sub: ct.sub().as_str().to_string(),
                header: ct.to_string(),
            },
        ),
        None => None,
    }
}

fn is_letter_of(c: char, lower: char, upper: char) -> (r: bool)
    ensures
        r == is_letter(c, lower, upper),
{
    c == lower || c == upper
}

impl MediaType {
    /// Plain text, the type of a file with an unknown extension or none.
    pub fn plain() -> (media: MediaType)
        ensures
            media@ == plain_type(),
    {
        MediaType {
            top: String::from_str("text"),
            sub: String::from_str("plain"),
            header: String::from_str("text/plain; charset=utf-8"),
        }
    }

    /// The type found for an extension, or plain text where none was found.
    pub fn or_plain(found: Option<MediaType>) -> (media: MediaType)
        ensures
            media@ == (match found {
                Some(m) => m@,
                None => plain_type(),
            }),
    {
        match found {
            Some(m) => m,
            None => MediaType::plain(),
        }
    }

    /// The content type that a file with extension `ext` is served with.
    pub fn for_extension(ext: &str) -> (media: MediaType)
        ensures
            media@ == served_type(ext@),
    {
        MediaType::or_plain(lookup_extension(ext))
    }

    /// Whether this is HTML, the one type that takes the reload snippet.
    pub fn is_html(&self) -> (r: bool)
        ensures
            r == is_html_type(self@),
    {
        let top = self.top.as_str();
        let sub = self.sub.as_str();
        if top.unicode_len() != 4 || sub.unicode_len() != 4 {
            return false;
        }
        is_letter_of(top.get_char(0), 't', 'T') && is_letter_of(top.get_char(1), 'e', 'E')
            && is_letter_of(top.get_char(2), 'x', 'X') && is_letter_of(top.get_char(3), 't', 'T')
            && is_letter_of(sub.get_char(0), 'h', 'H') && is_letter_of(sub.get_char(1), 't', 'T')
            && is_letter_of(sub.get_char(2), 'm', 'M') && is_letter_of(sub.get_char(3), 'l', 'L')
    }
}

/// Plain text is not HTML: a file with an unknown extension is served as it
/// is.
pub proof fn plain_is_not_html()
    ensures
        !is_html_type(plain_type()),
{
    reveal_strlit("plain");
}

} // verus!

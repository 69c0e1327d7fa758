//! The static responder: from a request to the file that answers it, and
//! from what was read to the response.
//!
//! The responder touches no file itself. It says what it needs to know next
//! ([`Step`]): [`start`] asks whether the target of the request is a
//! directory, [`after_probe`] asks for the bytes of the file that answers, and
//! [`after_read`] gives the response.

use crate::config::Config;
use crate::media::{is_html_type, served_type, MediaType, MediaTypeView};
use crate::paths::{
    depth_after, depth_step, extension_of, extension_text, file_name_text, is_inside, join,
    join_all, join_all_text, join_text, last_index_of, lemma_last_index_prefix, segments_text,
    stays_inside, INDEX_FILE,
};
use crate::snippet::{reload_snippet, snippet_bytes};
use vstd::prelude::*;

verus! {

/// What is sent back for a request.
#[derive(Debug, PartialEq, Eq)]
pub enum Response {
    /// No file answers the request.
    NotFound,
    /// A file was read: its content type, and the bytes to send.
    Found { content_type: MediaType, body: Vec<u8> },
}

/// The mathematical value of a [`Response`].
pub ghost enum ResponseView {
    NotFound,
    Found { content_type: MediaTypeView, body: Seq<u8> },
}

impl View for Response {
    type V = ResponseView;

    open spec fn view(&self) -> ResponseView {
        match self {
            Response::NotFound => ResponseView::NotFound,
            Response::Found { content_type, body } => ResponseView::Found {
                content_type: content_type@,
                body: body@,
            },
        }
    }
}

/// The target of a request below `root`: the index file where the request
/// names no path, else the request's segments joined below `root`, and no
/// target at all where they lead out of `root`.
pub open spec fn target_text(root: Seq<char>, request: Option<Seq<Seq<char>>>) -> Option<
    Seq<char>,
> {
    match request {
        None => Some(join_text(root, INDEX_FILE@)),
        Some(segments) => if stays_inside(segments) {
            Some(join_all_text(root, segments))
        } else {
            None
        },
    }
}

/// The file that answers for a target: its index file where the target is a
/// directory, else the target itself.
pub open spec fn file_text(target: Seq<char>, is_directory: bool) -> Seq<char> {
    if is_directory {
        join_text(target, INDEX_FILE@)
    } else {
        target
    }
}

/// The bytes sent for a file of type `media`: an HTML file is followed by the
/// reload snippet, any other file is sent as it is.
pub open spec fn body_for(media: MediaTypeView, file: Seq<u8>, ws_port: u16) -> Seq<u8> {
    if is_html_type(media) {
        file + snippet_bytes(ws_port)
    } else {
        file
    }
}

/// The response to a request whose file is of type `media`, given what
/// reading the file gave: not found where it could not be read, else the
/// bytes of [`body_for`] under that type.
pub open spec fn response_for(
    media: MediaTypeView,
    read: Option<Seq<u8>>,
    ws_port: u16,
) -> ResponseView {
    match read {
        None => ResponseView::NotFound,
        Some(file) => ResponseView::Found {
            content_type: media,
            body: body_for(media, file, ws_port),
        },
    }
}

/// The view of what reading a file gave.
pub open spec fn read_view(read: Option<Vec<u8>>) -> Option<Seq<u8>> {
    match read {
        Some(file) => Some(file@),
        None => None,
    }
}

/// The view of a request's segments.
pub open spec fn request_view(request: Option<&Vec<String>>) -> Option<Seq<Seq<char>>> {
    match request {
        Some(segments) => Some(segments_text(segments@)),
        None => None,
    }
}

/// The view of an optional path.
pub open spec fn path_view(path: Option<String>) -> Option<Seq<char>> {
    match path {
        Some(p) => Some(p@),
        None => None,
    }
}

/// The target of a request below `root`; `None` where the request leads out
/// of `root`, which is answered as not found.
pub fn target_path(root: &str, request: Option<&Vec<String>>) -> (target: Option<String>)
    ensures
        path_view(target) == target_text(root@, request_view(request)),
{
    match request {
        None => Some(join(root, INDEX_FILE)),
        Some(segments) => {
            if is_inside(segments) {
                Some(join_all(root, segments))
            } else {
                None
            }
        },
    }
}

/// The file to read for a target, once it is known whether the target is a
/// directory.
pub fn file_path(target: &str, is_directory: bool) -> (path: String)
    ensures
        path@ == file_text(target@, is_directory),
{
    if is_directory {
        join(target, INDEX_FILE)
    } else {
        let path = target.to_owned();
        path
    }
}

/// The response for a file of a known content type, given what reading it
/// gave.
pub fn respond_as(media: MediaType, read: Option<Vec<u8>>, ws_port: u16) -> (response: Response)
    ensures
        response@ == response_for(media@, read_view(read), ws_port),
{
    match read {
        None => Response::NotFound,
        Some(file) => {
            let mut body = file;
            if media.is_html() {
                let mut snippet = reload_snippet(ws_port);
                body.append(&mut snippet);
            }
            Response::Found { content_type: media, body }
        },
    }
}

/// The response for the file at `path`, given what reading it gave. The
/// content type is the one that the extension of `path` stands for.
pub fn respond(path: &str, read: Option<Vec<u8>>, config: &Config) -> (response: Response)
    ensures
        response@ == response_for(
            served_type(extension_text(path@)),
            read_view(read),
            config.ws_port,
        ),
{
    let media = MediaType::for_extension(extension_of(path));
    respond_as(media, read, config.ws_port)
}

/// Where the answer to a request stands, and what its caller is to find out
/// next.
#[derive(Debug, PartialEq, Eq)]
pub enum Step {
    /// Find out whether this target is a directory, then go on with
    /// [`after_probe`].
    Probe(String),
    /// Read this file, then go on with [`after_read`].
    Read(String),
    /// The response is ready.
    Done(Response),
}

/// The mathematical value of a [`Step`].
pub ghost enum StepView {
    Probe(Seq<char>),
    Read(Seq<char>),
    Done(ResponseView),
}

impl View for Step {
    type V = StepView;

    open spec fn view(&self) -> StepView {
        match self {
            Step::Probe(target) => StepView::Probe(target@),
            Step::Read(path) => StepView::Read(path@),
            Step::Done(response) => StepView::Done(response@),
        }
    }
}

/// The first step for a request: its target is probed, unless the request
/// leads out of the root, which is not found without a look at any file.
pub open spec fn first_step(root: Seq<char>, request: Option<Seq<Seq<char>>>) -> StepView {
    match target_text(root, request) {
        Some(target) => StepView::Probe(target),
        None => StepView::Done(ResponseView::NotFound),
    }
}

/// Takes a request in.
pub fn start(root: &str, request: Option<&Vec<String>>) -> (step: Step)
    ensures
        step@ == first_step(root@, request_view(request)),
{
    match target_path(root, request) {
        Some(target) => Step::Probe(target),
        None => Step::Done(Response::NotFound),
    }
}

/// Goes on once it is known whether the target is a directory: the file that
/// answers is read next.
pub fn after_probe(target: &str, is_directory: bool) -> (step: Step)
    ensures
        step@ == StepView::Read(file_text(target@, is_directory)),
{
    Step::Read(file_path(target, is_directory))
}

/// Ends with the response, given what reading the file at `path` gave.
pub fn after_read(path: &str, read: Option<Vec<u8>>, config: &Config) -> (step: Step)
    ensures
        step@ == StepView::Done(
            response_for(served_type(extension_text(path@)), read_view(read), config.ws_port),
        ),
{
    Step::Done(respond(path, read, config))
}

/// A file that is not HTML is sent byte for byte.
pub proof fn other_types_are_sent_unchanged(media: MediaTypeView, file: Seq<u8>, ws_port: u16)
    requires
        !is_html_type(media),
    ensures
        response_for(media, Some(file), ws_port) == (ResponseView::Found {
            content_type: media,
            body: file,
        }),
{
}

/// An HTML file is sent followed by the reload snippet for the configured
/// port of the push channel.
pub proof fn html_is_followed_by_snippet(media: MediaTypeView, file: Seq<u8>, ws_port: u16)
    requires
        is_html_type(media),
    ensures
        response_for(media, Some(file), ws_port) == (ResponseView::Found {
            content_type: media,
            body: file + snippet_bytes(ws_port),
        }),
{
}

/// A file that cannot be read is answered as not found, whatever its path
/// and type; so is a request that leads out of the root.
pub proof fn unreadable_is_not_found(
    media: MediaTypeView,
    ws_port: u16,
    root: Seq<char>,
    segments: Seq<Seq<char>>,
)
    ensures
        response_for(media, None, ws_port) == ResponseView::NotFound,
        !stays_inside(segments) ==> first_step(root, Some(segments)) == StepView::Done(
            ResponseView::NotFound,
        ),
{
}

/// A request without a path and a request for the index file have the same
/// target, so the same file is read and the same response sent for both.
pub proof fn root_is_index(root: Seq<char>)
    ensures
        target_text(root, None) == target_text(root, Some(seq![INDEX_FILE@])),
        first_step(root, None) == first_step(root, Some(seq![INDEX_FILE@])),
{
    reveal_strlit("index.html");
    let segments = seq![INDEX_FILE@];
    assert(segments.drop_last() =~= Seq::<Seq<char>>::empty());
    assert(depth_after(segments.drop_last()) == Some(0nat));
    assert(segments.last() == INDEX_FILE@);
    assert(!INDEX_FILE@.contains('/'));
    assert(depth_step(0, INDEX_FILE@) == Some(1nat));
    assert(depth_after(segments) == Some(1nat));
    assert(join_all_text(root, segments.drop_last()) == root);
    assert(join_all_text(root, segments) == join_text(root, INDEX_FILE@));
}

/// What is joined below a base begins with the base.
pub proof fn lemma_join_all_keeps_base(base: Seq<char>, segments: Seq<Seq<char>>)
    ensures
        base.is_prefix_of(join_all_text(base, segments)),
    decreases segments.len(),
{
    if segments.len() > 0 {
        lemma_join_all_keeps_base(base, segments.drop_last());
        let front = join_all_text(base, segments.drop_last());
        let whole = join_text(front, segments.last());
        assert(front.is_prefix_of(whole));
        assert(base.is_prefix_of(whole)) by {
            assert(whole.subrange(0, front.len() as int) =~= front);
            assert(whole.subrange(0, base.len() as int) =~= front.subrange(0, base.len() as int));
        }
    }
}

/// Every target begins with the root: a request is never resolved to a path
/// that is not written below the served directory.
pub proof fn target_begins_with_root(root: Seq<char>, request: Option<Seq<Seq<char>>>)
    ensures
        target_text(root, request) matches Some(target) ==> root.is_prefix_of(target),
{
    match request {
        None => {
            lemma_join_all_keeps_base(root, seq![INDEX_FILE@]);
            assert(seq![INDEX_FILE@].drop_last() =~= Seq::<Seq<char>>::empty());
            assert(join_all_text(root, seq![INDEX_FILE@].drop_last()) == root);
        },
        Some(segments) => {
            lemma_join_all_keeps_base(root, segments);
        },
    }
}

/// The extension of the index file of any directory is `html`.
pub proof fn index_extension_is_html(directory: Seq<char>)
    ensures
        extension_text(join_text(directory, INDEX_FILE@)) == "html"@,
{
    reveal_strlit("index.html");
    reveal_strlit("html");
    let index = INDEX_FILE@;
    let path = join_text(directory, index);
    let start = path.len() - index.len();
    assert(path.subrange(start, path.len() as int) =~= index);
    assert forall|k: int| start <= k < path.len() implies path[k] != '/' by {
        assert(path[k] == index[k - start]);
    }
    lemma_last_index_prefix(path, '/', start);
    let before = path.subrange(0, start);
    if before.len() > 0 {
        assert(before.last() == '/');
    }
    assert(last_index_of(before, '/') == start - 1);
    assert(file_name_text(path) =~= index);
    lemma_last_index_prefix(index, '.', 6);
    assert(index.subrange(0, 6).last() == '.');
    assert(last_index_of(index, '.') == 5);
    assert(index.subrange(6, 10) =~= "html"@);
}

/// A target that is a directory is answered with its index file: that file
/// is the one read, its type is the one of the extension `html`, and its
/// bytes are sent, followed by the reload snippet where that type is HTML.
pub proof fn directory_serves_index(target: Seq<char>, file: Seq<u8>, ws_port: u16)
    ensures
        file_text(target, true) == join_text(target, INDEX_FILE@),
        response_for(
            served_type(extension_text(file_text(target, true))),
            Some(file),
            ws_port,
        ) == (ResponseView::Found {
            content_type: served_type("html"@),
            body: body_for(served_type("html"@), file, ws_port),
        }),
{
    index_extension_is_html(target);
}

} // verus!

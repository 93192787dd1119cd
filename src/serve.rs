use vstd::prelude::*;
use vstd::string::*;
use crate::html::push_char;
use crate::logger::StatsMsg;

verus! {

/// The first character of a path that asks for a directory as a ZIP archive.
pub const ARCHIVE_MARKER: char = '*';

/// `s` with every `from` replaced by `to`.
pub open spec fn replaced(s: Seq<char>, from: char, to: char) -> Seq<char> {
    Seq::new(s.len(), |i: int| if s[i] == from { to } else { s[i] })
}

/// Copies `s`, replacing every `from` by `to`.
pub fn replace_char(s: &str, from: char, to: char) -> (r: String)
    ensures
        r@ == replaced(s@, from, to),
{
    let n = s.unicode_len();
    let mut r = String::new();
    let mut i: usize = 0;
    while i < n
        invariant
            n == s@.len(),
            i <= n,
            r@ == replaced(s@, from, to).subrange(0, i as int),
        decreases n - i,
    {
        let c = s.get_char(i);
        if c == from {
            push_char(&mut r, to);
        } else {
            push_char(&mut r, c);
        }
        i = i + 1;
        assert(r@ =~= replaced(s@, from, to).subrange(0, i as int));
    }
    assert(r@ =~= replaced(s@, from, to));
    r
}

/// The name of an archive entry: the root-relative `path` with the
/// platform's `separator` written as `/`.
pub fn parse_path_name(path: &str, separator: char) -> (r: String)
    ensures
        r@ == replaced(path@, separator, '/'),
{
    replace_char(path, separator, '/')
}

/// The name under which the archive of `dir` is offered.
pub open spec fn zip_name_of(dir: Seq<char>) -> Seq<char> {
    if dir == seq!['.'] {
        "result.zip"@
    } else {
        replaced(dir, '/', '_') + ".zip"@
    }
}

fn is_dot(dir: &str) -> (r: bool)
    ensures
        r == (dir@ == seq!['.']),
{
    let n = dir.unicode_len();
    if n != 1 {
        return false;
    }
    let c = dir.get_char(0);
    if c == '.' {
        assert(dir@ =~= seq!['.']);
        true
    } else {
        false
    }
}

/// `result.zip` for the served root, else `dir` with `/` written as `_`,
/// followed by `.zip`.
pub fn zip_file_name(dir: &str) -> (r: String)
    ensures
        r@ == zip_name_of(dir@),
{
    if is_dot(dir) {
        String::from_str("result.zip")
    } else {
        let mut r = replace_char(dir, '/', '_');
        r.append(".zip");
        r
    }
}

/// The value of the `Content-Disposition` header of the archive of `dir`.
pub fn content_disposition(dir: &str) -> (r: String)
    ensures
        r@ == "attachment; filename="@ + zip_name_of(dir@),
{
    let mut r = String::from_str("attachment; filename=");
    let name = zip_file_name(dir);
    r.append(name.as_str());
    r
}

/// The filesystem path that a decoded URL path names: the served root for
/// `/`, else the path without its leading `/`.
pub open spec fn local_path(p: Seq<char>) -> Seq<char> {
    if p.len() <= 1 {
        seq!['.']
    } else {
        p.drop_first()
    }
}

/// Whether the decoded URL path asks for an archive.
pub open spec fn is_archive_request(p: Seq<char>) -> bool {
    let l = local_path(p);
    l.len() > 0 && l[0] == ARCHIVE_MARKER
}

/// The directory to archive: the root for `*` and `*/`, else what follows
/// the marker and the separator after it.
pub open spec fn archive_dir(p: Seq<char>) -> Seq<char> {
    let l = local_path(p);
    if l == seq![ARCHIVE_MARKER] || l == seq![ARCHIVE_MARKER, '/'] {
        seq!['.']
    } else {
        l.subrange(2, l.len() as int)
    }
}

/// What a request asks for.
#[derive(Debug, PartialEq, Eq)]
pub enum Route {
    /// The directory at this path, as a ZIP archive.
    Archive(String),
    /// Whatever is at this path.
    Path(String),
}

impl Route {
    pub open spec fn target(&self) -> Seq<char> {
        match self {
            Route::Archive(d) => d@,
            Route::Path(d) => d@,
        }
    }
}

/// The route of a decoded URL path.
pub open spec fn route_matches(r: Route, p: Seq<char>) -> bool {
    if is_archive_request(p) {
        r is Archive && r.target() == archive_dir(p)
    } else {
        r is Path && r.target() == local_path(p)
    }
}

/// Reads a decoded URL path.
pub fn route_path(path: &str) -> (r: Route)
    ensures
        route_matches(r, path@),
{
    let n = path.unicode_len();
    let local: &str = if n <= 1 {
        "."
    } else {
        path.substring_char(1, n)
    };
    proof {
        reveal_strlit(".");
        if n <= 1 {
            assert(local@ =~= local_path(path@));
        } else {
            assert(local@ =~= local_path(path@));
        }
    }
    let m = local.unicode_len();
    if m > 0 && local.get_char(0) == ARCHIVE_MARKER {
        let root = m == 1 || (m == 2 && local.get_char(1) == '/');
        if root {
            assert(local@ =~= seq![ARCHIVE_MARKER] || local@ =~= seq![ARCHIVE_MARKER, '/']);
            let d = String::from_str(".");
            proof {
                reveal_strlit(".");
                assert(d@ =~= seq!['.']);
            }
            Route::Archive(d)
        } else {
            assert(local@ != seq![ARCHIVE_MARKER]);
            assert(local@ != seq![ARCHIVE_MARKER, '/']);
            let d = local.substring_char(2, m).to_owned();
            assert(d@ =~= archive_dir(path@));
            Route::Archive(d)
        }
    } else {
        let d = local.to_owned();
        assert(d@ == local_path(path@));
        Route::Path(d)
    }
}

/// The value that a decoder of percent-escapes gives for `s`, or the empty
/// text where the decoded bytes are not UTF-8.
pub uninterp spec fn url_decoded(s: Seq<char>) -> Seq<char>;

/// Relies on urlencoding::decode: percent-escapes decoded as UTF-8; a text
/// without `%` is handed back as it is. A result that is not UTF-8 is
/// replaced by the empty text.
#[verifier::external_body]
fn decode_url(s: &str) -> (r: String)
    ensures
        r@ == url_decoded(s@),
        (forall|i: int| 0 <= i < s@.len() ==> s@[i] != '%') ==> r@ == s@,
{
    urlencoding::decode(s).unwrap_or_default().into_owned()
}

/// Reads the raw path of a request URL: decodes it, then routes it.
pub fn request_route(raw_path: &str) -> (r: Route)
    ensures
        route_matches(r, url_decoded(raw_path@)),
{
    let decoded = decode_url(raw_path);
    route_path(decoded.as_str())
}

/// What the filesystem says of a path.
#[derive(Debug, Clone, Copy, PartialEq, Eq)]
pub enum PathKind {
    Missing,
    /// A regular file of this many bytes.
    File(u64),
    Dir,
}

/// The response that a request gets.
#[derive(Debug, PartialEq, Eq)]
pub enum Reply {
    NotFound,
    /// Stream the archive of this directory.
    Archive(String),
    /// Stream this file, of this many bytes.
    File(String, u64),
    /// A directory listing, or a page standing for it.
    Directory(String),
}

/// The reply to a request for `route`, whose target is of `kind`.
pub open spec fn reply_for(route: Route, kind: PathKind) -> Reply {
    match route {
        Route::Archive(d) => match kind {
            PathKind::Dir => Reply::Archive(d),
            _ => Reply::NotFound,
        },
        Route::Path(p) => match kind {
            PathKind::Missing => Reply::NotFound,
            PathKind::File(len) => Reply::File(p, len),
            PathKind::Dir => Reply::Directory(p),
        },
    }
}

/// Decides the reply: an archive only of an existing directory, a file
/// streamed as it is, a directory handed on, and not-found for the rest.
pub fn dispatch(route: Route, kind: PathKind) -> (r: Reply)
    ensures
        r == reply_for(route, kind),
{
    match route {
        Route::Archive(d) => match kind {
            PathKind::Dir => Reply::Archive(d),
            _ => Reply::NotFound,
        },
        Route::Path(p) => match kind {
            PathKind::Missing => Reply::NotFound,
            PathKind::File(len) => Reply::File(p, len),
            PathKind::Dir => Reply::Directory(p),
        },
    }
}

/// A path that does not exist is answered with not-found, whether the
/// request asked for an archive or not.
pub proof fn lemma_missing_path_not_found(raw: Seq<char>, route: Route)
    requires
        route_matches(route, url_decoded(raw)),
    ensures
        reply_for(route, PathKind::Missing) is NotFound,
{
}

/// The statistics message for a chunk of `chunk_len` bytes handed on to the
/// client, saturated at `u32::MAX`.
pub fn sent_bytes_msg(chunk_len: usize) -> (r: StatsMsg)
    ensures
        r == StatsMsg::SendedBytes(
            if chunk_len <= u32::MAX as usize {
                chunk_len as u32
            } else {
                u32::MAX
            },
        ),
{
    if chunk_len <= u32::MAX as usize {
        StatsMsg::SendedBytes(chunk_len as u32)
    } else {
        StatsMsg::SendedBytes(u32::MAX)
    }
}

/// The media type that a guess from the extension of `path` gives, with
/// `text/plain` where it knows none.
pub uninterp spec fn guessed_mime(path: Seq<char>) -> Seq<char>;

/// Relies on mime_guess::from_path and MimeGuess::first_or_text_plain: the
/// guess depends on the path alone.
#[verifier::external_body]
fn guess_mime(path: &str) -> (r: String)
    ensures
        r@ == guessed_mime(path@),
{
    mime_guess::from_path(path).first_or_text_plain().to_string()
}

/// The content type of a file sent as it is: guessed from its name where
/// the browser is to show it, else a plain download.
pub fn file_content_type(show_html: bool, path: &str) -> (r: String)
    ensures
        r@ == (if show_html { guessed_mime(path@) } else { "application/octet-stream"@ }),
{
    if show_html {
        guess_mime(path)
    } else {
        String::from_str("application/octet-stream")
    }
}

} // verus!

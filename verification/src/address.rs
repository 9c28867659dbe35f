//! From the server's address and the segments of an API path to the URL that
//! is read.
//!
//! Parsing and percent-encoding are the `url` crate's work. This module
//! decides what is asked of it and in which order, and says what comes out in
//! terms of the three stretches of a URL's text: what precedes the path, the
//! path, and what follows it.

use crate::error::VaultError;
use crate::segments::{join_with_slash, texts};
use url::Url;
use vstd::prelude::*;
use vstd::string::*;
use vstd::utf8::encode_utf8;

verus! {

/// `url::Url`, a parsed URL. Nothing inside it is seen here: what it holds is
/// spoken of through `url_parts`.
#[verifier::external_type_specification]
#[verifier::external_body]
pub struct ExUrl(url::Url);

/// `url::ParseError`, the reason why `Url::parse` refused an input. It is
/// carried, never looked into: every refusal is an `InvalidAddress`.
#[verifier::external_type_specification]
#[verifier::external_body]
pub struct ExParseError(url::ParseError);

/// The text of a URL in three stretches. `head` runs up to the path (scheme,
/// and host and port where there are any), `path` is the path, and `tail` is
/// the query and the fragment with their `?` and `#`.
pub struct UrlParts {
    pub head: Seq<char>,
    pub path: Seq<char>,
    pub tail: Seq<char>,
}

impl UrlParts {
    /// The URL as it is written.
    pub open spec fn text(self) -> Seq<char> {
        self.head + self.path + self.tail
    }

    /// The URL up to the end of its path.
    pub open spec fn stem(self) -> Seq<char> {
        self.head + self.path
    }
}

/// What a `Url` holds: its serialization, cut where its path starts and ends.
pub uninterp spec fn url_parts(url: Url) -> UrlParts;

/// What `Url::parse` makes of an input: the parts of the URL, or `None` where
/// it reports an error.
pub uninterp spec fn parsed_parts(input: Seq<char>) -> Option<UrlParts>;

/// The path that `PathSegmentsMut::extend` leaves when it appends `segments`,
/// each percent-encoded, to `path` in a URL that starts with `head`.
pub uninterp spec fn extended_path(
    head: Seq<char>,
    path: Seq<char>,
    segments: Seq<Seq<char>>,
) -> Seq<char>;

/// Where `mark` first stands in `text`, or the length of `text` if it does
/// not occur.
pub open spec fn first_index(text: Seq<char>, mark: char) -> int
    decreases text.len(),
{
    if text.len() == 0 || text[0] == mark {
        0
    } else {
        1 + first_index(text.drop_first(), mark)
    }
}

/// A slash follows the colon that ends the scheme: in the head, where the
/// URL names a host, or else as the first character of the path. Such a URL
/// is hierarchical: its path is made of segments and more can be appended.
pub open spec fn is_hierarchical(parts: UrlParts) -> bool {
    let after = first_index(parts.head, ':') + 1;
    if after < parts.head.len() {
        parts.head[after] == '/'
    } else {
        after == parts.head.len() && parts.path.len() >= 1 && parts.path[0] == '/'
    }
}

/// The query of a tail: what precedes its first `#`.
pub open spec fn query_of(tail: Seq<char>) -> Seq<char> {
    tail.take(first_index(tail, '#'))
}

/// The fragment of a tail: its first `#` and what follows.
pub open spec fn fragment_of(tail: Seq<char>) -> Seq<char> {
    tail.skip(first_index(tail, '#'))
}

/// `path` without one trailing slash, unless that slash is all of it.
pub open spec fn without_trailing_slash(path: Seq<char>) -> Seq<char> {
    if path.len() >= 2 && path.last() == '/' {
        path.drop_last()
    } else {
        path
    }
}

/// An ASCII letter or digit, a hyphen or an underscore: a character that
/// percent-encoding leaves as it is and that has no meaning of its own in a
/// path.
pub open spec fn is_plain_char(c: char) -> bool {
    ||| 'a' <= c <= 'z'
    ||| 'A' <= c <= 'Z'
    ||| '0' <= c <= '9'
    ||| c == '-'
    ||| c == '_'
}

/// Segments of plain characters, the first of them not empty.
pub open spec fn plain_segments(segments: Seq<Seq<char>>) -> bool {
    &&& segments.len() >= 1
    &&& segments[0].len() >= 1
    &&& forall|i: int, j: int|
        0 <= i < segments.len() && 0 <= j < segments[i].len() ==> is_plain_char(
            #[trigger] segments[i][j],
        )
}

/// The head of a URL with the scheme `file`, whose paths follow rules of
/// their own.
pub open spec fn is_file_head(head: Seq<char>) -> bool {
    head.len() >= 5 && head.subrange(0, 5) == seq!['f', 'i', 'l', 'e', ':']
}

/// A path with segments appended as they are: a slash before each, but no
/// second slash after a path that is empty or the lone `/`.
pub open spec fn plain_extension(path: Seq<char>, segments: Seq<Seq<char>>) -> Seq<char> {
    (if path.len() <= 1 {
        Seq::<char>::empty()
    } else {
        path
    }) + seq!['/'] + join_with_slash(segments)
}

/// The base without query and fragment and without a trailing slash of its
/// path: what the segments are appended to.
pub open spec fn trimmed(base: UrlParts) -> UrlParts {
    UrlParts {
        head: base.head,
        path: without_trailing_slash(base.path),
        tail: Seq::empty(),
    }
}

/// The parts of the URL that is read: the head of the base; its path without
/// a trailing slash, with the segments appended; neither query nor fragment.
pub open spec fn joined(base: UrlParts, segments: Seq<Seq<char>>) -> UrlParts {
    UrlParts {
        head: base.head,
        path: extended_path(base.head, without_trailing_slash(base.path), segments),
        tail: Seq::empty(),
    }
}

/// The text of the URL that is read where the segments are plain: the base
/// up to its path, without a trailing slash; a slash; and the segments with
/// slashes between them.
pub open spec fn plain_url(base: UrlParts, segments: Seq<Seq<char>>) -> Seq<char> {
    base.head + plain_extension(without_trailing_slash(base.path), segments)
}

/// The number of bytes that `text` takes in UTF-8.
pub open spec fn byte_len(text: Seq<char>) -> nat {
    encode_utf8(text).len()
}

/// The most bytes by which appending `segments` lengthens a URL: a byte may
/// be written as three, a slash precedes each segment, and one more may be
/// set inside it.
pub open spec fn growth_bound(segments: Seq<Seq<char>>) -> nat
    decreases segments.len(),
{
    if segments.len() == 0 {
        0
    } else {
        growth_bound(segments.drop_last()) + 3 * byte_len(segments.last()) + 2
    }
}

/// A URL with this text can take `segments` and stay within the 4 GiB that a
/// `Url` can index.
pub open spec fn has_room(text: Seq<char>, segments: Seq<Seq<char>>) -> bool {
    byte_len(text) + growth_bound(segments) <= u32::MAX
}

/// The base and the segments are within the limits of the `Url` type: the
/// base up to the end of its path, and what it may grow to.
pub open spec fn fits(base: UrlParts, segments: Seq<Seq<char>>) -> bool {
    byte_len(base.stem()) <= u32::MAX && has_room(trimmed(base).text(), segments)
}

/// What reading the URL for `address` and `segments` gives: the URL's text,
/// or the reason why the address is refused, or `None` where the URL might
/// pass the limits of the `Url` type.
pub open spec fn read_url_outcome(address: Seq<char>, segments: Seq<Seq<char>>) -> Option<
    Result<Seq<char>, VaultError>,
> {
    match parsed_parts(address) {
        None => Some(Err(VaultError::InvalidAddress)),
        Some(base) => if !is_hierarchical(base) {
            Some(Err(VaultError::NonHierarchicalAddress))
        } else if !fits(base, segments) {
            None
        } else {
            Some(Ok(joined(base, segments).text()))
        },
    }
}

/// `Url::parse` reads an absolute URL. The same input always gives the same
/// outcome, which `parsed_parts` names; nothing more is claimed of it.
pub assume_specification[ Url::parse ](input: &str) -> (parsed: Result<Url, url::ParseError>)
    ensures
        match parsed {
            Ok(url) => parsed_parts(input@) == Some(url_parts(url)),
            Err(_) => parsed_parts(input@) is None,
        },
;

/// `Url::cannot_be_a_base` looks at the character after the colon that ends
/// the scheme: the URL cannot be a base unless that character is a slash.
/// The colon is the first of the serialization and lies in the head; the
/// character after it lies in the head too or is the first of the path,
/// since query and fragment start with `?` and `#`.
pub assume_specification[ Url::cannot_be_a_base ](url: &Url) -> (refused: bool)
    ensures
        refused == !is_hierarchical(url_parts(*url)),
;

/// `Url::as_str` hands out the serialization, which is the three parts in a
/// row.
pub assume_specification<'a>[ Url::as_str ](url: &'a Url) -> (text: &'a str)
    ensures
        text@ == url_parts(*url).text(),
;

/// `Url::set_query` with `None` removes the query. What follows the path is
/// then the fragment alone, which starts at the first `#` of the tail, since
/// a `#` in a query is written `%23`. Asked with `None` and of a hierarchical
/// URL only: from one that cannot be a base, `url` also takes trailing
/// spaces of the path.
pub assume_specification[ Url::set_query ](url: &mut Url, query: Option<&str>)
    requires
        query is None,
        is_hierarchical(url_parts(*old(url))),
    ensures
        url_parts(*final(url)).head == url_parts(*old(url)).head,
        url_parts(*final(url)).path == url_parts(*old(url)).path,
        url_parts(*final(url)).tail == fragment_of(url_parts(*old(url)).tail),
;

/// `Url::set_fragment` with `None` cuts the serialization where the fragment
/// starts, at the first `#` of the tail. Asked with `None` and of a
/// hierarchical URL only, as `Url::set_query` is.
pub assume_specification[ Url::set_fragment ](url: &mut Url, fragment: Option<&str>)
    requires
        fragment is None,
        is_hierarchical(url_parts(*old(url))),
    ensures
        url_parts(*final(url)).head == url_parts(*old(url)).head,
        url_parts(*final(url)).path == url_parts(*old(url)).path,
        url_parts(*final(url)).tail == query_of(url_parts(*old(url)).tail),
;

/// `Url::path_segments_mut` and `PathSegmentsMut::pop_if_empty` on what it
/// hands out: a path of two characters or more that ends in a slash loses
/// that slash, and nothing else changes. The serialization must fit in 32
/// bits, or the `url` crate panics when it sets the tail aside.
#[verifier::external_body]
fn strip_trailing_slash(url: &mut Url)
    requires
        is_hierarchical(url_parts(*old(url))),
        byte_len(url_parts(*old(url)).text()) <= u32::MAX,
    ensures
        url_parts(*final(url)).head == url_parts(*old(url)).head,
        url_parts(*final(url)).tail == url_parts(*old(url)).tail,
        url_parts(*final(url)).path == without_trailing_slash(url_parts(*old(url)).path),
{
    if let Ok(mut path) = url.path_segments_mut() {
        path.pop_if_empty();
    }
}

/// `Url::path_segments_mut` and `PathSegmentsMut::extend` on what it hands
/// out: head and tail stay, and the path becomes what `extended_path` names.
/// Of that path one thing is stated, for a URL whose scheme is not `file`:
/// segments of plain characters, which need no encoding and are no dot
/// segments, are appended as they are, each after a slash, except that a
/// path that is empty or the lone `/` gets no second slash. The lengthened
/// serialization must fit in 32 bits, or the `url` crate panics when it puts
/// the tail back: the bound asked for is the most that the segments can add.
#[verifier::external_body]
fn append_segments(url: &mut Url, segments: &Vec<String>)
    requires
        is_hierarchical(url_parts(*old(url))),
        has_room(url_parts(*old(url)).text(), texts(segments@)),
    ensures
        url_parts(*final(url)).head == url_parts(*old(url)).head,
        url_parts(*final(url)).tail == url_parts(*old(url)).tail,
        url_parts(*final(url)).path == extended_path(
            url_parts(*old(url)).head,
            url_parts(*old(url)).path,
            texts(segments@),
        ),
        plain_segments(texts(segments@)) && !is_file_head(url_parts(*old(url)).head)
            ==> extended_path(
            url_parts(*old(url)).head,
            url_parts(*old(url)).path,
            texts(segments@),
        ) == plain_extension(url_parts(*old(url)).path, texts(segments@)),
{
    if let Ok(mut path) = url.path_segments_mut() {
        path.extend(segments);
    }
}

/// The first occurrence of a character lies within the text or at its end,
/// and where it lies within, the character stands there.
proof fn lemma_first_index(text: Seq<char>, mark: char)
    ensures
        0 <= first_index(text, mark) <= text.len(),
        first_index(text, mark) < text.len() ==> text[first_index(text, mark)] == mark,
    decreases text.len(),
{
    if text.len() > 0 && text[0] != mark {
        lemma_first_index(text.drop_first(), mark);
    }
}

/// What is left of a tail when the query is gone has no query of its own:
/// with the fragment removed as well, nothing remains.
pub proof fn lemma_fragment_has_no_query(tail: Seq<char>)
    ensures
        query_of(fragment_of(tail)) == Seq::<char>::empty(),
{
    lemma_first_index(tail, '#');
    assert(query_of(fragment_of(tail)) =~= Seq::<char>::empty());
}

/// A prefix of the segments adds no more than all of them.
proof fn lemma_growth_is_monotonic(segments: Seq<Seq<char>>, count: int)
    requires
        0 <= count <= segments.len(),
    ensures
        growth_bound(segments.take(count)) <= growth_bound(segments),
    decreases segments.len(),
{
    if count == segments.len() {
        assert(segments.take(count) =~= segments);
    } else {
        lemma_growth_is_monotonic(segments.drop_last(), count);
        assert(segments.drop_last().take(count) =~= segments.take(count));
    }
}

/// Tells whether a URL of `url_bytes` bytes has room for `segments`.
fn room_for(url_bytes: usize, segments: &Vec<String>) -> (room: bool)
    ensures
        room == (url_bytes + growth_bound(texts(segments@)) <= u32::MAX),
{
    if url_bytes > 0xffff_ffff {
        return false;
    }
    let mut total: u64 = url_bytes as u64;
    let mut index: usize = 0;
    while index < segments.len()
        invariant
            index <= segments.len(),
            total == url_bytes + growth_bound(texts(segments@).take(index as int)),
            total <= u32::MAX,
        decreases segments.len() - index,
    {
        let bytes = segments[index].as_str().as_bytes().len();
        proof {
            let all = texts(segments@);
            assert(all.take(index + 1).drop_last() =~= all.take(index as int));
            assert(all.take(index + 1).last() == segments[index as int]@);
            lemma_growth_is_monotonic(all, index + 1);
        }
        if bytes > 0xffff_ffff {
            return false;
        }
        total = total + 3 * (bytes as u64) + 2;
        if total > 0xffff_ffff {
            return false;
        }
        index = index + 1;
    }
    proof {
        assert(texts(segments@).take(index as int) =~= texts(segments@));
    }
    true
}

/// Builds the URL that is read: `address` is parsed, loses its query and its
/// fragment and one trailing slash of its path, and takes `segments` in their
/// order, each as one path segment.
///
/// The address is refused with `InvalidAddress` where it does not parse, and
/// with `NonHierarchicalAddress` where it parses to a URL that takes no
/// segments. `None` comes back only where the URL might pass the 4 GiB that
/// the `Url` type can index.
///
/// Where the segments are of plain characters and the scheme is not `file`,
/// the URL's text is known in full: see `plain_url`.
pub fn read_url(address: &str, segments: &Vec<String>) -> (url: Option<Result<String, VaultError>>)
    ensures
        match url {
            None => read_url_outcome(address@, texts(segments@)) is None,
            Some(Err(error)) => read_url_outcome(address@, texts(segments@)) == Some(
                Err::<Seq<char>, VaultError>(error),
            ),
            Some(Ok(text)) => {
                &&& read_url_outcome(address@, texts(segments@)) == Some(
                    Ok::<Seq<char>, VaultError>(text@),
                )
                &&& plain_segments(texts(segments@)) && !is_file_head(
                    parsed_parts(address@)->0.head,
                ) ==> text@ == plain_url(parsed_parts(address@)->0, texts(segments@))
            },
        },
{
    let mut url = match Url::parse(address) {
        Ok(url) => url,
        Err(_) => {
            return Some(Err(VaultError::InvalidAddress));
        },
    };
    if url.cannot_be_a_base() {
        return Some(Err(VaultError::NonHierarchicalAddress));
    }
    let ghost base = url_parts(url);
    url.set_query(None);
    url.set_fragment(None);
    proof {
        lemma_fragment_has_no_query(base.tail);
        assert(url_parts(url).text() =~= base.stem());
    }
    if url.as_str().as_bytes().len() > 0xffff_ffff {
        return None;
    }
    strip_trailing_slash(&mut url);
    assert(url_parts(url) == trimmed(base));
    if !room_for(url.as_str().as_bytes().len(), segments) {
        return None;
    }
    append_segments(&mut url, segments);
    assert(url_parts(url) == joined(base, texts(segments@)));
    Some(Ok(String::from_str(url.as_str())))
}

/// Removing a trailing slash removes exactly one: a path that was given one
/// slash more comes back as it was.
pub proof fn lemma_strips_exactly_one_slash(path: Seq<char>)
    requires
        path.len() >= 1,
    ensures
        without_trailing_slash(path.push('/')) == path,
{
    assert(path.push('/').drop_last() =~= path);
}

/// The URL that is read does not depend on whether the base path ends in a
/// slash: a path that ends in none (or is the lone `/`) and the same path
/// with a slash after it give the same URL, whatever the segments.
pub proof fn lemma_trailing_slash_is_ignored(base: UrlParts, segments: Seq<Seq<char>>)
    requires
        base.path.len() >= 1,
        without_trailing_slash(base.path) == base.path,
    ensures
        joined(
            UrlParts { head: base.head, path: base.path.push('/'), tail: base.tail },
            segments,
        ) == joined(base, segments),
{
    lemma_strips_exactly_one_slash(base.path);
}

/// Neither a query nor a fragment of the address reaches the URL that is
/// read: two bases that differ in nothing else give the same URL.
pub proof fn lemma_query_and_fragment_are_dropped(
    base: UrlParts,
    other_tail: Seq<char>,
    segments: Seq<Seq<char>>,
)
    ensures
        joined(base, segments).tail.len() == 0,
        joined(UrlParts { head: base.head, path: base.path, tail: other_tail }, segments)
            == joined(base, segments),
{
}

} // verus!

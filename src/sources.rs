//! Finding the streaming sources of a game, and the streams of a source.

use vstd::prelude::*;
use crate::json::{
    at, elements_of, get_text, items_at, member, parse, parsed_json, text_at, ResponseError,
};
use crate::text::{same_text, stream_url, stream_url_of};

verus! {

/// One streaming backend of a game: an opaque id and the type of source.
pub struct Source {
    pub id: String,
    pub kind: String,
}

pub struct SourceView {
    pub id: Seq<char>,
    pub kind: Seq<char>,
}

impl View for Source {
    type V = SourceView;

    open spec fn view(&self) -> SourceView {
        SourceView { id: self.id@, kind: self.kind@ }
    }
}

pub open spec fn sources_view(xs: Seq<Source>) -> Seq<SourceView> {
    xs.map_values(|x: Source| x@)
}

/// One item for each element, in order; nothing where any element gives
/// nothing.
pub open spec fn each_of<A>(
    xs: Seq<serde_json::Value>,
    f: spec_fn(serde_json::Value) -> Option<A>,
) -> Option<Seq<A>>
    decreases xs.len(),
{
    if xs.len() == 0 {
        Some(Seq::empty())
    } else {
        match (each_of(xs.drop_last(), f), f(xs.last())) {
            (Some(a), Some(b)) => Some(a.push(b)),
            _ => None,
        }
    }
}

proof fn lemma_each_of_fails<A>(
    xs: Seq<serde_json::Value>,
    f: spec_fn(serde_json::Value) -> Option<A>,
    i: int,
)
    requires
        0 <= i <= xs.len(),
        each_of(xs.take(i), f) is None,
    ensures
        each_of(xs, f) is None,
    decreases xs.len() - i,
{
    if i < xs.len() {
        assert(xs.take(i + 1).drop_last() =~= xs.take(i));
        lemma_each_of_fails(xs, f, i + 1);
    } else {
        assert(xs.take(i) =~= xs);
    }
}

/// The source that a descriptor names; both its id and its type must be
/// strings.
pub open spec fn source_of(v: serde_json::Value) -> Option<SourceView> {
    match (text_at(at(Some(v), "id"@)), text_at(at(Some(v), "source"@))) {
        (Some(id), Some(kind)) => Some(SourceView { id, kind }),
        _ => None,
    }
}

/// Reads one source descriptor.
pub open spec fn source_reader() -> spec_fn(serde_json::Value) -> Option<SourceView> {
    |x: serde_json::Value| source_of(x)
}

/// Reads one stream record.
pub open spec fn embed_reader() -> spec_fn(serde_json::Value) -> Option<Seq<char>> {
    |x: serde_json::Value| embed_of(x)
}

pub open spec fn title_of_match(m: serde_json::Value) -> Option<Seq<char>> {
    text_at(at(Some(m), "title"@))
}

/// The sources of the first match whose title is `key`, scanning in order;
/// none where no title is `key`. Nothing where a scanned match has no title,
/// or the match found has malformed sources.
pub open spec fn find_in(ms: Seq<serde_json::Value>, key: Seq<char>) -> Option<Seq<SourceView>>
    decreases ms.len(),
{
    if ms.len() == 0 {
        Some(Seq::empty())
    } else {
        match title_of_match(ms[0]) {
            None => None,
            Some(t) => if t == key {
                match items_at(at(Some(ms[0]), "sources"@)) {
                    Some(xs) => each_of(xs, source_reader()),
                    None => None,
                }
            } else {
                find_in(ms.drop_first(), key)
            },
        }
    }
}

/// What looking up `key` in a matches response body gives.
pub open spec fn sources_from(body: Seq<char>, key: Seq<char>) -> Result<
    Seq<SourceView>,
    ResponseError,
> {
    match parsed_json(body) {
        None => Err(ResponseError::NotJson),
        Some(doc) => match json_items_of(doc) {
            None => Err(ResponseError::MissingField),
            Some(ms) => match find_in(ms, key) {
                Some(xs) => Ok(xs),
                None => Err(ResponseError::MissingField),
            },
        },
    }
}

pub open spec fn json_items_of(doc: serde_json::Value) -> Option<Seq<serde_json::Value>> {
    items_at(Some(doc))
}

/// The embed URL of a stream record.
pub open spec fn embed_of(v: serde_json::Value) -> Option<Seq<char>> {
    text_at(at(Some(v), "embedUrl"@))
}

/// What reading a stream list response body gives.
pub open spec fn embeds_from(body: Seq<char>) -> Result<Seq<Seq<char>>, ResponseError> {
    match parsed_json(body) {
        None => Err(ResponseError::NotJson),
        Some(doc) => match json_items_of(doc) {
            None => Err(ResponseError::MissingField),
            Some(xs) => match each_of(xs, embed_reader()) {
                Some(us) => Ok(us),
                None => Err(ResponseError::MissingField),
            },
        },
    }
}

pub open spec fn strings_view(xs: Seq<String>) -> Seq<Seq<char>> {
    xs.map_values(|x: String| x@)
}

fn read_sources(xs: &Vec<serde_json::Value>) -> (r: Option<Vec<Source>>)
    ensures
        r matches Some(out) ==> each_of(xs@, source_reader()) == Some(
            sources_view(out@),
        ),
        r is None ==> each_of(xs@, source_reader()) is None,
{
    let ghost f = source_reader();
    let mut out: Vec<Source> = Vec::new();
    let mut i: usize = 0;
    assert(xs@.take(0) =~= Seq::<serde_json::Value>::empty());
    assert(sources_view(out@) =~= Seq::<SourceView>::empty());
    while i < xs.len()
        invariant
            i <= xs@.len(),
            f == source_reader(),
            each_of(xs@.take(i as int), f) == Some(sources_view(out@)),
        decreases xs@.len() - i,
    {
        assert(xs@.take(i + 1).drop_last() =~= xs@.take(i as int));
        assert(xs@.take(i + 1).last() == xs@[i as int]);
        let id = get_text(&member(&xs[i], "id"));
        let kind = get_text(&member(&xs[i], "source"));
        match (id, kind) {
            (Some(id), Some(kind)) => {
                let ghost before = out@;
                let s = Source { id, kind };
                out.push(s);
                assert(sources_view(out@) =~= sources_view(before).push(s@));
            },
            _ => {
                proof {
                    lemma_each_of_fails(xs@, f, i + 1);
                }
                return None;
            },
        }
        i = i + 1;
    }
    assert(xs@.take(i as int) =~= xs@);
    Some(out)
}

/// Looks up the sources of the game whose correlation key is `key` in a
/// matches response body: those of the first match titled exactly `key`, or
/// none where no match is.
pub fn find_sources(body: &str, key: &str) -> (r: Result<Vec<Source>, ResponseError>)
    ensures
        r matches Ok(out) ==> sources_from(body@, key@) == Ok::<Seq<SourceView>, ResponseError>(
            sources_view(out@),
        ),
        r matches Err(e) ==> sources_from(body@, key@) == Err::<Seq<SourceView>, ResponseError>(e),
{
    let doc = parse(body)?;
    let ghost d = doc;
    let ms = match elements_of(&Some(doc)) {
        Some(ms) => ms,
        None => {
            return Err(ResponseError::MissingField);
        },
    };
    let mut i: usize = 0;
    assert(ms@.skip(0) =~= ms@);
    while i < ms.len()
        invariant
            i <= ms@.len(),
            parsed_json(body@) == Some(d),
            json_items_of(d) == Some(ms@),
            find_in(ms@, key@) == find_in(ms@.skip(i as int), key@),
        decreases ms@.len() - i,
    {
        assert(ms@.skip(i as int)[0] == ms@[i as int]);
        assert(ms@.skip(i as int).drop_first() =~= ms@.skip(i + 1));
        let title = match get_text(&member(&ms[i], "title")) {
            Some(t) => t,
            None => {
                return Err(ResponseError::MissingField);
            },
        };
        if same_text(title.as_str(), key) {
            let xs = match elements_of(&member(&ms[i], "sources")) {
                Some(xs) => xs,
                None => {
                    return Err(ResponseError::MissingField);
                },
            };
            return match read_sources(&xs) {
                Some(out) => Ok(out),
                None => Err(ResponseError::MissingField),
            };
        }
        i = i + 1;
    }
    assert(ms@.skip(i as int) =~= Seq::<serde_json::Value>::empty());
    let none: Vec<Source> = Vec::new();
    assert(sources_view(none@) =~= Seq::<SourceView>::empty());
    Ok(none)
}

/// Reads the embed URLs of a stream list response body, in order.
pub fn embed_urls(body: &str) -> (r: Result<Vec<String>, ResponseError>)
    ensures
        r matches Ok(out) ==> embeds_from(body@) == Ok::<Seq<Seq<char>>, ResponseError>(
            strings_view(out@),
        ),
        r matches Err(e) ==> embeds_from(body@) == Err::<Seq<Seq<char>>, ResponseError>(e),
{
    let ghost f = embed_reader();
    let doc = parse(body)?;
    let ghost d = doc;
    let xs = match elements_of(&Some(doc)) {
        Some(xs) => xs,
        None => {
            return Err(ResponseError::MissingField);
        },
    };
    let mut out: Vec<String> = Vec::new();
    let mut i: usize = 0;
    assert(xs@.take(0) =~= Seq::<serde_json::Value>::empty());
    assert(strings_view(out@) =~= Seq::<Seq<char>>::empty());
    while i < xs.len()
        invariant
            i <= xs@.len(),
            f == embed_reader(),
            parsed_json(body@) == Some(d),
            json_items_of(d) == Some(xs@),
            each_of(xs@.take(i as int), f) == Some(strings_view(out@)),
        decreases xs@.len() - i,
    {
        assert(xs@.take(i + 1).drop_last() =~= xs@.take(i as int));
        assert(xs@.take(i + 1).last() == xs@[i as int]);
        match get_text(&member(&xs[i], "embedUrl")) {
            Some(u) => {
                let ghost before = out@;
                let ghost uv = u@;
                out.push(u);
                assert(strings_view(out@) =~= strings_view(before).push(uv));
            },
            None => {
                proof {
                    lemma_each_of_fails(xs@, f, i + 1);
                }
                return Err(ResponseError::MissingField);
            },
        }
        i = i + 1;
    }
    assert(xs@.take(i as int) =~= xs@);
    Ok(out)
}

/// The addresses to fetch for a list of sources, one per source, in order.
pub fn stream_requests(sources: &Vec<Source>) -> (r: Vec<String>)
    ensures
        r@.len() == sources@.len(),
        forall|i: int|
            0 <= i < r@.len() ==> #[trigger] r@[i]@ == stream_url_of(
                sources@[i].kind@,
                sources@[i].id@,
            ),
{
    let mut out: Vec<String> = Vec::new();
    let mut i: usize = 0;
    while i < sources.len()
        invariant
            i <= sources@.len(),
            out@.len() == i,
            forall|j: int|
                0 <= j < i ==> #[trigger] out@[j]@ == stream_url_of(
                    sources@[j].kind@,
                    sources@[j].id@,
                ),
        decreases sources@.len() - i,
    {
        let s = &sources[i];
        out.push(stream_url(s.kind.as_str(), s.id.as_str()));
        i = i + 1;
    }
    out
}

/// Looking a key up twice in the same response gives the same result both
/// times: the outcome is a function of the body and the key alone.
pub proof fn lemma_lookup_repeatable(
    body: Seq<char>,
    key: Seq<char>,
    first: Result<Seq<SourceView>, ResponseError>,
    second: Result<Seq<SourceView>, ResponseError>,
)
    requires
        first == sources_from(body, key),
        second == sources_from(body, key),
    ensures
        first == second,
{
}

} // verus!

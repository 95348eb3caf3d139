//! Taking a URL apart into protocol, host and path.
//!
//! A URL here is a scheme, `://`, an authority and a path:
//! `https://name@example.com:8080/some/repo.git`. The scheme starts with a
//! letter and goes on with letters, digits, `+`, `-` and `.`. The authority ends
//! before the first `/` that follows it; what it holds up to its first `@` names
//! a user and is no part of the host. The path is the rest, without the slashes
//! around it.
use crate::protocol::context::{Context, ContextView};
use crate::protocol::Error;
use crate::protocol::ErrorView;
use crate::text::{
    chars_of, find, lemma_trim_end_is, lemma_trim_start_is, opt_text, scan, string_of, trim,
};
use vstd::prelude::*;

verus! {

/// The parts of a URL that a credential is looked up by.
#[derive(Debug, PartialEq, Eq)]
pub struct Url {
    /// The scheme.
    pub protocol: String,
    /// The host with its port, where the URL names one.
    pub host: Option<String>,
    /// The path without the slashes around it, where anything is left of it.
    pub path: Option<String>,
}

/// The view of a [`Url`].
pub struct UrlView {
    pub protocol: Seq<char>,
    pub host: Option<Seq<char>>,
    pub path: Option<Seq<char>>,
}

impl View for Url {
    type V = UrlView;

    open spec fn view(&self) -> UrlView {
        UrlView { protocol: self.protocol@, host: opt_text(self.host), path: opt_text(self.path) }
    }
}

/// The view of an optional [`Url`].
pub open spec fn opt_url(url: Option<Url>) -> Option<UrlView> {
    match url {
        Some(u) => Some(u@),
        None => None,
    }
}

/// A letter of the Latin alphabet.
pub open spec fn is_letter(c: char) -> bool {
    ('a' <= c && c <= 'z') || ('A' <= c && c <= 'Z')
}

/// A character that a scheme may hold.
pub open spec fn is_scheme_char(c: char) -> bool {
    is_letter(c) || ('0' <= c && c <= '9') || c == '+' || c == '-' || c == '.'
}

/// Whether `s` can be the scheme of a URL.
pub open spec fn is_scheme(s: Seq<char>) -> bool {
    &&& s.len() > 0
    &&& is_letter(s[0])
    &&& forall|i: int| 0 <= i < s.len() ==> is_scheme_char(#[trigger] s[i])
}

/// `s`, unless it is empty.
pub open spec fn filled(s: Seq<char>) -> Option<Seq<char>> {
    if s.len() == 0 {
        None
    } else {
        Some(s)
    }
}

/// The host in an authority: what follows its first `@`, or all of it.
pub open spec fn host_of(authority: Seq<char>) -> Seq<char> {
    let at = find(authority, '@') as int;
    if at < authority.len() {
        authority.skip(at + 1)
    } else {
        authority
    }
}

/// The parts of `url`, or `None` where it is malformed: where no scheme stands
/// before its first colon, or no `//` behind that colon.
pub open spec fn split_url(url: Seq<char>) -> Option<UrlView> {
    let colon = find(url, ':') as int;
    if is_scheme(url.take(colon)) && colon + 3 <= url.len() && url[colon + 1] == '/'
        && url[colon + 2] == '/' {
        let rest = url.skip(colon + 3);
        let slash = find(rest, '/') as int;
        Some(
            UrlView {
                protocol: url.take(colon),
                host: filled(host_of(rest.take(slash))),
                path: filled(trim(rest.skip(slash), '/')),
            },
        )
    } else {
        None
    }
}

impl ContextView {
    /// The record with protocol, host and path replaced by those of `parts`.
    pub open spec fn with_url(self, parts: UrlView) -> ContextView {
        ContextView { protocol: Some(parts.protocol), host: parts.host, path: parts.path, ..self }
    }

    /// The record with protocol, host and path derived anew from its URL. A
    /// record without a URL is left as it is; for one with a malformed URL there
    /// is no such record.
    pub open spec fn destructured(self) -> Option<ContextView> {
        match self.url {
            None => Some(self),
            Some(url) => match split_url(url) {
                Some(parts) => Some(self.with_url(parts)),
                None => None,
            },
        }
    }
}

/// Taking a record's URL apart a second time changes nothing: protocol, host and
/// path of a record that was taken apart are those that its URL gives.
pub proof fn law_destructured_stays(ctx: ContextView)
    requires
        ctx.destructured() is Some,
    ensures
        ctx.destructured()->0.destructured() == ctx.destructured(),
{
}

fn letter(c: char) -> (b: bool)
    ensures
        b == is_letter(c),
{
    ('a' <= c && c <= 'z') || ('A' <= c && c <= 'Z')
}

fn scheme_char(c: char) -> (b: bool)
    ensures
        b == is_scheme_char(c),
{
    letter(c) || ('0' <= c && c <= '9') || c == '+' || c == '-' || c == '.'
}

/// Whether the first `to` characters can be the scheme of a URL.
fn scheme_ends_at(chars: &Vec<char>, to: usize) -> (b: bool)
    requires
        to <= chars.len(),
    ensures
        b == is_scheme(chars@.take(to as int)),
{
    if to == 0 || !letter(chars[0]) {
        return false;
    }
    let mut i: usize = 0;
    while i < to
        invariant
            i <= to <= chars.len(),
            forall|j: int| 0 <= j < i ==> is_scheme_char(#[trigger] chars@.take(to as int)[j]),
        decreases to - i,
    {
        if !scheme_char(chars[i]) {
            assert(!is_scheme_char(chars@.take(to as int)[i as int]));
            return false;
        }
        i = i + 1;
    }
    true
}

/// The piece of `chars` between two indices, unless it is empty.
fn filled_piece(chars: &Vec<char>, from: usize, to: usize) -> (r: Option<String>)
    requires
        from <= to <= chars.len(),
    ensures
        opt_text(r) == filled(chars@.subrange(from as int, to as int)),
{
    if from == to {
        None
    } else {
        Some(string_of(chars, from, to))
    }
}

/// Where the host starts in the authority that lies between two indices.
fn host_start(chars: &Vec<char>, from: usize, to: usize) -> (i: usize)
    requires
        from <= to <= chars.len(),
    ensures
        from <= i <= to,
        chars@.subrange(i as int, to as int) == host_of(chars@.subrange(from as int, to as int)),
{
    let at = scan(chars, from, to, '@');
    if at < to {
        assert(chars@.subrange(from as int, to as int).skip(at + 1 - from) =~= chars@.subrange(
            at + 1,
            to as int,
        ));
        at + 1
    } else {
        from
    }
}

/// The bounds of what is left between two indices once the runs of `c` at
/// either end are dropped.
fn trim_bounds(chars: &Vec<char>, from: usize, to: usize, c: char) -> (r: (usize, usize))
    requires
        from <= to <= chars.len(),
    ensures
        from <= r.0 <= r.1 <= to,
        chars@.subrange(r.0 as int, r.1 as int) == trim(chars@.subrange(from as int, to as int), c),
{
    let mut lo = from;
    while lo < to && chars[lo] == c
        invariant
            from <= lo <= to <= chars.len(),
            forall|j: int| from <= j < lo ==> chars@[j] == c,
        decreases to - lo,
    {
        lo = lo + 1;
    }
    let mut hi = to;
    while hi > lo && chars[hi - 1] == c
        invariant
            lo <= hi <= to <= chars.len(),
            forall|j: int| hi <= j < to ==> chars@[j] == c,
        decreases hi,
    {
        hi = hi - 1;
    }
    proof {
        let whole = chars@.subrange(from as int, to as int);
        lemma_trim_start_is(whole, c, lo - from);
        let inner = whole.skip(lo - from);
        assert(inner =~= chars@.subrange(lo as int, to as int));
        lemma_trim_end_is(inner, c, hi - lo);
        assert(inner.take(hi - lo) =~= chars@.subrange(lo as int, hi as int));
    }
    (lo, hi)
}

/// The pieces that `split_url` speaks of, as pieces between indices.
proof fn lemma_pieces(url: Seq<char>, start: int, slash: int)
    requires
        0 <= start <= slash <= url.len(),
    ensures
        url.subrange(0, url.len() as int) == url,
        url.skip(start) == url.subrange(start, url.len() as int),
        url.skip(start).take(slash - start) == url.subrange(start, slash),
        url.skip(start).skip(slash - start) == url.subrange(slash, url.len() as int),
        url.take(start) == url.subrange(0, start),
{
    assert(url.subrange(0, url.len() as int) =~= url);
    assert(url.skip(start) =~= url.subrange(start, url.len() as int));
    assert(url.skip(start).take(slash - start) =~= url.subrange(start, slash));
    assert(url.skip(start).skip(slash - start) =~= url.subrange(slash, url.len() as int));
    assert(url.take(start) =~= url.subrange(0, start));
}

/// Takes `url` apart, or returns `None` where it is malformed.
pub fn parse(url: &str) -> (r: Option<Url>)
    ensures
        opt_url(r) == split_url(url@),
{
    let chars = chars_of(url);
    let n = chars.len();
    proof {
        lemma_pieces(url@, 0, 0);
    }
    let colon = scan(&chars, 0, n, ':');
    proof {
        lemma_pieces(url@, colon as int, colon as int);
    }
    if !scheme_ends_at(&chars, colon) {
        return None;
    }
    if n - colon < 3 || chars[colon + 1] != '/' || chars[colon + 2] != '/' {
        return None;
    }
    let start = colon + 3;
    proof {
        lemma_pieces(url@, start as int, start as int);
    }
    let slash = scan(&chars, start, n, '/');
    proof {
        lemma_pieces(url@, start as int, slash as int);
    }
    let host_from = host_start(&chars, start, slash);
    let (lo, hi) = trim_bounds(&chars, slash, n, '/');
    Some(
        Url {
            protocol: string_of(&chars, 0, colon),
            host: filled_piece(&chars, host_from, slash),
            path: filled_piece(&chars, lo, hi),
        },
    )
}

impl Context {
    /// Derives protocol, host and path anew from the URL, replacing what was
    /// there. A record without a URL is left as it is. A malformed URL is an
    /// error, and leaves the record as it is too.
    pub fn destructure_url(&mut self) -> (r: Result<(), Error>)
        ensures
            match old(self)@.destructured() {
                Some(ctx) => r is Ok && final(self)@ == ctx,
                None => r matches Err(e) && e@ == ErrorView::Parse && final(self)@ == old(self)@,
            },
    {
        let parts = match &self.url {
            None => {
                return Ok(());
            },
            Some(url) => parse(url.as_str()),
        };
        match parts {
            None => Err(Error::Parse),
            Some(Url { protocol, host, path }) => {
                self.protocol = Some(protocol);
                self.host = host;
                self.path = path;
                Ok(())
            },
        }
    }
}

} // verus!

//! The record as helpers write and read it: one `key=value` per line.
//!
//! A record ends at its first empty line, or where the text ends. The key of a
//! line is what precedes its first `=`, the value what follows it, up to the
//! line feed. A line without `=` makes the whole text malformed. Of several lines
//! with one key the last counts, and a line with an unknown key counts for
//! nothing.
use crate::protocol::context::{Context, ContextView};
use crate::text::{
    chars_of, find, lemma_find_is, opt_text, reads, scan, string_of, text_from_utf8,
};
use vstd::prelude::*;
use vstd::utf8::{
    decode_utf8, encode_utf8, encode_utf8_decode_utf8, encode_utf8_valid_utf8, valid_utf8,
};

verus! {

/// The view of an optional record.
pub open spec fn opt_context(ctx: Option<Context>) -> Option<ContextView> {
    match ctx {
        Some(c) => Some(c@),
        None => None,
    }
}

/// The truth value that `value` spells, if it spells one.
pub open spec fn flag(value: Seq<char>) -> Option<bool> {
    if value == "true"@ || value == "1"@ || value == "yes"@ || value == "on"@ {
        Some(true)
    } else if value == "false"@ || value == "0"@ || value == "no"@ || value == "off"@ {
        Some(false)
    } else {
        None
    }
}

impl ContextView {
    /// The record after the line `key=value` was read.
    pub open spec fn assign(self, key: Seq<char>, value: Seq<char>) -> ContextView {
        if key == "protocol"@ {
            ContextView { protocol: Some(value), ..self }
        } else if key == "host"@ {
            ContextView { host: Some(value), ..self }
        } else if key == "path"@ {
            ContextView { path: Some(value), ..self }
        } else if key == "username"@ {
            ContextView { username: Some(value), ..self }
        } else if key == "password"@ {
            ContextView { password: Some(value), ..self }
        } else if key == "url"@ {
            ContextView { url: Some(value), ..self }
        } else if key == "quit"@ {
            ContextView { quit: flag(value), ..self }
        } else {
            self
        }
    }

    /// The record written out, a line for each field that is there.
    pub open spec fn rendered(self) -> Seq<char> {
        line("url"@, self.url) + line("path"@, self.path) + line("protocol"@, self.protocol)
            + line("host"@, self.host) + line("username"@, self.username) + line(
            "password"@,
            self.password,
        ) + line("quit"@, spelled(self.quit))
    }
}

/// How a truth value is written.
pub open spec fn spelled(flag: Option<bool>) -> Option<Seq<char>> {
    match flag {
        Some(true) => Some("true"@),
        Some(false) => Some("false"@),
        None => None,
    }
}

/// The line for one field, or nothing where the field is absent.
pub open spec fn line(key: Seq<char>, value: Option<Seq<char>>) -> Seq<char> {
    match value {
        Some(v) => key + "="@ + v + "\n"@,
        None => Seq::empty(),
    }
}

/// The line that `text` starts with: what precedes its first line feed.
pub open spec fn first_line(text: Seq<char>) -> Seq<char> {
    text.take(find(text, '\n') as int)
}

/// What follows the first line of `text` and its line feed.
pub open spec fn after_first_line(text: Seq<char>) -> Seq<char> {
    let eol = find(text, '\n') as int;
    if eol < text.len() {
        text.skip(eol + 1)
    } else {
        Seq::empty()
    }
}

/// The record that results from reading the lines of `text` onto `start`, or
/// `None` where a line before the end of the record has no `=`.
pub open spec fn record_onto(start: ContextView, text: Seq<char>) -> Option<ContextView>
    decreases text.len(),
{
    let line = first_line(text);
    let eq = find(line, '=') as int;
    if line.len() == 0 {
        Some(start)
    } else if eq == line.len() {
        None
    } else {
        record_onto(start.assign(line.take(eq), line.skip(eq + 1)), after_first_line(text))
    }
}

/// The record that `text` spells.
pub open spec fn record(text: Seq<char>) -> Option<ContextView> {
    record_onto(ContextView::empty(), text)
}

/// The record that `bytes` spell: that of their text, where they are text at all.
pub open spec fn decoded(bytes: Seq<u8>) -> Option<ContextView> {
    if valid_utf8(bytes) {
        record(decode_utf8(bytes))
    } else {
        None
    }
}

/// Whether `s` holds no line feed.
pub open spec fn single_line(s: Seq<char>) -> bool {
    forall|i: int| 0 <= i < s.len() ==> s[i] != '\n'
}

/// Whether `value` can be written into a line: it is absent, or holds no line
/// feed.
pub open spec fn fits_line(value: Option<Seq<char>>) -> bool {
    value matches Some(v) ==> single_line(v)
}

impl ContextView {
    /// Whether the record can be written out and read back: none of its texts
    /// holds a line feed.
    pub open spec fn writable(self) -> bool {
        &&& fits_line(self.protocol)
        &&& fits_line(self.host)
        &&& fits_line(self.path)
        &&& fits_line(self.username)
        &&& fits_line(self.password)
        &&& fits_line(self.url)
    }

    /// The record after the line for one field was read, if there is such a line.
    pub open spec fn assign_opt(self, key: Seq<char>, value: Option<Seq<char>>) -> ContextView {
        match value {
            Some(v) => self.assign(key, v),
            None => self,
        }
    }
}

/// Whether `s` can stand as a key in a line: it holds neither `=` nor a line
/// feed.
spec fn is_key(s: Seq<char>) -> bool {
    forall|i: int| 0 <= i < s.len() ==> s[i] != '=' && s[i] != '\n'
}

/// Reading what was written for one field, followed by `rest`, reads the field
/// and goes on with `rest`.
proof fn lemma_read_field(
    start: ContextView,
    key: Seq<char>,
    value: Option<Seq<char>>,
    rest: Seq<char>,
)
    requires
        is_key(key),
        fits_line(value),
    ensures
        record_onto(start, line(key, value) + rest) == record_onto(
            start.assign_opt(key, value),
            rest,
        ),
{
    reveal_strlit("=");
    reveal_strlit("\n");
    match value {
        None => {
            assert(line(key, value) + rest =~= rest);
        },
        Some(v) => {
            let text = line(key, value) + rest;
            let eq = key.len() as int;
            let eol = eq + 1 + v.len();
            assert(text[eol] == '\n');
            assert forall|j: int| 0 <= j < eol implies text[j] != '\n' by {
                if j < eq {
                    assert(text[j] == key[j]);
                } else if j > eq {
                    assert(text[j] == v[j - eq - 1]);
                }
            }
            lemma_find_is(text, '\n', eol);
            let first = first_line(text);
            assert(first =~= key + "="@ + v);
            assert forall|j: int| 0 <= j < eq implies first[j] != '=' by {
                assert(first[j] == key[j]);
            }
            lemma_find_is(first, '=', eq);
            assert(first.take(eq) =~= key);
            assert(first.skip(eq + 1) =~= v);
            assert(after_first_line(text) =~= rest);
        },
    }
}

/// The keys of the fields can stand as keys, and the spellings of truth values
/// fit a line.
proof fn lemma_keys()
    ensures
        is_key("url"@),
        is_key("path"@),
        is_key("protocol"@),
        is_key("host"@),
        is_key("username"@),
        is_key("password"@),
        is_key("quit"@),
        forall|quit: Option<bool>| fits_line(#[trigger] spelled(quit)),
{
    reveal_strlit("url");
    reveal_strlit("path");
    reveal_strlit("protocol");
    reveal_strlit("host");
    reveal_strlit("username");
    reveal_strlit("password");
    reveal_strlit("quit");
    reveal_strlit("true");
    reveal_strlit("false");
    assert(single_line("true"@));
    assert(single_line("false"@));
}

/// No two keys are the same, and `false` is not spelled as `true` is.
proof fn lemma_distinct()
    ensures
        "host"@ != "protocol"@,
        "path"@ != "protocol"@ && "path"@ != "host"@,
        "username"@ != "protocol"@ && "username"@ != "host"@ && "username"@ != "path"@,
        "password"@ != "protocol"@ && "password"@ != "host"@ && "password"@ != "path"@
            && "password"@ != "username"@,
        "url"@ != "protocol"@ && "url"@ != "host"@ && "url"@ != "path"@ && "url"@ != "username"@
            && "url"@ != "password"@,
        "quit"@ != "protocol"@ && "quit"@ != "host"@ && "quit"@ != "path"@ && "quit"@
            != "username"@ && "quit"@ != "password"@ && "quit"@ != "url"@,
        flag("true"@) == Some(true),
        flag("false"@) == Some(false),
{
    reveal_strlit("url");
    reveal_strlit("path");
    reveal_strlit("protocol");
    reveal_strlit("host");
    reveal_strlit("username");
    reveal_strlit("password");
    reveal_strlit("quit");
    reveal_strlit("true");
    reveal_strlit("false");
    reveal_strlit("1");
    reveal_strlit("yes");
    reveal_strlit("on");
    assert("url"@.len() == 3 && "path"@.len() == 4 && "host"@.len() == 4 && "quit"@.len() == 4);
    assert("protocol"@.len() == 8 && "username"@.len() == 8 && "password"@.len() == 8);
    assert("true"@.len() == 4 && "false"@.len() == 5 && "1"@.len() == 1 && "yes"@.len() == 3
        && "on"@.len() == 2);
    assert("path"@[0] != "host"@[0] && "quit"@[0] != "host"@[0] && "quit"@[0] != "path"@[0]);
    assert("username"@[0] != "protocol"@[0] && "password"@[1] != "protocol"@[1] && "password"@[0]
        != "username"@[0]);
}

/// What a record is written as, put together from its last line on.
spec fn nested(ctx: ContextView) -> Seq<char> {
    line("url"@, ctx.url) + (line("path"@, ctx.path) + (line("protocol"@, ctx.protocol) + (line(
        "host"@,
        ctx.host,
    ) + (line("username"@, ctx.username) + (line("password"@, ctx.password) + (line(
        "quit"@,
        spelled(ctx.quit),
    ) + Seq::<char>::empty()))))))
}

/// What reading the lines of a written record, one after the other, makes of
/// the empty record.
spec fn reread(ctx: ContextView) -> ContextView {
    ContextView::empty().assign_opt("url"@, ctx.url).assign_opt("path"@, ctx.path).assign_opt(
        "protocol"@,
        ctx.protocol,
    ).assign_opt("host"@, ctx.host).assign_opt("username"@, ctx.username).assign_opt(
        "password"@,
        ctx.password,
    ).assign_opt("quit"@, spelled(ctx.quit))
}

proof fn lemma_regroup(a: Seq<char>, b: Seq<char>, c: Seq<char>)
    ensures
        (a + b) + c == a + (b + c),
{
    assert((a + b) + c =~= a + (b + c));
}

proof fn lemma_nested(ctx: ContextView)
    ensures
        ctx.rendered() == nested(ctx),
{
    let l1 = line("url"@, ctx.url);
    let l2 = line("path"@, ctx.path);
    let l3 = line("protocol"@, ctx.protocol);
    let l4 = line("host"@, ctx.host);
    let l5 = line("username"@, ctx.username);
    let l6 = line("password"@, ctx.password);
    let l7 = line("quit"@, spelled(ctx.quit));
    let r7 = l7 + Seq::<char>::empty();
    let r6 = l6 + r7;
    let r5 = l5 + r6;
    let r4 = l4 + r5;
    let r3 = l3 + r4;
    let r2 = l2 + r3;
    assert(r7 =~= l7);
    lemma_regroup(l1 + l2 + l3 + l4 + l5, l6, r7);
    lemma_regroup(l1 + l2 + l3 + l4, l5, r6);
    lemma_regroup(l1 + l2 + l3, l4, r5);
    lemma_regroup(l1 + l2, l3, r4);
    lemma_regroup(l1, l2, r3);
}

proof fn lemma_reread(ctx: ContextView)
    ensures
        reread(ctx) == ctx,
{
    lemma_distinct();
}

proof fn lemma_read_lines(ctx: ContextView)
    requires
        ctx.writable(),
    ensures
        record_onto(ContextView::empty(), nested(ctx)) == Some(reread(ctx)),
{
    let empty = Seq::<char>::empty();
    let r7 = line("quit"@, spelled(ctx.quit)) + empty;
    let r6 = line("password"@, ctx.password) + r7;
    let r5 = line("username"@, ctx.username) + r6;
    let r4 = line("host"@, ctx.host) + r5;
    let r3 = line("protocol"@, ctx.protocol) + r4;
    let r2 = line("path"@, ctx.path) + r3;
    let a0 = ContextView::empty();
    let a1 = a0.assign_opt("url"@, ctx.url);
    let a2 = a1.assign_opt("path"@, ctx.path);
    let a3 = a2.assign_opt("protocol"@, ctx.protocol);
    let a4 = a3.assign_opt("host"@, ctx.host);
    let a5 = a4.assign_opt("username"@, ctx.username);
    let a6 = a5.assign_opt("password"@, ctx.password);
    let a7 = a6.assign_opt("quit"@, spelled(ctx.quit));
    lemma_keys();
    lemma_read_field(a0, "url"@, ctx.url, r2);
    lemma_read_field(a1, "path"@, ctx.path, r3);
    lemma_read_field(a2, "protocol"@, ctx.protocol, r4);
    lemma_read_field(a3, "host"@, ctx.host, r5);
    lemma_read_field(a4, "username"@, ctx.username, r6);
    lemma_read_field(a5, "password"@, ctx.password, r7);
    lemma_read_field(a6, "quit"@, spelled(ctx.quit), empty);
    assert(first_line(empty).len() == 0);
}

/// A record that is written out reads back as it was, from the text and from
/// its bytes, as long as none of its texts holds a line feed.
pub proof fn law_written_record_reads_back(ctx: ContextView)
    requires
        ctx.writable(),
    ensures
        record(ctx.rendered()) == Some(ctx),
        decoded(encode_utf8(ctx.rendered())) == Some(ctx),
{
    lemma_nested(ctx);
    lemma_read_lines(ctx);
    lemma_reread(ctx);
    encode_utf8_valid_utf8(ctx.rendered());
    encode_utf8_decode_utf8(ctx.rendered());
}

/// The first line of what starts at `pos`, its key and value, and what follows
/// it, as pieces between indices.
proof fn lemma_line(chars: Seq<char>, pos: int, eol: int, eq: int)
    requires
        0 <= pos <= eq <= eol <= chars.len(),
        eol == pos + find(chars.subrange(pos, chars.len() as int), '\n'),
    ensures
        first_line(chars.subrange(pos, chars.len() as int)) == chars.subrange(pos, eol),
        chars.subrange(pos, eol).take(eq - pos) == chars.subrange(pos, eq),
        eq < eol ==> chars.subrange(pos, eol).skip(eq - pos + 1) == chars.subrange(eq + 1, eol),
        after_first_line(chars.subrange(pos, chars.len() as int)) == chars.subrange(
            if eol < chars.len() {
                eol + 1
            } else {
                eol
            },
            chars.len() as int,
        ),
{
    let n = chars.len() as int;
    let rest = chars.subrange(pos, n);
    assert(rest.take(eol - pos) =~= chars.subrange(pos, eol));
    assert(chars.subrange(pos, eol).take(eq - pos) =~= chars.subrange(pos, eq));
    if eq < eol {
        assert(chars.subrange(pos, eol).skip(eq - pos + 1) =~= chars.subrange(eq + 1, eol));
    }
    if eol < n {
        assert(rest.skip(eol - pos + 1) =~= chars.subrange(eol + 1, n));
    } else {
        assert(Seq::<char>::empty() =~= chars.subrange(eol, n));
    }
}

fn write_line(out: &mut String, key: &str, value: &Option<String>)
    ensures
        final(out)@ == old(out)@ + line(key@, opt_text(*value)),
{
    if let Some(v) = value {
        out.append(key);
        out.append("=");
        out.append(v.as_str());
        out.append("\n");
        assert(out@ =~= old(out)@ + (key@ + "="@ + v@ + "\n"@));
    } else {
        assert(out@ =~= old(out)@ + Seq::<char>::empty());
    }
}

fn truth(chars: &Vec<char>, from: usize, to: usize) -> (r: Option<bool>)
    requires
        from <= to <= chars.len(),
    ensures
        r == flag(chars@.subrange(from as int, to as int)),
{
    if reads(chars, from, to, "true") || reads(chars, from, to, "1") || reads(
        chars,
        from,
        to,
        "yes",
    ) || reads(chars, from, to, "on") {
        Some(true)
    } else if reads(chars, from, to, "false") || reads(chars, from, to, "0") || reads(
        chars,
        from,
        to,
        "no",
    ) || reads(chars, from, to, "off") {
        Some(false)
    } else {
        None
    }
}

impl Context {
    /// Reads the line whose key lies in `from..eq` and whose value in `eq + 1..to`.
    fn assign(&mut self, chars: &Vec<char>, from: usize, eq: usize, to: usize)
        requires
            from <= eq < to <= chars.len(),
        ensures
            final(self)@ == old(self)@.assign(
                chars@.subrange(from as int, eq as int),
                chars@.subrange(eq + 1, to as int),
            ),
    {
        if reads(chars, from, eq, "protocol") {
            self.protocol = Some(string_of(chars, eq + 1, to));
        } else if reads(chars, from, eq, "host") {
            self.host = Some(string_of(chars, eq + 1, to));
        } else if reads(chars, from, eq, "path") {
            self.path = Some(string_of(chars, eq + 1, to));
        } else if reads(chars, from, eq, "username") {
            self.username = Some(string_of(chars, eq + 1, to));
        } else if reads(chars, from, eq, "password") {
            self.password = Some(string_of(chars, eq + 1, to));
        } else if reads(chars, from, eq, "url") {
            self.url = Some(string_of(chars, eq + 1, to));
        } else if reads(chars, from, eq, "quit") {
            self.quit = truth(chars, eq + 1, to);
        }
    }

    /// Writes the record out as text, a line for each field that is there.
    pub fn to_text(&self) -> (r: String)
        ensures
            r@ == self@.rendered(),
    {
        let mut out = String::new();
        write_line(&mut out, "url", &self.url);
        write_line(&mut out, "path", &self.path);
        write_line(&mut out, "protocol", &self.protocol);
        write_line(&mut out, "host", &self.host);
        write_line(&mut out, "username", &self.username);
        write_line(&mut out, "password", &self.password);
        let quit = match self.quit {
            Some(true) => Some("true".to_owned()),
            Some(false) => Some("false".to_owned()),
            None => None,
        };
        write_line(&mut out, "quit", &quit);
        assert(out@ =~= self@.rendered());
        out
    }

    /// Writes the record out as bytes, for a helper to read.
    pub fn to_bytes(&self) -> (r: Vec<u8>)
        ensures
            r@ == encode_utf8(self@.rendered()),
    {
        self.to_text().as_str().as_bytes_vec()
    }

    /// Reads a record from text, or returns `None` where the text is malformed.
    pub fn from_text(text: &str) -> (r: Option<Context>)
        ensures
            opt_context(r) == record(text@),
    {
        let chars = chars_of(text);
        let n = chars.len();
        let mut ctx = Context::default();
        let mut pos: usize = 0;
        assert(chars@.subrange(0, n as int) =~= text@);
        loop
            invariant
                pos <= n == chars.len(),
                record(text@) == record_onto(ctx@, chars@.subrange(pos as int, n as int)),
            decreases n - pos,
        {
            let eol = scan(&chars, pos, n, '\n');
            let eq = scan(&chars, pos, eol, '=');
            proof {
                lemma_line(chars@, pos as int, eol as int, eq as int);
            }
            if eol == pos {
                return Some(ctx);
            }
            if eq == eol {
                return None;
            }
            ctx.assign(&chars, pos, eq, eol);
            pos = if eol < n {
                eol + 1
            } else {
                n
            };
        }
    }

    /// Reads a record from bytes, or returns `None` where they are no text or the
    /// text is malformed.
    pub fn from_bytes(input: Vec<u8>) -> (r: Option<Context>)
        ensures
            opt_context(r) == decoded(input@),
    {
        match text_from_utf8(input) {
            Some(text) => Context::from_text(text.as_str()),
            None => None,
        }
    }
}

} // verus!

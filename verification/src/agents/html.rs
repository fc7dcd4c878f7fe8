//! Text extraction from HTML.
//!
//! The page is walked once from left to right. Plain text is copied with its
//! runs of white space collapsed, a fixed set of start and end tags turns into
//! Markdown-like layout, the bodies of `<script>` and `<style>` are dropped and
//! the body of `<title>` is kept apart. The addresses in other tags, of links and of
//! sources, are written out. Everything else between `<` and `>` is left out.

use vstd::prelude::*;

use crate::text;

verus! {

// ---- What a tag says ----------------------------------------------------

/// Whether `c` ends a tag's name.
pub open spec fn ends_name(c: char) -> bool {
    text::is_white(c) || c == '/' || c == '>'
}

/// The least index at or after `from` whose character ends a tag's name.
pub open spec fn name_end(s: Seq<char>, from: int) -> int
    decreases s.len() - from,
{
    if from >= s.len() {
        s.len() as int
    } else if ends_name(s[from]) {
        from
    } else {
        name_end(s, from + 1)
    }
}

/// The name of the tag whose text between `<` and `>` is `raw`: small letters,
/// with the leading slash when it is an end tag.
pub open spec fn tag_name(raw: Seq<char>) -> Seq<char> {
    let t = text::trim_start(text::lower(raw));
    if t.len() > 0 && t[0] == '/' {
        t.subrange(0, name_end(t, 1))
    } else {
        t.subrange(0, name_end(t, 0))
    }
}

/// Whether `c` ends an attribute's value that stands without quotes.
pub open spec fn ends_bareword(c: char) -> bool {
    text::is_white(c) || c == '>'
}

/// The least index at or after `from` whose character ends a bareword.
pub open spec fn bareword_end(s: Seq<char>, from: int) -> int
    decreases s.len() - from,
{
    if from >= s.len() {
        s.len() as int
    } else if ends_bareword(s[from]) {
        from
    } else {
        bareword_end(s, from + 1)
    }
}

/// The value of the attribute `name` in the tag text `tag`: what stands after
/// the first `name=`, between quotes or up to white space or `>`. A value
/// whose quote is never closed, and an empty rest, are no value.
pub open spec fn attr(tag: Seq<char>, name: Seq<char>) -> Option<Seq<char>> {
    match text::find(text::lower(tag), name.push('='), 0) {
        None => None,
        Some(pos) => {
            let at = pos + name.len() + 1;
            if at >= tag.len() {
                None
            } else if tag[at] == '"' || tag[at] == '\'' {
                let end = text::index_of(tag, tag[at], at + 1);
                if end < tag.len() {
                    Some(tag.subrange(at + 1, end))
                } else {
                    None
                }
            } else {
                Some(tag.subrange(at, bareword_end(tag, at)))
            }
        },
    }
}

/// The least index at or after `from` whose character ends a tag's name.
fn find_name_end(v: &[char], from: usize) -> (r: usize)
    requires
        from <= v.len(),
    ensures
        from <= r <= v.len(),
        r == name_end(v@, from as int),
{
    let mut i: usize = from;
    while i < v.len() && !(text::white(v[i]) || v[i] == '/' || v[i] == '>')
        invariant
            from <= i <= v.len(),
            name_end(v@, from as int) == name_end(v@, i as int),
        decreases v.len() - i,
    {
        i += 1;
    }
    i
}

/// The name of the tag whose text between `<` and `>` is `raw`.
fn name_of(raw: &[char]) -> (r: String)
    ensures
        r@ == tag_name(raw@),
{
    let low = text::to_lower_chars(raw);
    let n: usize = low.len();
    let a: usize = text::skip_white(low.as_slice(), 0, n);
    proof {
        assert(low@.subrange(0, n as int) == low@);
    }
    let t = text::string_of(low.as_slice(), a, n);
    let tv = text::chars_of(t.as_str());
    let from: usize = if tv.len() > 0 && tv[0] == '/' { 1 } else { 0 };
    let end: usize = find_name_end(tv.as_slice(), from);
    text::string_of(tv.as_slice(), 0, end)
}

/// The least index at or after `from` whose character ends a bareword.
fn find_bareword_end(v: &[char], from: usize) -> (r: usize)
    requires
        from <= v.len(),
    ensures
        from <= r <= v.len(),
        r == bareword_end(v@, from as int),
{
    let mut i: usize = from;
    while i < v.len() && !(text::white(v[i]) || v[i] == '>')
        invariant
            from <= i <= v.len(),
            bareword_end(v@, from as int) == bareword_end(v@, i as int),
        decreases v.len() - i,
    {
        i += 1;
    }
    i
}

/// The value of the attribute `name` in the tag text `tag`.
pub fn attr_value(tag: &[char], name: &str) -> (r: Option<String>)
    ensures
        text::opt_text(r) == attr(tag@, name@),
{
    let low = text::to_lower_chars(tag);
    let mut needle = text::chars_of(name);
    needle.push('=');
    match text::find_from(low.as_slice(), needle.as_slice(), 0) {
        None => None,
        Some(pos) => {
            proof {
                text::lemma_find(low@, needle@, 0);
                assert(text::has_at(low@, needle@, pos as int));
                assert(pos + needle.len() <= tag.len());
            }
            let at: usize = pos + needle.len();
            if at >= tag.len() {
                return None;
            }
            let q = tag[at];
            if q == '"' || q == '\'' {
                let end: usize = text::position_of(tag, q, at + 1);
                if end < tag.len() {
                    Some(text::string_of(tag, at + 1, end))
                } else {
                    None
                }
            } else {
                let end: usize = find_bareword_end(tag, at);
                Some(text::string_of(tag, at, end))
            }
        },
    }
}

// ---- What a page says ---------------------------------------------------

/// What has been made of a page so far.
pub struct Progress {
    /// The text written so far.
    pub out: Seq<char>,
    /// The title.
    pub title: Seq<char>,
    /// Inside `<script>` without an end in sight.
    pub in_script: bool,
    /// Inside `<style>` without an end in sight.
    pub in_style: bool,
    /// Inside `<pre>`, where white space is kept.
    pub in_pre: bool,
    /// How many lists are open.
    pub depth: nat,
    /// Whether white space that comes next is dropped.
    pub space: bool,
}

/// Nothing read yet; leading white space is dropped.
pub open spec fn start() -> Progress {
    Progress {
        out: Seq::empty(),
        title: Seq::empty(),
        in_script: false,
        in_style: false,
        in_pre: false,
        depth: 0,
        space: true,
    }
}

/// One character of text: kept inside `<pre>`; elsewhere a run of white space
/// becomes one space.
pub open spec fn put(st: Progress, c: char) -> Progress {
    if st.in_pre || !text::is_white(c) {
        Progress { out: st.out.push(c), space: false, ..st }
    } else if st.space {
        st
    } else {
        Progress { out: st.out.push(' '), space: true, ..st }
    }
}

/// `out` with an empty line at its end.
pub open spec fn blank_line(out: Seq<char>) -> Seq<char> {
    if text::ends_with(out, seq!['\n', '\n']) {
        out
    } else if text::ends_with(out, seq!['\n']) {
        out.push('\n')
    } else {
        out.push('\n').push('\n')
    }
}

/// `n` times two spaces.
pub open spec fn indent(n: nat) -> Seq<char> {
    Seq::new(2 * n, |i: int| ' ')
}

/// Whether `name` is the tag `base` or its end tag.
pub open spec fn is_tag_or_end(name: Seq<char>, base: Seq<char>) -> bool {
    name == base || name == seq!['/'] + base
}

/// Whether a tag of this name stands on lines of its own.
pub open spec fn is_block(name: Seq<char>) -> bool {
    ||| is_tag_or_end(name, "p"@)
    ||| is_tag_or_end(name, "div"@)
    ||| is_tag_or_end(name, "h1"@)
    ||| is_tag_or_end(name, "h2"@)
    ||| is_tag_or_end(name, "h3"@)
    ||| is_tag_or_end(name, "h4"@)
    ||| is_tag_or_end(name, "h5"@)
    ||| is_tag_or_end(name, "h6"@)
}

/// An address, when there is one, written out in brackets.
pub open spec fn with_address(st: Progress, address: Option<Seq<char>>) -> Progress {
    match address {
        Some(a) => if a.len() > 0 {
            Progress { out: st.out.push('(') + a.push(')'), space: false, ..st }
        } else {
            st
        },
        None => st,
    }
}

/// Whether a name is that of a comment, a declaration, an instruction or an end
/// tag.
pub open spec fn has_no_addresses(name: Seq<char>) -> bool {
    name.len() > 0 && (name[0] == '!' || name[0] == '?' || name[0] == '/')
}

/// What the tag `name`, with the text `raw` between `<` and `>`, writes and
/// switches.
pub open spec fn tag_effect(st: Progress, name: Seq<char>, raw: Seq<char>) -> Progress {
    if name == "script"@ {
        Progress { in_script: true, ..st }
    } else if name == "/script"@ {
        Progress { in_script: false, ..st }
    } else if name == "style"@ {
        Progress { in_style: true, ..st }
    } else if name == "/style"@ {
        Progress { in_style: false, ..st }
    } else if name == "pre"@ {
        Progress { in_pre: true, out: blank_line(st.out), space: true, ..st }
    } else if name == "/pre"@ {
        Progress { in_pre: false, out: blank_line(st.out), space: true, ..st }
    } else if name == "br"@ {
        if st.space {
            st
        } else {
            Progress { out: st.out.push('\n'), space: true, ..st }
        }
    } else if is_block(name) {
        Progress { out: blank_line(st.out), ..st }
    } else if name == "li"@ {
        Progress { out: st.out.push('\n') + indent(st.depth) + "- "@, space: false, ..st }
    } else if name == "ul"@ || name == "ol"@ {
        Progress { out: blank_line(st.out), depth: st.depth + 1, ..st }
    } else if name == "/ul"@ || name == "/ol"@ {
        Progress {
            out: blank_line(st.out),
            depth: if st.depth == 0 {
                0
            } else {
                (st.depth - 1) as nat
            },
            ..st
        }
    } else if has_no_addresses(name) {
        st
    } else {
        with_address(with_address(st, attr(raw, "href"@)), attr(raw, "src"@))
    }
}

/// One past the first `>` at or after `from`, else the end of the page.
pub open spec fn past_close(s: Seq<char>, from: int) -> int {
    let i = text::index_of(s, '>', from);
    if i < s.len() {
        i + 1
    } else {
        i
    }
}

/// The end tag that closes what is being dropped.
pub open spec fn dropped_end(st: Progress) -> Seq<char> {
    if st.in_script {
        "</script"@
    } else {
        "</style"@
    }
}

/// `st` with the block that is being dropped closed.
pub open spec fn close_dropped(st: Progress) -> Progress {
    if st.in_script {
        Progress { in_script: false, ..st }
    } else {
        Progress { in_style: false, ..st }
    }
}

/// The tag from `<` at `i` to `>` at `end`: where reading goes on, and with
/// what. A script or style block is left out up to its end tag; a title is
/// taken up to its end tag; any other tag is passed.
pub open spec fn read_tag(html: Seq<char>, i: int, end: int, st: Progress) -> (int, Progress) {
    let raw = html.subrange(i + 1, end);
    let name = tag_name(raw);
    let low = text::lower(html);
    let st1 = tag_effect(st, name, raw);
    let drop_to = text::find(low, dropped_end(st1), i);
    if (st1.in_script || st1.in_style) && drop_to is Some {
        (past_close(html, drop_to->0 + dropped_end(st1).len()), close_dropped(st1))
    } else {
        let title_to = text::find(low, "</title"@, end + 1);
        if name == "title"@ && title_to is Some {
            (
                past_close(html, title_to->0 + 7),
                Progress { title: text::trim(html.subrange(end + 1, title_to->0)), ..st1 },
            )
        } else {
            (end + 1, st1)
        }
    }
}

/// Reading goes on after the tag.
pub proof fn lemma_read_tag(html: Seq<char>, i: int, end: int, st: Progress)
    requires
        0 <= i < end < html.len(),
    ensures
        i < read_tag(html, i, end, st).0 <= html.len(),
{
    let raw = html.subrange(i + 1, end);
    let st1 = tag_effect(st, tag_name(raw), raw);
    let low = text::lower(html);
    reveal_strlit("</script");
    reveal_strlit("</style");
    reveal_strlit("</title");
    text::lemma_find(low, dropped_end(st1), i);
    text::lemma_find(low, "</title"@, end + 1);
    match text::find(low, dropped_end(st1), i) {
        Some(p) => {
            assert(text::has_at(low, dropped_end(st1), p));
            text::lemma_index_of(html, '>', p + dropped_end(st1).len());
        },
        None => {},
    }
    match text::find(low, "</title"@, end + 1) {
        Some(p) => {
            assert(text::has_at(low, "</title"@, p));
            text::lemma_index_of(html, '>', p + 7);
        },
        None => {},
    }
}

/// What the page from `i` on makes of `st`. A `<` that no `>` follows ends the
/// page.
pub open spec fn walk(html: Seq<char>, i: int, st: Progress) -> Progress
    decreases html.len() - i,
    when 0 <= i
{
    if i >= html.len() {
        st
    } else if html[i] != '<' {
        walk(html, i + 1, put(st, html[i]))
    } else {
        let end = text::index_of(html, '>', i);
        proof {
            text::lemma_index_of(html, '>', i);
            if end < html.len() {
                lemma_read_tag(html, i, end, st);
            }
        }
        if end >= html.len() {
            st
        } else {
            let (next, st1) = read_tag(html, i, end, st);
            walk(html, next, st1)
        }
    }
}

/// Whether a line holds white space only.
pub open spec fn is_blank(line: Seq<char>) -> bool {
    text::trim(line).len() == 0
}

/// The lines `v`, each ended by a line feed, without the blank lines that
/// follow a blank line.
pub open spec fn squeeze(v: Seq<Seq<char>>) -> Seq<char>
    decreases v.len(),
{
    if v.len() == 0 {
        Seq::empty()
    } else {
        let before = squeeze(v.drop_last());
        if v.len() > 1 && is_blank(v.last()) && is_blank(v[v.len() - 2]) {
            before
        } else {
            before + v.last().push('\n')
        }
    }
}

/// The title of a page.
pub open spec fn page_title(html: Seq<char>) -> Seq<char> {
    text::trim(walk(html, 0, start()).title)
}

/// The text of a page.
pub open spec fn page_text(html: Seq<char>) -> Seq<char> {
    text::trim(squeeze(text::lines(walk(html, 0, start()).out)))
}

// ---- Reading a page -----------------------------------------------------

/// The state of a page that is being read.
struct Page {
    out: String,
    title: String,
    in_script: bool,
    in_style: bool,
    in_pre: bool,
    depth: usize,
    space: bool,
}

impl View for Page {
    type V = Progress;

    closed spec fn view(&self) -> Progress {
        Progress {
            out: self.out@,
            title: self.title@,
            in_script: self.in_script,
            in_style: self.in_style,
            in_pre: self.in_pre,
            depth: self.depth as nat,
            space: self.space,
        }
    }
}

/// Put an empty line at the end of `out`.
pub fn push_blank_line(out: &mut String)
    ensures
        final(out)@ == blank_line(old(out)@),
{
    proof {
        reveal_strlit("\n\n");
        reveal_strlit("\n");
        assert("\n\n"@ == seq!['\n', '\n']);
        assert("\n"@ == seq!['\n']);
    }
    if !text::ends(out.as_str(), "\n\n") {
        if !text::ends(out.as_str(), "\n") {
            out.push('\n');
        }
        out.push('\n');
    }
}

impl Page {
    /// Nothing read yet.
    fn new() -> (r: Self)
        ensures
            r@ == start(),
    {
        Page {
            out: String::new(),
            title: String::new(),
            in_script: false,
            in_style: false,
            in_pre: false,
            depth: 0,
            space: true,
        }
    }

    /// Take one character of text.
    fn put(&mut self, c: char)
        ensures
            final(self)@ == put(old(self)@, c),
            final(self).depth == old(self).depth,
    {
        if self.in_pre || !text::white(c) {
            self.out.push(c);
            self.space = false;
        } else if !self.space {
            self.out.push(' ');
            self.space = true;
        }
    }

    /// Write out an address, when there is one.
    fn put_address(&mut self, address: Option<String>)
        ensures
            final(self)@ == with_address(old(self)@, text::opt_text(address)),
            final(self).depth == old(self).depth,
    {
        match address {
            Some(a) => {
                if !a.as_str().is_empty() {
                    let ghost base = self.out@;
                    self.out.push('(');
                    self.out.append(a.as_str());
                    self.out.push(')');
                    self.space = false;
                    assert(self.out@ == base.push('(') + a@.push(')'));
                }
            },
            None => {},
        }
    }

    /// Apply the tag `name` with the text `raw`.
    fn apply_tag(&mut self, name: &str, raw: &[char])
        requires
            old(self).depth < usize::MAX,
        ensures
            final(self)@ == tag_effect(old(self)@, name@, raw@),
            final(self).depth <= old(self).depth + 1,
    {
        proof {
            lemma_block_names();
        }
        if text::same(name, "script") {
            self.in_script = true;
        } else if text::same(name, "/script") {
            self.in_script = false;
        } else if text::same(name, "style") {
            self.in_style = true;
        } else if text::same(name, "/style") {
            self.in_style = false;
        } else if text::same(name, "pre") {
            self.in_pre = true;
            push_blank_line(&mut self.out);
            self.space = true;
        } else if text::same(name, "/pre") {
            self.in_pre = false;
            push_blank_line(&mut self.out);
            self.space = true;
        } else if text::same(name, "br") {
            if !self.space {
                self.out.push('\n');
                self.space = true;
            }
        } else if block_name(name) {
            push_blank_line(&mut self.out);
        } else if text::same(name, "li") {
            self.out.push('\n');
            let ghost base = self.out@;
            let mut k: usize = 0;
            while k < self.depth
                invariant
                    k <= self.depth,
                    self.depth == old(self).depth,
                    self.title == old(self).title,
                    self.in_script == old(self).in_script,
                    self.in_style == old(self).in_style,
                    self.in_pre == old(self).in_pre,
                    self.out@ == base + indent(k as nat),
                decreases self.depth - k,
            {
                self.out.append("  ");
                proof {
                    reveal_strlit("  ");
                    assert(indent(k as nat) + "  "@ == indent((k + 1) as nat));
                    assert(base + indent(k as nat) + "  "@ == base + (indent(k as nat) + "  "@));
                }
                k += 1;
            }
            self.out.append("- ");
            self.space = false;
        } else if text::same(name, "ul") || text::same(name, "ol") {
            self.depth += 1;
            push_blank_line(&mut self.out);
        } else if text::same(name, "/ul") || text::same(name, "/ol") {
            if self.depth > 0 {
                self.depth -= 1;
            }
            push_blank_line(&mut self.out);
        } else if !without_addresses(name) {
            self.put_address(attr_value(raw, "href"));
            self.put_address(attr_value(raw, "src"));
        }
    }
}

/// The names of the block tags and their end tags, spelt out.
proof fn lemma_block_names()
    ensures
        seq!['/'] + "p"@ == "/p"@,
        seq!['/'] + "div"@ == "/div"@,
        seq!['/'] + "h1"@ == "/h1"@,
        seq!['/'] + "h2"@ == "/h2"@,
        seq!['/'] + "h3"@ == "/h3"@,
        seq!['/'] + "h4"@ == "/h4"@,
        seq!['/'] + "h5"@ == "/h5"@,
        seq!['/'] + "h6"@ == "/h6"@,
{
    reveal_strlit("p");
    reveal_strlit("/p");
    reveal_strlit("div");
    reveal_strlit("/div");
    reveal_strlit("h1");
    reveal_strlit("/h1");
    reveal_strlit("h2");
    reveal_strlit("/h2");
    reveal_strlit("h3");
    reveal_strlit("/h3");
    reveal_strlit("h4");
    reveal_strlit("/h4");
    reveal_strlit("h5");
    reveal_strlit("/h5");
    reveal_strlit("h6");
    reveal_strlit("/h6");
}

/// Whether a tag of this name stands on lines of its own.
fn block_name(name: &str) -> (r: bool)
    ensures
        r == is_block(name@),
{
    proof {
        lemma_block_names();
    }
    text::same(name, "p") || text::same(name, "/p") || text::same(name, "div") || text::same(
        name,
        "/div",
    ) || text::same(name, "h1") || text::same(name, "/h1") || text::same(name, "h2") || text::same(
        name,
        "/h2",
    ) || text::same(name, "h3") || text::same(name, "/h3") || text::same(name, "h4") || text::same(
        name,
        "/h4",
    ) || text::same(name, "h5") || text::same(name, "/h5") || text::same(name, "h6") || text::same(
        name,
        "/h6",
    )
}

/// Whether a name is that of a comment, a declaration, an instruction or an end
/// tag.
fn without_addresses(name: &str) -> (r: bool)
    ensures
        r == has_no_addresses(name@),
{
    let v = text::chars_of(name);
    v.len() > 0 && (v[0] == '!' || v[0] == '?' || v[0] == '/')
}

/// One past the first `>` at or after `from`, else the end.
fn find_past_close(v: &[char], from: usize) -> (r: usize)
    requires
        from <= v.len(),
    ensures
        r == past_close(v@, from as int),
        r <= v.len(),
{
    let i: usize = text::position_of(v, '>', from);
    if i < v.len() {
        i + 1
    } else {
        i
    }
}

/// The title and the text of a page.
pub fn extract_html_text(html: &str) -> (r: (String, String))
    ensures
        r.0@ == page_title(html@),
        r.1@ == page_text(html@),
{
    let v = text::chars_of(html);
    let low = text::to_lower_chars(v.as_slice());
    let script_end = text::chars_of("</script");
    let style_end = text::chars_of("</style");
    let title_end = text::chars_of("</title");
    let mut page = Page::new();
    let mut i: usize = 0;
    proof {
        reveal_strlit("</script");
        reveal_strlit("</style");
        reveal_strlit("</title");
    }
    while i < v.len()
        invariant_except_break
            walk(html@, i as int, page@) == walk(html@, 0, start()),
        invariant
            i <= v.len(),
            v@ == html@,
            low@ == text::lower(html@),
            script_end@ == "</script"@,
            style_end@ == "</style"@,
            title_end@ == "</title"@,
            script_end.len() == 8,
            style_end.len() == 7,
            title_end.len() == 7,
            page.depth <= i,
        ensures
            page@ == walk(html@, 0, start()),
        decreases v.len() - i,
    {
        if v[i] != '<' {
            page.put(v[i]);
            i += 1;
            continue;
        }
        let end: usize = text::position_of(v.as_slice(), '>', i);
        if end >= v.len() {
            break;
        }
        let ghost before = page@;
        proof {
            lemma_read_tag(html@, i as int, end as int, before);
        }
        let raw_text = text::string_of(v.as_slice(), i + 1, end);
        let raw = text::chars_of(raw_text.as_str());
        let name = name_of(raw.as_slice());
        page.apply_tag(name.as_str(), raw.as_slice());
        let ghost after = page@;
        if page.in_script || page.in_style {
            let in_script = page.in_script;
            let found = if in_script {
                text::find_from(low.as_slice(), script_end.as_slice(), i)
            } else {
                text::find_from(low.as_slice(), style_end.as_slice(), i)
            };
            match found {
                Some(p) => {
                    let k: usize = if in_script { 8 } else { 7 };
                    proof {
                        text::lemma_find(low@, dropped_end(after), i as int);
                        assert(text::has_at(low@, dropped_end(after), p as int));
                        assert(p + k <= v.len());
                    }
                    let next: usize = find_past_close(v.as_slice(), p + k);
                    if in_script {
                        page.in_script = false;
                    } else {
                        page.in_style = false;
                    }
                    i = next;
                    continue;
                },
                None => {},
            }
        }
        if text::same(name.as_str(), "title") {
            match text::find_from(low.as_slice(), title_end.as_slice(), end + 1) {
                Some(p) => {
                    proof {
                        text::lemma_find(low@, "</title"@, end + 1);
                        assert(text::has_at(low@, "</title"@, p as int));
                        assert(p + 7 <= v.len());
                    }
                    let (a, b) = text::trim_range(v.as_slice(), end + 1, p);
                    page.title = text::string_of(v.as_slice(), a, b);
                    i = find_past_close(v.as_slice(), p + 7);
                    continue;
                },
                None => {},
            }
        }
        i = end + 1;
    }
    let all = text::lines_of(page.out.as_str());
    let cleaned = squeeze_lines(&all);
    (text::trimmed(page.title.as_str()), text::trimmed(cleaned.as_str()))
}

/// The lines `v` without the blank lines that follow a blank line.
fn squeeze_lines(v: &Vec<String>) -> (r: String)
    ensures
        r@ == squeeze(text::texts(v@)),
{
    let mut out = String::new();
    let mut previous_blank = false;
    let mut k: usize = 0;
    while k < v.len()
        invariant
            k <= v.len(),
            out@ == squeeze(text::texts(v@).take(k as int)),
            previous_blank == (k > 0 && is_blank(text::texts(v@)[k - 1])),
        decreases v.len() - k,
    {
        let line = text::trimmed(v[k].as_str());
        let blank = line.as_str().is_empty();
        proof {
            assert(text::texts(v@).take(k + 1).drop_last() == text::texts(v@).take(k as int));
        }
        if !(blank && previous_blank) {
            let ghost base = out@;
            out.append(v[k].as_str());
            out.push('\n');
            assert(out@ == base + v@[k as int]@.push('\n'));
        }
        previous_blank = blank;
        k += 1;
    }
    assert(text::texts(v@).take(k as int) == text::texts(v@));
    out
}

// ---- Laws ---------------------------------------------------------------

/// Whether a page is text alone: no markup, and no white space but single spaces
/// between other characters.
pub open spec fn is_plain(html: Seq<char>) -> bool {
    &&& forall|i: int| 0 <= i < html.len() ==> #[trigger] html[i] != '<'
    &&& forall|i: int|
        0 <= i < html.len() && text::is_white(#[trigger] html[i]) ==> {
            &&& html[i] == ' '
            &&& 0 < i < html.len() - 1
            &&& !text::is_white(html[i - 1])
        }
}

/// Text alone is taken over character by character.
proof fn lemma_plain_walk(html: Seq<char>, i: int, st: Progress)
    requires
        is_plain(html),
        0 <= i <= html.len(),
        !st.in_pre,
        st.out == html.take(i),
        st.space == (i == 0 || text::is_white(html[i - 1])),
    ensures
        walk(html, i, st).out == html,
        walk(html, i, st).title == st.title,
    decreases html.len() - i,
{
    if i < html.len() {
        assert(html[i] != '<');
        assert(html.take(i + 1) =~= html.take(i).push(html[i]));
        if text::is_white(html[i]) {
            assert(!text::is_white(html[i - 1]));
        }
        lemma_plain_walk(html, i + 1, put(st, html[i]));
    } else {
        assert(html.take(i) =~= html);
    }
}

/// A page that is text alone comes out unchanged, whatever characters it has, and
/// has no title.
pub proof fn law_plain_text_is_unchanged(html: Seq<char>)
    requires
        is_plain(html),
    ensures
        page_text(html) == html,
        page_title(html) == Seq::<char>::empty(),
{
    assert(start().out =~= html.take(0));
    lemma_plain_walk(html, 0, start());
    reveal_with_fuel(squeeze, 3);
    reveal_with_fuel(text::lines, 2);
    reveal_with_fuel(text::trim_end, 3);
    text::lemma_index_of(html, '\n', 0);
    if html.len() == 0 {
        assert(html =~= Seq::empty());
        assert(text::lines(html) =~= Seq::empty());
    } else {
        let k = text::index_of(html, '\n', 0);
        if k < html.len() {
            assert(html[k] == '\n');
            assert(text::is_white(html[k]));
        }
        let all = text::lines(html);
        assert(all =~= seq![html]);
        assert(all.drop_last() =~= Seq::empty());
        let s = squeeze(all);
        assert(s =~= html.push('\n'));
        assert(!text::is_white(html[0]));
        assert(s[0] == html[0]);
        assert(text::trim_start(s) == s);
        assert(s.subrange(0, s.len() - 1) =~= html);
        assert(!text::is_white(html[html.len() - 1]));
        assert(text::trim_end(s) == html);
    }
}

/// Nothing between a script's or a style's start tag and its end tag comes out:
/// the page reads as if it went on behind the end tag.
pub proof fn law_script_and_style_are_dropped(html: Seq<char>, i: int, p: int, st: Progress)
    requires
        0 <= i < html.len(),
        html[i] == '<',
        text::index_of(html, '>', i) < html.len(),
        !st.in_script,
        !st.in_style,
        ({
            let name = tag_name(html.subrange(i + 1, text::index_of(html, '>', i)));
            ||| name == "script"@ && text::find(text::lower(html), "</script"@, i) == Some(p)
            ||| name == "style"@ && text::find(text::lower(html), "</style"@, i) == Some(p)
        }),
    ensures
        ({
            let name = tag_name(html.subrange(i + 1, text::index_of(html, '>', i)));
            walk(html, i, st) == walk(html, past_close(html, p + name.len() + 2), st)
        }),
{
    let end = text::index_of(html, '>', i);
    let raw = html.subrange(i + 1, end);
    reveal_strlit("script");
    reveal_strlit("style");
    reveal_strlit("</script");
    reveal_strlit("</style");
    reveal_strlit("/script");
    text::lemma_index_of(html, '>', i);
    assert(i < end) by {
        assert(html[i] != '>');
    }
    assert("script"@.len() == 6 && "style"@.len() == 5);
    assert("</script"@.len() == 8 && "</style"@.len() == 7);
    let st1 = tag_effect(st, tag_name(raw), raw);
    assert(close_dropped(st1) == st);
    let next = read_tag(html, i, end, st);
    assert(next.1 == st);
    lemma_read_tag(html, i, end, st);
    assert(walk(html, i, st) == walk(html, next.0, next.1));
}

/// A character that is no white space comes out as it is; white space comes out as one
/// blank, and not at all after other white space; inside preformatted text it stays.
pub proof fn law_characters_come_out(st: Progress, c: char)
    ensures
        !text::is_white(c) ==> put(st, c).out == st.out.push(c) && !put(st, c).space,
        text::is_white(c) && st.in_pre ==> put(st, c).out == st.out.push(c),
        text::is_white(c) && !st.in_pre && !st.space ==> put(st, c).out == st.out.push(' ')
            && put(st, c).space,
        text::is_white(c) && !st.in_pre && st.space ==> put(st, c) == st,
        put(st, c).title == st.title && put(st, c).in_pre == st.in_pre && put(st, c).depth
            == st.depth,
{
}

/// A blank line is made with as many line ends as it takes: two, after none.
pub proof fn law_blank_line(out: Seq<char>)
    ensures
        blank_line(out).len() >= 2 ==> text::ends_with(blank_line(out), seq!['\n', '\n']),
        out.len() <= blank_line(out).len() <= out.len() + 2,
        blank_line(out).take(out.len() as int) == out,
        forall|i: int|
            out.len() <= i < blank_line(out).len() ==> #[trigger] blank_line(out)[i] == '\n',
        text::ends_with(out, seq!['\n', '\n']) ==> blank_line(out) == out,
        !text::ends_with(out, seq!['\n']) ==> blank_line(out) == out + seq!['\n', '\n'],
{
    let b = blank_line(out);
    assert(b.take(out.len() as int) =~= out);
    if text::ends_with(out, seq!['\n', '\n']) {
        assert(out.subrange(out.len() - 2, out.len() as int)[1] == out.last());
        assert(out.subrange(out.len() - 1, out.len() as int) =~= seq!['\n']);
    }
    if !text::ends_with(out, seq!['\n', '\n']) {
        if text::ends_with(out, seq!['\n']) {
            assert(out.last() == '\n') by {
                assert(out.subrange(out.len() - 1, out.len() as int)[0] == out.last());
            }
        }
        assert(b.subrange(b.len() - 2, b.len() as int) =~= seq!['\n', '\n']);
        if !text::ends_with(out, seq!['\n']) {
            assert(b =~= out + seq!['\n', '\n']);
        }
    }
}

/// What a tag does: a break ends the line; headings, paragraphs and sections stand apart;
/// an item of a list begins a line of its own, indented by the lists around it; lists
/// nest; preformatted text begins and ends.
pub proof fn law_what_tags_do(st: Progress, raw: Seq<char>)
    ensures
        !st.space ==> tag_effect(st, "br"@, raw).out == st.out.push('\n'),
        tag_effect(st, "li"@, raw).out == st.out.push('\n') + Seq::new(
            2 * st.depth,
            |i: int| ' ',
        ) + "- "@,
        tag_effect(st, "ul"@, raw).depth == st.depth + 1,
        tag_effect(st, "ol"@, raw).depth == st.depth + 1,
        st.depth > 0 ==> tag_effect(st, "/ul"@, raw).depth == st.depth - 1,
        st.depth > 0 ==> tag_effect(st, "/ol"@, raw).depth == st.depth - 1,
        st.depth == 0 ==> tag_effect(st, "/ul"@, raw).depth == 0,
        tag_effect(st, "pre"@, raw).in_pre && !tag_effect(st, "/pre"@, raw).in_pre,
        tag_effect(st, "script"@, raw).in_script && !tag_effect(st, "/script"@, raw).in_script,
        tag_effect(st, "style"@, raw).in_style && !tag_effect(st, "/style"@, raw).in_style,
        tag_effect(st, "p"@, raw).out == blank_line(st.out),
        tag_effect(st, "/p"@, raw).out == blank_line(st.out),
        tag_effect(st, "div"@, raw).out == blank_line(st.out),
        tag_effect(st, "/div"@, raw).out == blank_line(st.out),
        tag_effect(st, "h1"@, raw).out == blank_line(st.out),
        tag_effect(st, "/h1"@, raw).out == blank_line(st.out),
        tag_effect(st, "h2"@, raw).out == blank_line(st.out),
        tag_effect(st, "/h2"@, raw).out == blank_line(st.out),
        tag_effect(st, "h3"@, raw).out == blank_line(st.out),
        tag_effect(st, "/h3"@, raw).out == blank_line(st.out),
        tag_effect(st, "h4"@, raw).out == blank_line(st.out),
        tag_effect(st, "/h4"@, raw).out == blank_line(st.out),
        tag_effect(st, "h5"@, raw).out == blank_line(st.out),
        tag_effect(st, "/h5"@, raw).out == blank_line(st.out),
        tag_effect(st, "h6"@, raw).out == blank_line(st.out),
        tag_effect(st, "/h6"@, raw).out == blank_line(st.out),
        tag_effect(st, "ul"@, raw).out == blank_line(st.out),
        tag_effect(st, "/ol"@, raw).out == blank_line(st.out),
        tag_effect(st, "pre"@, raw).out == blank_line(st.out),
        tag_effect(st, "/pre"@, raw).out == blank_line(st.out),
{
    reveal_strlit("script");
    reveal_strlit("/script");
    reveal_strlit("style");
    reveal_strlit("/style");
    reveal_strlit("pre");
    reveal_strlit("/pre");
    reveal_strlit("br");
    reveal_strlit("li");
    reveal_strlit("ul");
    reveal_strlit("ol");
    reveal_strlit("/ul");
    reveal_strlit("/ol");
    reveal_strlit("p");
    reveal_strlit("div");
    reveal_strlit("h1");
    reveal_strlit("h2");
    reveal_strlit("h3");
    reveal_strlit("h4");
    reveal_strlit("h5");
    reveal_strlit("h6");
    reveal_strlit("/p");
    reveal_strlit("/div");
    reveal_strlit("/h1");
    reveal_strlit("/h2");
    reveal_strlit("/h3");
    reveal_strlit("/h4");
    reveal_strlit("/h5");
    reveal_strlit("/h6");
    assert("script"@.len() == 6);
    assert("/script"@.len() == 7);
    assert("style"@.len() == 5);
    assert("/style"@.len() == 6);
    assert("pre"@.len() == 3);
    assert("/pre"@.len() == 4);
    assert("br"@.len() == 2);
    assert("li"@.len() == 2);
    assert("ul"@.len() == 2);
    assert("ol"@.len() == 2);
    assert("/ul"@.len() == 3);
    assert("/ol"@.len() == 3);
    assert("p"@.len() == 1);
    assert("div"@.len() == 3);
    assert("h1"@.len() == 2);
    assert("h2"@.len() == 2);
    assert("h3"@.len() == 2);
    assert("h4"@.len() == 2);
    assert("h5"@.len() == 2);
    assert("h6"@.len() == 2);
    assert("/p"@.len() == 2);
    assert("/div"@.len() == 4);
    assert("/h1"@.len() == 3);
    assert("/h2"@.len() == 3);
    assert("/h3"@.len() == 3);
    assert("/h4"@.len() == 3);
    assert("/h5"@.len() == 3);
    assert("/h6"@.len() == 3);
    assert("script"@[0] == 's');
    assert("/style"@[0] == '/');
    assert("pre"@[0] == 'p');
    assert("/ul"@[0] == '/');
    assert("/ol"@[0] == '/');
    assert("div"@[0] == 'd');
    assert("/h1"@[0] == '/');
    assert("/h2"@[0] == '/');
    assert("/h3"@[0] == '/');
    assert("/h4"@[0] == '/');
    assert("/h5"@[0] == '/');
    assert("/h6"@[0] == '/');
    assert("/pre"@[1] == 'p');
    assert("/div"@[1] == 'd');
    assert("br"@[0] == 'b');
    assert("li"@[0] == 'l');
    assert("ul"@[0] == 'u');
    assert("ol"@[0] == 'o');
    assert("h1"@[0] == 'h');
    assert("h2"@[0] == 'h');
    assert("h3"@[0] == 'h');
    assert("h4"@[0] == 'h');
    assert("h5"@[0] == 'h');
    assert("h6"@[0] == 'h');
    assert("/p"@[0] == '/');
    assert("/ul"@[1] == 'u');
    assert("/ol"@[1] == 'o');
    assert("/h1"@[1] == 'h');
    assert("/h2"@[1] == 'h');
    assert("/h3"@[1] == 'h');
    assert("/h4"@[1] == 'h');
    assert("/h5"@[1] == 'h');
    assert("/h6"@[1] == 'h');
    assert("h1"@[1] == '1');
    assert("h2"@[1] == '2');
    assert("h3"@[1] == '3');
    assert("h4"@[1] == '4');
    assert("h5"@[1] == '5');
    assert("h6"@[1] == '6');
    assert("/h1"@[2] == '1');
    assert("/h2"@[2] == '2');
    assert("/h3"@[2] == '3');
    assert("/h4"@[2] == '4');
    assert("/h5"@[2] == '5');
    assert("/h6"@[2] == '6');
    assert(seq!['/'] + "p"@ =~= "/p"@);
    assert(seq!['/'] + "div"@ =~= "/div"@);
    assert(seq!['/'] + "h1"@ =~= "/h1"@);
    assert(seq!['/'] + "h2"@ =~= "/h2"@);
    assert(seq!['/'] + "h3"@ =~= "/h3"@);
    assert(seq!['/'] + "h4"@ =~= "/h4"@);
    assert(seq!['/'] + "h5"@ =~= "/h5"@);
    assert(seq!['/'] + "h6"@ =~= "/h6"@);
}

/// Every tag leaves what has come out before, and the title.
pub proof fn law_tags_only_add(st: Progress, name: Seq<char>, raw: Seq<char>)
    ensures
        tag_effect(st, name, raw).out.len() >= st.out.len(),
        tag_effect(st, name, raw).out.take(st.out.len() as int) == st.out,
        tag_effect(st, name, raw).title == st.title,
{
    law_blank_line(st.out);
    let r = tag_effect(st, name, raw);
    assert(r.out.take(st.out.len() as int) =~= st.out);
}

/// An attribute in quotes is what stands between them.
pub proof fn law_attribute_is_between_its_quotes(
    a: Seq<char>,
    n: Seq<char>,
    q: char,
    v: Seq<char>,
    b: Seq<char>,
    name: Seq<char>,
)
    requires
        q == '"' || q == '\'',
        n.len() == name.len(),
        forall|i: int| 0 <= i < v.len() ==> #[trigger] v[i] != q,
        text::find(text::lower(a + n + seq!['=', q] + v + seq![q] + b), name.push('='), 0) == Some(
            a.len() as int,
        ),
    ensures
        attr(a + n + seq!['=', q] + v + seq![q] + b, name) == Some(v),
{
    let tag = a + n + seq!['=', q] + v + seq![q] + b;
    let at = a.len() + n.len() + 1;
    assert(tag[at as int] == q);
    let end = at + 1 + v.len();
    assert(tag[end as int] == q);
    text::lemma_index_of(tag, q, at as int + 1);
    let i = text::index_of(tag, q, at as int + 1);
    assert forall|j: int| at + 1 <= j < end implies #[trigger] tag[j] != q by {
        assert(tag[j] == v[j - (at + 1)]);
    }
    assert(i == end) by {
        if i < end {
            assert(tag[i] != q);
        }
    }
    assert(tag.subrange(at as int + 1, end as int) =~= v);
}

/// Text without markup between two places of a page comes out between them.
proof fn lemma_walk_text(html: Seq<char>, i: int, t: Seq<char>, st: Progress)
    requires
        0 <= i,
        i + t.len() <= html.len(),
        html.subrange(i, i + t.len()) == t,
        is_plain(t),
        t.len() > 0,
        !st.in_pre,
    ensures
        walk(html, i, st) == walk(
            html,
            i + t.len(),
            Progress { out: st.out + t, space: false, ..st },
        ),
{
    assert(html[i] == t[0]);
    assert(t.take(1) =~= seq![t[0]]);
    assert(!text::is_white(t[0]));
    assert(st.out + t.take(1) =~= st.out.push(t[0]));
    lemma_walk_text_from(html, i, t, st, 1);
}

proof fn lemma_walk_text_from(html: Seq<char>, i: int, t: Seq<char>, st: Progress, k: int)
    requires
        0 <= i,
        i + t.len() <= html.len(),
        html.subrange(i, i + t.len()) == t,
        is_plain(t),
        1 <= k <= t.len(),
        !st.in_pre,
    ensures
        walk(
            html,
            i + k,
            Progress { out: st.out + t.take(k), space: text::is_white(t[k - 1]), ..st },
        ) == walk(html, i + t.len(), Progress { out: st.out + t, space: false, ..st }),
    decreases t.len() - k,
{
    let here = Progress { out: st.out + t.take(k), space: text::is_white(t[k - 1]), ..st };
    if k < t.len() {
        assert(html[i + k] == t[k]) by {
            assert(html.subrange(i, i + t.len())[k] == html[i + k]);
        }
        assert(t[k] != '<');
        assert(st.out + t.take(k + 1) =~= (st.out + t.take(k)).push(t[k]));
        if text::is_white(t[k]) {
            assert(!text::is_white(t[k - 1]));
        }
        lemma_walk_text_from(html, i, t, st, k + 1);
    } else {
        assert(t.take(k) =~= t);
        assert(!text::is_white(t[t.len() - 1]));
    }
}

/// A tag between two places of a page does what its name says.
proof fn lemma_walk_tag(html: Seq<char>, i: int, raw: Seq<char>, st: Progress)
    requires
        0 <= i,
        i + raw.len() + 2 <= html.len(),
        html[i] == '<',
        html.subrange(i + 1, i + 1 + raw.len()) == raw,
        html[i + 1 + raw.len()] == '>',
        forall|k: int| 0 <= k < raw.len() ==> #[trigger] raw[k] != '>',
        tag_name(raw) != "title"@,
        !tag_effect(st, tag_name(raw), raw).in_script,
        !tag_effect(st, tag_name(raw), raw).in_style,
    ensures
        walk(html, i, st) == walk(
            html,
            i + raw.len() + 2,
            tag_effect(st, tag_name(raw), raw),
        ),
{
    let end = i + 1 + raw.len();
    text::lemma_index_of(html, '>', i);
    let e = text::index_of(html, '>', i);
    assert(e == end) by {
        if e < end {
            assert(html[e] == '>');
            if e > i {
                assert(html.subrange(i + 1, i + 1 + raw.len())[e - i - 1] == html[e]);
                assert(raw[e - i - 1] != '>');
            }
        }
    }
    lemma_read_tag(html, i, end, st);
    assert(html.subrange(i + 1, end) == raw);
}

/// A name that nothing ends is a name as it stands.
proof fn lemma_name_end(s: Seq<char>, from: int, k: int)
    requires
        0 <= from <= k <= s.len(),
        forall|i: int| from <= i < k ==> !ends_name(#[trigger] s[i]),
        k == s.len() || ends_name(s[k]),
    ensures
        name_end(s, from) == k,
    decreases k - from,
{
    if from < k {
        assert(!ends_name(s[from]));
        lemma_name_end(s, from + 1, k);
    }
}

/// A page that holds text in order, blank line by blank line, is read in that order:
/// what is written out is trimmed and its lines are kept.
proof fn lemma_two_lines(a: Seq<char>, b: Seq<char>)
    requires
        is_plain(a),
        is_plain(b),
        a.len() > 0,
        b.len() > 0,
    ensures
        text::trim(squeeze(text::lines(seq!['\n', '\n'] + a + seq!['\n', '\n'] + b))) == a + seq![
            '\n',
            '\n',
        ] + b,
{
    let e = Seq::<char>::empty();
    lemma_plain_has_no_line_end(a);
    lemma_plain_has_no_line_end(b);
    let s = seq!['\n', '\n'] + a + seq!['\n', '\n'] + b;
    let s1 = seq!['\n'] + a + seq!['\n', '\n'] + b;
    let s2 = a + seq!['\n', '\n'] + b;
    let s3 = seq!['\n'] + b;
    assert(s =~= e + seq!['\n'] + s1);
    text::law_lines_end_at_line_ends(e, s1);
    assert(s1 =~= e + seq!['\n'] + s2);
    text::law_lines_end_at_line_ends(e, s2);
    assert(s2 =~= a + seq!['\n'] + s3);
    text::law_lines_end_at_line_ends(a, s3);
    assert(s3 =~= e + seq!['\n'] + b);
    text::law_lines_end_at_line_ends(e, b);
    text::law_lines_end_at_line_ends(b, e);
    let v = text::lines(s);
    assert(v =~= seq![e, e, a, e, b]);
    text::law_trim_takes_only_outer_white(e);
    text::law_trim_takes_only_outer_white(a);
    text::law_trim_takes_only_outer_white(b);
    assert(is_blank(e) && !is_blank(a) && !is_blank(b));
    reveal_with_fuel(squeeze, 6);
    let v4 = v.drop_last();
    let v3 = v4.drop_last();
    let v2 = v3.drop_last();
    let v1 = v2.drop_last();
    assert(v4 =~= seq![e, e, a, e] && v3 =~= seq![e, e, a] && v2 =~= seq![e, e] && v1 =~= seq![e]);
    assert(v1.drop_last() =~= Seq::<Seq<char>>::empty());
    assert(squeeze(v1) =~= seq!['\n']);
    assert(squeeze(v2) =~= seq!['\n']);
    assert(squeeze(v3) =~= seq!['\n'] + a + seq!['\n']);
    assert(squeeze(v4) =~= seq!['\n'] + a + seq!['\n', '\n']);
    let out = squeeze(v);
    let inner = a + seq!['\n', '\n'] + b;
    assert(out =~= seq!['\n'] + inner + seq!['\n']);
    lemma_trim_around(inner);
}

proof fn lemma_plain_has_no_line_end(a: Seq<char>)
    requires
        is_plain(a),
        a.len() > 0,
    ensures
        forall|i: int| 0 <= i < a.len() ==> #[trigger] a[i] != '\n',
        a.last() != '\r',
        !text::is_white(a[0]) && !text::is_white(a.last()),
{
    assert forall|i: int| 0 <= i < a.len() implies #[trigger] a[i] != '\n' by {
        if a[i] == '\n' {
            assert(text::is_white(a[i]));
        }
    }
    assert(!text::is_white(a[0]));
    assert(!text::is_white(a[a.len() - 1]));
}

proof fn lemma_trim_around(s: Seq<char>)
    requires
        s.len() > 0,
        !text::is_white(s[0]),
        !text::is_white(s.last()),
    ensures
        text::trim(seq!['\n'] + s + seq!['\n']) == s,
        text::trim(s.push('\n')) == s,
{
    let t = seq!['\n'] + s + seq!['\n'];
    assert(t.subrange(1, t.len() as int) =~= s.push('\n'));
    reveal_with_fuel(text::trim_start, 3);
    reveal_with_fuel(text::trim_end, 3);
    let r = s.push('\n');
    assert(r[0] == s[0]);
    assert(text::trim_start(r) == r);
    assert(r.subrange(0, r.len() - 1) =~= s);
    assert(text::trim_end(r) == s);
}

/// Paragraphs come out in their order, apart from each other, without their tags.
pub proof fn law_paragraphs_come_out_apart(a: Seq<char>, b: Seq<char>)
    requires
        is_plain(a),
        is_plain(b),
        a.len() > 0,
        b.len() > 0,
    ensures
        page_text("<p>"@ + a + "</p>"@ + b) == a + seq!['\n', '\n'] + b,
        page_title("<p>"@ + a + "</p>"@ + b) == Seq::<char>::empty(),
{
    reveal_strlit("<p>");
    reveal_strlit("</p>");
    reveal_strlit("p");
    reveal_strlit("/p");
    reveal_strlit("title");
    let html = "<p>"@ + a + "</p>"@ + b;
    let open = seq!['p'];
    let close = seq!['/', 'p'];
    assert("p"@ =~= open && "/p"@ =~= close);
    assert("title"@.len() == 5);
    lemma_simple_name(open);
    lemma_simple_name(close);
    let st = start();
    law_what_tags_do(st, open);
    law_blank_line(st.out);
    assert(html.subrange(1, 2) =~= open);
    lemma_block_keeps_rest(st, "p"@, open);
    lemma_walk_tag(html, 0, open, st);
    let st1 = tag_effect(st, open, open);
    assert(st1.out =~= seq!['\n', '\n']);
    assert(html.subrange(3, 3 + a.len() as int) =~= a);
    lemma_walk_text(html, 3, a, st1);
    let st2 = Progress { out: st1.out + a, space: false, ..st1 };
    let k = 3 + a.len() as int;
    assert(html[k] == '<');
    assert(html.subrange(k + 1, k + 3) =~= close);
    law_what_tags_do(st2, close);
    law_blank_line(st2.out);
    lemma_block_keeps_rest(st2, "/p"@, close);
    lemma_walk_tag(html, k, close, st2);
    let st3 = tag_effect(st2, close, close);
    lemma_plain_has_no_line_end(a);
    assert(!text::ends_with(st2.out, seq!['\n'])) by {
        assert(st2.out.last() == a.last());
        assert(!text::is_white(a.last()));
        if text::ends_with(st2.out, seq!['\n']) {
            assert(st2.out.subrange(st2.out.len() - 1, st2.out.len() as int)[0] == '\n');
        }
    }
    assert(st3.out =~= seq!['\n', '\n'] + a + seq!['\n', '\n']);
    assert(html.subrange(k + 4, k + 4 + b.len()) =~= b);
    lemma_walk_text(html, k + 4, b, st3);
    let last = Progress { out: st3.out + b, space: false, ..st3 };
    assert(html.len() == k + 4 + b.len());
    assert(walk(html, html.len() as int, last) == last);
    assert(walk(html, 0, start()) == last);
    lemma_two_lines(a, b);
    assert(last.title =~= Seq::<char>::empty());
    text::law_trim_takes_only_outer_white(Seq::<char>::empty());
}

/// A section changes nothing but what has come out.
proof fn lemma_block_keeps_rest(st: Progress, name: Seq<char>, raw: Seq<char>)
    requires
        name == "p"@ || name == "/p"@,
    ensures
        tag_effect(st, name, raw) == (Progress { out: blank_line(st.out), ..st }),
{
    reveal_strlit("script");
    reveal_strlit("/script");
    reveal_strlit("style");
    reveal_strlit("/style");
    reveal_strlit("pre");
    reveal_strlit("/pre");
    reveal_strlit("br");
    reveal_strlit("li");
    reveal_strlit("ul");
    reveal_strlit("ol");
    reveal_strlit("/ul");
    reveal_strlit("/ol");
    reveal_strlit("p");
    reveal_strlit("/p");
    assert("script"@.len() == 6);
    assert("/script"@.len() == 7);
    assert("style"@.len() == 5);
    assert("/style"@.len() == 6);
    assert("pre"@.len() == 3);
    assert("/pre"@.len() == 4);
    assert("br"@.len() == 2);
    assert("li"@.len() == 2);
    assert("ul"@.len() == 2);
    assert("ol"@.len() == 2);
    assert("/ul"@.len() == 3);
    assert("/ol"@.len() == 3);
    assert("p"@.len() == 1);
    assert("/p"@.len() == 2);
    assert("script"@[0] == 's');
    assert("/style"@[0] == '/');
    assert("pre"@[0] == 'p');
    assert("/ul"@[0] == '/');
    assert("/ol"@[0] == '/');
    assert("br"@[0] == 'b');
    assert("li"@[0] == 'l');
    assert("ul"@[0] == 'u');
    assert("ol"@[0] == 'o');
    assert("/p"@[0] == '/');
    assert("/ul"@[1] == 'u');
    assert("/ol"@[1] == 'o');
    assert(seq!['/'] + "p"@ =~= "/p"@);
}

/// A short small name is the name of its tag.
proof fn lemma_simple_name(raw: Seq<char>)
    requires
        raw.len() > 0,
        forall|i: int| 0 <= i < raw.len() ==> 'a' <= #[trigger] raw[i] <= 'z' || (i == 0 && raw[i]
            == '/'),
    ensures
        tag_name(raw) == raw,
{
    let t = text::lower(raw);
    assert(t =~= raw);
    assert(text::trim_start(t) == t);
    if raw[0] == '/' {
        lemma_name_end(t, 1, t.len() as int);
    } else {
        lemma_name_end(t, 0, t.len() as int);
    }
    assert(t.subrange(0, t.len() as int) =~= t);
}

/// The title of a page is what stands between the tags for it, without outer white space;
/// it is no part of the text.
pub proof fn law_title_stands_between_its_tags(t: Seq<char>, body: Seq<char>)
    requires
        forall|i: int| 0 <= i < t.len() ==> #[trigger] t[i] != '<',
        is_plain(body),
        body.len() > 0,
    ensures
        page_title("<title>"@ + t + "</title>"@ + body) == text::trim(t),
        page_text("<title>"@ + t + "</title>"@ + body) == body,
{
    reveal_strlit("<title>");
    reveal_strlit("</title>");
    reveal_strlit("</title");
    reveal_strlit("title");
    let html = "<title>"@ + t + "</title>"@ + body;
    let raw = seq!['t', 'i', 't', 'l', 'e'];
    assert("title"@ =~= raw);
    lemma_simple_name(raw);
    assert(html.subrange(1, 6) =~= raw);
    text::lemma_index_of(html, '>', 0);
    assert(html[6] == '>');
    let end = text::index_of(html, '>', 0);
    assert(html[0] == '<' && html[1] == 't' && html[2] == 'i' && html[3] == 't' && html[4] == 'l'
        && html[5] == 'e');
    assert(end == 6);
    let st = start();
    lemma_title_adds_nothing(st, raw);
    let low = text::lower(html);
    let stop = "</title"@;
    let k = 7 + t.len();
    assert(low.subrange(k as int, k as int + 7) =~= stop) by {
        assert forall|i: int| 0 <= i < 7 implies low[k + i] == stop[i] by {
            assert(html[k + i] == "</title>"@[i]);
        }
    }
    assert(text::has_at(low, stop, k as int));
    text::lemma_find(low, stop, 7);
    assert forall|j: int| 7 <= j < k implies !text::has_at(low, stop, j) by {
        if text::has_at(low, stop, j) {
            assert(low.subrange(j, j + 7)[0] == low[j]);
            assert(stop[0] == '<');
            assert(html[j] == t[j - 7]);
        }
    }
    assert(text::find(low, stop, 7) == Some(k as int));
    assert(html.subrange(7, k as int) =~= t);
    let past = k + 7;
    assert(html[past as int] == '>');
    text::lemma_index_of(html, '>', past as int);
    assert(past_close(html, past as int) == k + 8);
    let st1 = Progress { title: text::trim(t), ..st };
    lemma_read_tag(html, 0, 6, st);
    assert(read_tag(html, 0, 6, st) == (k as int + 8, st1));
    assert(walk(html, 0, st) == walk(html, k as int + 8, st1));
    assert(html.subrange(k as int + 8, k as int + 8 + body.len()) =~= body);
    lemma_walk_text(html, k as int + 8, body, st1);
    let last = Progress { out: st1.out + body, space: false, ..st1 };
    assert(html.len() == k + 8 + body.len());
    assert(walk(html, html.len() as int, last) == last);
    assert(last.out =~= body);
    lemma_plain_out(body);
    lemma_trim_twice(t);
}

/// The tag for the title writes nothing.
proof fn lemma_title_adds_nothing(st: Progress, raw: Seq<char>)
    requires
        raw == "title"@,
    ensures
        tag_effect(st, "title"@, raw) == st,
{
    reveal_strlit("href");
    reveal_strlit("src");
    reveal_strlit("script");
    reveal_strlit("/script");
    reveal_strlit("style");
    reveal_strlit("/style");
    reveal_strlit("pre");
    reveal_strlit("/pre");
    reveal_strlit("br");
    reveal_strlit("li");
    reveal_strlit("ul");
    reveal_strlit("ol");
    reveal_strlit("/ul");
    reveal_strlit("/ol");
    reveal_strlit("p");
    reveal_strlit("div");
    reveal_strlit("h1");
    reveal_strlit("h2");
    reveal_strlit("h3");
    reveal_strlit("h4");
    reveal_strlit("h5");
    reveal_strlit("h6");
    reveal_strlit("/p");
    reveal_strlit("/div");
    reveal_strlit("/h1");
    reveal_strlit("/h2");
    reveal_strlit("/h3");
    reveal_strlit("/h4");
    reveal_strlit("/h5");
    reveal_strlit("/h6");
    reveal_strlit("title");
    assert("script"@.len() == 6);
    assert("/script"@.len() == 7);
    assert("style"@.len() == 5);
    assert("/style"@.len() == 6);
    assert("pre"@.len() == 3);
    assert("/pre"@.len() == 4);
    assert("br"@.len() == 2);
    assert("li"@.len() == 2);
    assert("ul"@.len() == 2);
    assert("ol"@.len() == 2);
    assert("/ul"@.len() == 3);
    assert("/ol"@.len() == 3);
    assert("p"@.len() == 1);
    assert("div"@.len() == 3);
    assert("h1"@.len() == 2);
    assert("h2"@.len() == 2);
    assert("h3"@.len() == 2);
    assert("h4"@.len() == 2);
    assert("h5"@.len() == 2);
    assert("h6"@.len() == 2);
    assert("/p"@.len() == 2);
    assert("/div"@.len() == 4);
    assert("/h1"@.len() == 3);
    assert("/h2"@.len() == 3);
    assert("/h3"@.len() == 3);
    assert("/h4"@.len() == 3);
    assert("/h5"@.len() == 3);
    assert("/h6"@.len() == 3);
    assert("title"@.len() == 5);
    assert("script"@[0] == 's');
    assert("/style"@[0] == '/');
    assert("style"@[0] == 's');
    assert("title"@[0] == 't');
    assert("pre"@[0] == 'p');
    assert("/ul"@[0] == '/');
    assert("/ol"@[0] == '/');
    assert("div"@[0] == 'd');
    assert("/h1"@[0] == '/');
    assert("/h2"@[0] == '/');
    assert("/h3"@[0] == '/');
    assert("/h4"@[0] == '/');
    assert("/h5"@[0] == '/');
    assert("/h6"@[0] == '/');
    assert("/pre"@[1] == 'p');
    assert("/div"@[1] == 'd');
    assert("br"@[0] == 'b');
    assert("li"@[0] == 'l');
    assert("ul"@[0] == 'u');
    assert("ol"@[0] == 'o');
    assert("h1"@[0] == 'h');
    assert("h2"@[0] == 'h');
    assert("h3"@[0] == 'h');
    assert("h4"@[0] == 'h');
    assert("h5"@[0] == 'h');
    assert("h6"@[0] == 'h');
    assert("/p"@[0] == '/');
    assert("/ul"@[1] == 'u');
    assert("/ol"@[1] == 'o');
    assert("/h1"@[1] == 'h');
    assert("/h2"@[1] == 'h');
    assert("/h3"@[1] == 'h');
    assert("/h4"@[1] == 'h');
    assert("/h5"@[1] == 'h');
    assert("/h6"@[1] == 'h');
    assert("h1"@[1] == '1');
    assert("h2"@[1] == '2');
    assert("h3"@[1] == '3');
    assert("h4"@[1] == '4');
    assert("h5"@[1] == '5');
    assert("h6"@[1] == '6');
    assert("/h1"@[2] == '1');
    assert("/h2"@[2] == '2');
    assert("/h3"@[2] == '3');
    assert("/h4"@[2] == '4');
    assert("/h5"@[2] == '5');
    assert("/h6"@[2] == '6');
    assert(seq!['/'] + "p"@ =~= "/p"@);
    assert(seq!['/'] + "div"@ =~= "/div"@);
    assert(seq!['/'] + "h1"@ =~= "/h1"@);
    assert(seq!['/'] + "h2"@ =~= "/h2"@);
    assert(seq!['/'] + "h3"@ =~= "/h3"@);
    assert(seq!['/'] + "h4"@ =~= "/h4"@);
    assert(seq!['/'] + "h5"@ =~= "/h5"@);
    assert(seq!['/'] + "h6"@ =~= "/h6"@);
    let low = text::lower(raw);
    let href = "href"@.push('=');
    let src = "src"@.push('=');
    text::lemma_find(low, href, 0);
    text::lemma_find(low, src, 0);
    assert(low.len() == 5 && href.len() == 5 && src.len() == 4);
    assert(low[0] == 't' && low[1] == 'i');
    assert("href"@[0] == 'h' && "src"@[0] == 's');
    assert forall|i: int| 0 <= i implies !text::has_at(low, href, i) && !text::has_at(
        low,
        src,
        i,
    ) by {
        if text::has_at(low, href, i) {
            assert(low.subrange(i, i + 5)[0] == low[i]);
        }
        if text::has_at(low, src, i) {
            assert(low.subrange(i, i + 4)[0] == low[i]);
        }
    }
}

/// Text alone that has come out is the text of the page.
proof fn lemma_plain_out(a: Seq<char>)
    requires
        is_plain(a),
        a.len() > 0,
    ensures
        text::trim(squeeze(text::lines(a))) == a,
{
    lemma_plain_has_no_line_end(a);
    text::law_lines_end_at_line_ends(a, Seq::empty());
    let v = text::lines(a);
    assert(v =~= seq![a]);
    reveal_with_fuel(squeeze, 2);
    assert(v.drop_last() =~= Seq::<Seq<char>>::empty());
    assert(squeeze(v) =~= a.push('\n'));
    lemma_trim_around(a);
}

proof fn lemma_trim_twice(s: Seq<char>)
    ensures
        text::trim(text::trim(s)) == text::trim(s),
{
    text::law_trim_takes_only_outer_white(s);
    text::law_trim_takes_only_outer_white(text::trim(s));
    if text::trim(s).len() == 0 {
        assert(text::trim(s) =~= Seq::<char>::empty());
    }
}

/// The inside of the tag of a link to `u`.
spec fn link_tag(u: Seq<char>) -> Seq<char> {
    seq!['a', ' ', 'h', 'r', 'e', 'f', '=', '"'] + u + seq!['"']
}

/// The tag of a link is called by its letter.
proof fn lemma_link_name(u: Seq<char>)
    ensures
        tag_name(link_tag(u)) == "a"@,
{
    reveal_strlit("a");
    let low = text::lower(link_tag(u));
    assert(low[0] == 'a' && low[1] == ' ');
    assert(text::is_white(' ') && !text::is_white('a'));
    assert(text::trim_start(low) == low);
    lemma_name_end(low, 0, 1);
    assert(low.subrange(0, 1) =~= seq!['a']);
    assert("a"@ =~= seq!['a']);
}

/// The address of a link is what it links to.
proof fn lemma_link_address(u: Seq<char>)
    requires
        forall|i: int| 0 <= i < u.len() ==> #[trigger] u[i] != '"',
    ensures
        attr(link_tag(u), "href"@) == Some(u),
{
    reveal_strlit("href");
    let raw = link_tag(u);
    let low = text::lower(raw);
    let href = "href"@.push('=');
    assert(href =~= seq!['h', 'r', 'e', 'f', '=']);
    assert(low[0] == 'a' && low[1] == ' ' && low[2] == 'h' && low[3] == 'r' && low[4] == 'e');
    assert(low[5] == 'f' && low[6] == '=');
    assert(low.subrange(2, 7) =~= href);
    assert(text::has_at(low, href, 2));
    text::lemma_find(low, href, 0);
    assert(!text::has_at(low, href, 0)) by {
        assert(low.subrange(0, 5)[0] == 'a');
    }
    assert(!text::has_at(low, href, 1)) by {
        assert(low.subrange(1, 6)[0] == ' ');
    }
    assert(text::find(low, href, 0) == Some(2int));
    let e = Seq::<char>::empty();
    let p = seq!['a', ' '];
    let n = seq!['h', 'r', 'e', 'f'];
    assert("href"@ =~= n);
    assert(raw =~= p + n + seq!['=', '"'] + u + seq!['"'] + e);
    law_attribute_is_between_its_quotes(p, n, '"', u, e, "href"@);
}

/// A link has no source.
proof fn lemma_link_source(u: Seq<char>)
    requires
        !text::contains(text::lower(u), "src="@),
    ensures
        attr(link_tag(u), "src"@) is None,
{
    reveal_strlit("src");
    reveal_strlit("src=");
    let raw = link_tag(u);
    let low = text::lower(raw);
    let src = "src"@.push('=');
    assert(src =~= "src="@);
    assert(src =~= seq!['s', 'r', 'c', '=']);
    assert(low[0] == 'a' && low[1] == ' ' && low[2] == 'h' && low[3] == 'r' && low[4] == 'e');
    assert(low[5] == 'f' && low[6] == '=' && low[7] == '"');
    let lu = text::lower(u);
    text::lemma_find(low, src, 0);
    text::lemma_find(lu, "src="@, 0);
    assert forall|j: int| 0 <= j implies !text::has_at(low, src, j) by {
        if text::has_at(low, src, j) {
            let w = low.subrange(j, j + 4);
            assert(w[0] == low[j] && w[3] == low[j + 3]);
            if j >= 8 && j + 4 <= 8 + u.len() {
                assert(lu.subrange(j - 8, j - 8 + 4) =~= w);
                assert(text::has_at(lu, "src="@, j - 8));
            } else if j >= 8 {
                assert(j + 3 == 8 + u.len());
                assert(low[j + 3] == '"');
            }
        }
    }
}

/// The address of a link comes out in brackets before the text of the link.
pub proof fn law_link_comes_out_with_its_address(u: Seq<char>, t: Seq<char>)
    requires
        u.len() > 0,
        forall|i: int| 0 <= i < u.len() ==> #[trigger] u[i] != '"' && u[i] != '>',
        !text::contains(text::lower(u), "src="@),
        is_plain(t),
        t.len() > 0,
    ensures
        walk("<a href=\""@ + u + "\">"@ + t, 0, start()).out == seq!['('] + u + seq![')'] + t,
{
    reveal_strlit("<a href=\"");
    reveal_strlit("\">");
    reveal_strlit("title");
    reveal_strlit("a");
    let raw = link_tag(u);
    let html = seq!['<'] + raw + seq!['>'] + t;
    assert("<a href=\""@ =~= seq!['<', 'a', ' ', 'h', 'r', 'e', 'f', '=', '"']);
    assert("\">"@ =~= seq!['"', '>']);
    assert("<a href=\""@ + u + "\">"@ + t =~= html);
    assert(html.subrange(1, 1 + raw.len() as int) =~= raw);
    assert forall|k: int| 0 <= k < raw.len() implies #[trigger] raw[k] != '>' by {
        if 8 <= k < 8 + u.len() {
            assert(raw[k] == u[k - 8]);
        }
    }
    lemma_link_name(u);
    lemma_link_address(u);
    lemma_link_source(u);
    let st = start();
    lemma_link_effect(st, raw, u);
    assert("title"@.len() == 5 && "a"@.len() == 1);
    lemma_walk_tag(html, 0, raw, st);
    let st1 = tag_effect(st, "a"@, raw);
    assert(st1.out =~= seq!['('] + u + seq![')']);
    let k = raw.len() as int + 2;
    assert(html.subrange(k, k + t.len()) =~= t);
    lemma_walk_text(html, k, t, st1);
    let last = Progress { out: st1.out + t, space: false, ..st1 };
    assert(html.len() == k + t.len());
    assert(walk(html, html.len() as int, last) == last);
}

/// What the tag of a link does.
proof fn lemma_link_effect(st: Progress, raw: Seq<char>, u: Seq<char>)
    requires
        attr(raw, "href"@) == Some(u),
        attr(raw, "src"@) is None,
        u.len() > 0,
    ensures
        tag_effect(st, "a"@, raw) == (Progress {
            out: st.out.push('(') + u.push(')'),
            space: false,
            ..st
        }),
{
    reveal_strlit("script");
    reveal_strlit("/script");
    reveal_strlit("style");
    reveal_strlit("/style");
    reveal_strlit("pre");
    reveal_strlit("/pre");
    reveal_strlit("br");
    reveal_strlit("li");
    reveal_strlit("ul");
    reveal_strlit("ol");
    reveal_strlit("/ul");
    reveal_strlit("/ol");
    reveal_strlit("p");
    reveal_strlit("div");
    reveal_strlit("h1");
    reveal_strlit("h2");
    reveal_strlit("h3");
    reveal_strlit("h4");
    reveal_strlit("h5");
    reveal_strlit("h6");
    reveal_strlit("/p");
    reveal_strlit("/div");
    reveal_strlit("/h1");
    reveal_strlit("/h2");
    reveal_strlit("/h3");
    reveal_strlit("/h4");
    reveal_strlit("/h5");
    reveal_strlit("/h6");
    reveal_strlit("a");
    assert("script"@.len() == 6);
    assert("/script"@.len() == 7);
    assert("style"@.len() == 5);
    assert("/style"@.len() == 6);
    assert("pre"@.len() == 3);
    assert("/pre"@.len() == 4);
    assert("br"@.len() == 2);
    assert("li"@.len() == 2);
    assert("ul"@.len() == 2);
    assert("ol"@.len() == 2);
    assert("/ul"@.len() == 3);
    assert("/ol"@.len() == 3);
    assert("p"@.len() == 1);
    assert("div"@.len() == 3);
    assert("h1"@.len() == 2);
    assert("h2"@.len() == 2);
    assert("h3"@.len() == 2);
    assert("h4"@.len() == 2);
    assert("h5"@.len() == 2);
    assert("h6"@.len() == 2);
    assert("/p"@.len() == 2);
    assert("/div"@.len() == 4);
    assert("/h1"@.len() == 3);
    assert("/h2"@.len() == 3);
    assert("/h3"@.len() == 3);
    assert("/h4"@.len() == 3);
    assert("/h5"@.len() == 3);
    assert("/h6"@.len() == 3);
    assert("a"@.len() == 1);
    assert("script"@[0] == 's');
    assert("/style"@[0] == '/');
    assert("pre"@[0] == 'p');
    assert("/ul"@[0] == '/');
    assert("/ol"@[0] == '/');
    assert("div"@[0] == 'd');
    assert("/h1"@[0] == '/');
    assert("/h2"@[0] == '/');
    assert("/h3"@[0] == '/');
    assert("/h4"@[0] == '/');
    assert("/h5"@[0] == '/');
    assert("/h6"@[0] == '/');
    assert("/pre"@[1] == 'p');
    assert("/div"@[1] == 'd');
    assert("br"@[0] == 'b');
    assert("li"@[0] == 'l');
    assert("ul"@[0] == 'u');
    assert("ol"@[0] == 'o');
    assert("h1"@[0] == 'h');
    assert("h2"@[0] == 'h');
    assert("h3"@[0] == 'h');
    assert("h4"@[0] == 'h');
    assert("h5"@[0] == 'h');
    assert("h6"@[0] == 'h');
    assert("/p"@[0] == '/');
    assert("/ul"@[1] == 'u');
    assert("/ol"@[1] == 'o');
    assert("/h1"@[1] == 'h');
    assert("/h2"@[1] == 'h');
    assert("/h3"@[1] == 'h');
    assert("/h4"@[1] == 'h');
    assert("/h5"@[1] == 'h');
    assert("/h6"@[1] == 'h');
    assert("p"@[0] == 'p');
    assert("a"@[0] == 'a');
    assert("h1"@[1] == '1');
    assert("h2"@[1] == '2');
    assert("h3"@[1] == '3');
    assert("h4"@[1] == '4');
    assert("h5"@[1] == '5');
    assert("h6"@[1] == '6');
    assert("/h1"@[2] == '1');
    assert("/h2"@[2] == '2');
    assert("/h3"@[2] == '3');
    assert("/h4"@[2] == '4');
    assert("/h5"@[2] == '5');
    assert("/h6"@[2] == '6');
    assert(seq!['/'] + "p"@ =~= "/p"@);
    assert(seq!['/'] + "div"@ =~= "/div"@);
    assert(seq!['/'] + "h1"@ =~= "/h1"@);
    assert(seq!['/'] + "h2"@ =~= "/h2"@);
    assert(seq!['/'] + "h3"@ =~= "/h3"@);
    assert(seq!['/'] + "h4"@ =~= "/h4"@);
    assert(seq!['/'] + "h5"@ =~= "/h5"@);
    assert(seq!['/'] + "h6"@ =~= "/h6"@);
}

/// Lines come out in their order, each ended; of blank lines in a row only the first.
pub proof fn law_lines_come_out_in_order(v: Seq<Seq<char>>, l: Seq<char>)
    ensures
        squeeze(Seq::empty()).len() == 0,
        text::trim(l).len() > 0 ==> squeeze(v.push(l)) == squeeze(v) + l + seq!['\n'],
        v.len() == 0 || text::trim(v.last()).len() > 0 ==> squeeze(v.push(l)) == squeeze(v) + l
            + seq!['\n'],
        v.len() > 0 && text::trim(v.last()).len() == 0 && text::trim(l).len() == 0 ==> squeeze(
            v.push(l),
        ) == squeeze(v),
{
    assert(v.push(l).drop_last() =~= v);
    assert(squeeze(v) + l.push('\n') =~= squeeze(v) + l + seq!['\n']);
}

/// Addresses that a tag carries come out in brackets, first what it links to, then its
/// source; end tags, comments and declarations carry none.
pub proof fn law_addresses_come_out(st: Progress, raw: Seq<char>, name: Seq<char>)
    requires
        name == "a"@ || name == "img"@ || name == "link"@
            || name == "area"@ || name == "span"@ || name == "iframe"@,
    ensures
        ({
            let r = tag_effect(st, name, raw);
            let h = attr(raw, "href"@);
            let s = attr(raw, "src"@);
            let has_h = h is Some && h->0.len() > 0;
            let has_s = s is Some && s->0.len() > 0;
            &&& has_h && !has_s ==> r.out == st.out + seq!['('] + h->0 + seq![')']
            &&& !has_h && has_s ==> r.out == st.out + seq!['('] + s->0 + seq![')']
            &&& has_h && has_s ==> r.out == st.out + seq!['('] + h->0 + seq![')'] + seq!['(']
                + s->0 + seq![')']
            &&& !has_h && !has_s ==> r == st
        }),
{
    reveal_strlit("script");
    reveal_strlit("/script");
    reveal_strlit("style");
    reveal_strlit("/style");
    reveal_strlit("pre");
    reveal_strlit("/pre");
    reveal_strlit("br");
    reveal_strlit("li");
    reveal_strlit("ul");
    reveal_strlit("ol");
    reveal_strlit("/ul");
    reveal_strlit("/ol");
    reveal_strlit("p");
    reveal_strlit("div");
    reveal_strlit("h1");
    reveal_strlit("h2");
    reveal_strlit("h3");
    reveal_strlit("h4");
    reveal_strlit("h5");
    reveal_strlit("h6");
    reveal_strlit("/p");
    reveal_strlit("/div");
    reveal_strlit("/h1");
    reveal_strlit("/h2");
    reveal_strlit("/h3");
    reveal_strlit("/h4");
    reveal_strlit("/h5");
    reveal_strlit("/h6");
    reveal_strlit("a");
    reveal_strlit("img");
    reveal_strlit("link");
    reveal_strlit("area");
    reveal_strlit("span");
    reveal_strlit("iframe");
    assert("script"@.len() == 6);
    assert("/script"@.len() == 7);
    assert("style"@.len() == 5);
    assert("/style"@.len() == 6);
    assert("pre"@.len() == 3);
    assert("/pre"@.len() == 4);
    assert("br"@.len() == 2);
    assert("li"@.len() == 2);
    assert("ul"@.len() == 2);
    assert("ol"@.len() == 2);
    assert("/ul"@.len() == 3);
    assert("/ol"@.len() == 3);
    assert("p"@.len() == 1);
    assert("div"@.len() == 3);
    assert("h1"@.len() == 2);
    assert("h2"@.len() == 2);
    assert("h3"@.len() == 2);
    assert("h4"@.len() == 2);
    assert("h5"@.len() == 2);
    assert("h6"@.len() == 2);
    assert("/p"@.len() == 2);
    assert("/div"@.len() == 4);
    assert("/h1"@.len() == 3);
    assert("/h2"@.len() == 3);
    assert("/h3"@.len() == 3);
    assert("/h4"@.len() == 3);
    assert("/h5"@.len() == 3);
    assert("/h6"@.len() == 3);
    assert("a"@.len() == 1);
    assert("img"@.len() == 3);
    assert("link"@.len() == 4);
    assert("area"@.len() == 4);
    assert("span"@.len() == 4);
    assert("iframe"@.len() == 6);
    assert("script"@[0] == 's');
    assert("/style"@[0] == '/');
    assert("iframe"@[0] == 'i');
    assert("pre"@[0] == 'p');
    assert("/ul"@[0] == '/');
    assert("/ol"@[0] == '/');
    assert("div"@[0] == 'd');
    assert("/h1"@[0] == '/');
    assert("/h2"@[0] == '/');
    assert("/h3"@[0] == '/');
    assert("/h4"@[0] == '/');
    assert("/h5"@[0] == '/');
    assert("/h6"@[0] == '/');
    assert("img"@[0] == 'i');
    assert("/pre"@[1] == 'p');
    assert("/div"@[1] == 'd');
    assert("/pre"@[0] == '/');
    assert("link"@[0] == 'l');
    assert("area"@[0] == 'a');
    assert("span"@[0] == 's');
    assert("br"@[0] == 'b');
    assert("li"@[0] == 'l');
    assert("ul"@[0] == 'u');
    assert("ol"@[0] == 'o');
    assert("h1"@[0] == 'h');
    assert("h2"@[0] == 'h');
    assert("h3"@[0] == 'h');
    assert("h4"@[0] == 'h');
    assert("h5"@[0] == 'h');
    assert("h6"@[0] == 'h');
    assert("/p"@[0] == '/');
    assert("/ul"@[1] == 'u');
    assert("/ol"@[1] == 'o');
    assert("/h1"@[1] == 'h');
    assert("/h2"@[1] == 'h');
    assert("/h3"@[1] == 'h');
    assert("/h4"@[1] == 'h');
    assert("/h5"@[1] == 'h');
    assert("/h6"@[1] == 'h');
    assert("p"@[0] == 'p');
    assert("a"@[0] == 'a');
    assert("h1"@[1] == '1');
    assert("h2"@[1] == '2');
    assert("h3"@[1] == '3');
    assert("h4"@[1] == '4');
    assert("h5"@[1] == '5');
    assert("h6"@[1] == '6');
    assert("/div"@[0] == '/');
    assert("/h1"@[2] == '1');
    assert("/h2"@[2] == '2');
    assert("/h3"@[2] == '3');
    assert("/h4"@[2] == '4');
    assert("/h5"@[2] == '5');
    assert("/h6"@[2] == '6');
    assert(seq!['/'] + "p"@ =~= "/p"@);
    assert(seq!['/'] + "div"@ =~= "/div"@);
    assert(seq!['/'] + "h1"@ =~= "/h1"@);
    assert(seq!['/'] + "h2"@ =~= "/h2"@);
    assert(seq!['/'] + "h3"@ =~= "/h3"@);
    assert(seq!['/'] + "h4"@ =~= "/h4"@);
    assert(seq!['/'] + "h5"@ =~= "/h5"@);
    assert(seq!['/'] + "h6"@ =~= "/h6"@);
    let r = tag_effect(st, name, raw);
    let h = attr(raw, "href"@);
    let s = attr(raw, "src"@);
    let one = with_address(st, h);
    if h is Some && h->0.len() > 0 {
        assert(one.out =~= st.out + seq!['('] + h->0 + seq![')']);
    }
    if s is Some && s->0.len() > 0 {
        assert(with_address(one, s).out =~= one.out + seq!['('] + s->0 + seq![')']);
    }
}

/// Comments, declarations and the end tags of anything that does not stand apart leave no
/// trace.
pub proof fn law_comments_leave_no_trace(st: Progress, raw: Seq<char>, name: Seq<char>)
    requires
        name.len() > 0,
        name[0] == '!' || name[0] == '?' || name == "/a"@ || name == "/span"@ || name == "/li"@,
    ensures
        tag_effect(st, name, raw) == st,
{
    reveal_strlit("script");
    reveal_strlit("/script");
    reveal_strlit("style");
    reveal_strlit("/style");
    reveal_strlit("pre");
    reveal_strlit("/pre");
    reveal_strlit("br");
    reveal_strlit("li");
    reveal_strlit("ul");
    reveal_strlit("ol");
    reveal_strlit("/ul");
    reveal_strlit("/ol");
    reveal_strlit("p");
    reveal_strlit("div");
    reveal_strlit("h1");
    reveal_strlit("h2");
    reveal_strlit("h3");
    reveal_strlit("h4");
    reveal_strlit("h5");
    reveal_strlit("h6");
    reveal_strlit("/p");
    reveal_strlit("/div");
    reveal_strlit("/h1");
    reveal_strlit("/h2");
    reveal_strlit("/h3");
    reveal_strlit("/h4");
    reveal_strlit("/h5");
    reveal_strlit("/h6");
    reveal_strlit("/a");
    reveal_strlit("/span");
    reveal_strlit("/li");
    assert("script"@.len() == 6);
    assert("/script"@.len() == 7);
    assert("style"@.len() == 5);
    assert("/style"@.len() == 6);
    assert("pre"@.len() == 3);
    assert("/pre"@.len() == 4);
    assert("br"@.len() == 2);
    assert("li"@.len() == 2);
    assert("ul"@.len() == 2);
    assert("ol"@.len() == 2);
    assert("/ul"@.len() == 3);
    assert("/ol"@.len() == 3);
    assert("p"@.len() == 1);
    assert("div"@.len() == 3);
    assert("h1"@.len() == 2);
    assert("h2"@.len() == 2);
    assert("h3"@.len() == 2);
    assert("h4"@.len() == 2);
    assert("h5"@.len() == 2);
    assert("h6"@.len() == 2);
    assert("/p"@.len() == 2);
    assert("/div"@.len() == 4);
    assert("/h1"@.len() == 3);
    assert("/h2"@.len() == 3);
    assert("/h3"@.len() == 3);
    assert("/h4"@.len() == 3);
    assert("/h5"@.len() == 3);
    assert("/h6"@.len() == 3);
    assert("/a"@.len() == 2);
    assert("/span"@.len() == 5);
    assert("/li"@.len() == 3);
    assert("script"@[0] == 's');
    assert("/style"@[0] == '/');
    assert("style"@[0] == 's');
    assert("/span"@[0] == '/');
    assert("pre"@[0] == 'p');
    assert("/ul"@[0] == '/');
    assert("/ol"@[0] == '/');
    assert("div"@[0] == 'd');
    assert("/h1"@[0] == '/');
    assert("/h2"@[0] == '/');
    assert("/h3"@[0] == '/');
    assert("/h4"@[0] == '/');
    assert("/h5"@[0] == '/');
    assert("/h6"@[0] == '/');
    assert("/li"@[0] == '/');
    assert("/pre"@[1] == 'p');
    assert("/div"@[1] == 'd');
    assert("br"@[0] == 'b');
    assert("li"@[0] == 'l');
    assert("ul"@[0] == 'u');
    assert("ol"@[0] == 'o');
    assert("h1"@[0] == 'h');
    assert("h2"@[0] == 'h');
    assert("h3"@[0] == 'h');
    assert("h4"@[0] == 'h');
    assert("h5"@[0] == 'h');
    assert("h6"@[0] == 'h');
    assert("/p"@[0] == '/');
    assert("/a"@[0] == '/');
    assert("/ul"@[1] == 'u');
    assert("/ol"@[1] == 'o');
    assert("/h1"@[1] == 'h');
    assert("/h2"@[1] == 'h');
    assert("/h3"@[1] == 'h');
    assert("/h4"@[1] == 'h');
    assert("/h5"@[1] == 'h');
    assert("/h6"@[1] == 'h');
    assert("/li"@[1] == 'l');
    assert("h1"@[1] == '1');
    assert("h2"@[1] == '2');
    assert("h3"@[1] == '3');
    assert("h4"@[1] == '4');
    assert("h5"@[1] == '5');
    assert("h6"@[1] == '6');
    assert("/p"@[1] == 'p');
    assert("/a"@[1] == 'a');
    assert("/h1"@[2] == '1');
    assert("/h2"@[2] == '2');
    assert("/h3"@[2] == '3');
    assert("/h4"@[2] == '4');
    assert("/h5"@[2] == '5');
    assert("/h6"@[2] == '6');
    assert(seq!['/'] + "p"@ =~= "/p"@);
    assert(seq!['/'] + "div"@ =~= "/div"@);
    assert(seq!['/'] + "h1"@ =~= "/h1"@);
    assert(seq!['/'] + "h2"@ =~= "/h2"@);
    assert(seq!['/'] + "h3"@ =~= "/h3"@);
    assert(seq!['/'] + "h4"@ =~= "/h4"@);
    assert(seq!['/'] + "h5"@ =~= "/h5"@);
    assert(seq!['/'] + "h6"@ =~= "/h6"@);
    assert("script"@[0] == 's');
    assert("/script"@[0] == '/');
    assert("style"@[0] == 's');
    assert("/style"@[0] == '/');
    assert("pre"@[0] == 'p');
    assert("/pre"@[0] == '/');
    assert("br"@[0] == 'b');
    assert("li"@[0] == 'l');
    assert("ul"@[0] == 'u');
    assert("ol"@[0] == 'o');
    assert("/ul"@[0] == '/');
    assert("/ol"@[0] == '/');
    assert("p"@[0] == 'p');
    assert("div"@[0] == 'd');
    assert("h1"@[0] == 'h');
    assert("h2"@[0] == 'h');
    assert("h3"@[0] == 'h');
    assert("h4"@[0] == 'h');
    assert("h5"@[0] == 'h');
    assert("h6"@[0] == 'h');
    assert("/p"@[0] == '/');
    assert("/div"@[0] == '/');
    assert("/h1"@[0] == '/');
    assert("/h2"@[0] == '/');
    assert("/h3"@[0] == '/');
    assert("/h4"@[0] == '/');
    assert("/h5"@[0] == '/');
    assert("/h6"@[0] == '/');
}

} // verus!

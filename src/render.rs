use vstd::prelude::*;

use crate::types::{RecentItem, Timestamp};
use crate::text::{
    chars_of, find_from, is_space, is_space_char, matches_at, occurs_at, push_all, replace_chars,
    replace_seq, string_of, trim_chars, trim_seq,
};

verus! {

/// The HTML text of one character.
pub open spec fn escape_char(c: char) -> Seq<char> {
    if c == '&' {
        "&amp;"@
    } else if c == '<' {
        "&lt;"@
    } else if c == '>' {
        "&gt;"@
    } else if c == '"' {
        "&quot;"@
    } else if c == '\'' {
        "&#39;"@
    } else {
        seq![c]
    }
}

/// A text with `& < > " '` written as HTML entities.
pub open spec fn escape_seq(s: Seq<char>) -> Seq<char>
    decreases s.len(),
{
    if s.len() == 0 {
        Seq::empty()
    } else {
        escape_seq(s.drop_last()) + escape_char(s.last())
    }
}

/// Writes `& < > " '` as HTML entities.
pub fn html_escape(input: &str) -> (r: String)
    ensures
        r@ == escape_seq(input@),
{
    let cs = chars_of(input);
    let mut out = String::new();
    let mut i: usize = 0;
    while i < cs.len()
        invariant
            i <= cs@.len(),
            out@ == escape_seq(cs@.take(i as int)),
        decreases cs@.len() - i,
    {
        let c = cs[i];
        if c == '&' {
            push_all(&mut out, "&amp;");
        } else if c == '<' {
            push_all(&mut out, "&lt;");
        } else if c == '>' {
            push_all(&mut out, "&gt;");
        } else if c == '"' {
            push_all(&mut out, "&quot;");
        } else if c == '\'' {
            push_all(&mut out, "&#39;");
        } else {
            out.push(c);
        }
        i = i + 1;
        assert(cs@.take(i as int).drop_last() =~= cs@.take(i - 1));
    }
    assert(cs@.take(cs@.len() as int) =~= cs@);
    out
}

/// The five entities that escaping writes, turned back, one kind after the
/// other: `&lt;`, `&gt;`, `&amp;`, `&quot;`, `&#39;`.
pub open spec fn unescape_seq(s: Seq<char>) -> Seq<char> {
    let a = replace_seq(s, "&lt;"@, "<"@);
    let b = replace_seq(a, "&gt;"@, ">"@);
    let c = replace_seq(b, "&amp;"@, "&"@);
    let d = replace_seq(c, "&quot;"@, "\""@);
    replace_seq(d, "&#39;"@, "'"@)
}

fn unescape_chars(s: &[char]) -> (r: Vec<char>)
    ensures
        r@ == unescape_seq(s@),
{
    let a = replace_chars(s, &chars_of("&lt;"), &chars_of("<"));
    let b = replace_chars(&a, &chars_of("&gt;"), &chars_of(">"));
    let c = replace_chars(&b, &chars_of("&amp;"), &chars_of("&"));
    let d = replace_chars(&c, &chars_of("&quot;"), &chars_of("\""));
    replace_chars(&d, &chars_of("&#39;"), &chars_of("'"))
}

/// Turns back the entities that escaping writes.
pub fn html_unescape_minimal(input: &str) -> (r: String)
    ensures
        r@ == unescape_seq(input@),
{
    string_of(&unescape_chars(&chars_of(input)))
}

/// An optional index as an integer.
pub open spec fn opt_int(o: Option<usize>) -> Option<int> {
    match o {
        Some(i) => Some(i as int),
        None => None,
    }
}

/// The first index at or after `i` where `p` occurs in `s`.
pub open spec fn first_from(s: Seq<char>, p: Seq<char>, i: int) -> Option<int>
    decreases s.len() + 1 - i,
{
    if i < 0 || i > s.len() {
        None
    } else if occurs_at(s, p, i) {
        Some(i)
    } else {
        first_from(s, p, i + 1)
    }
}

proof fn lemma_first_from(s: Seq<char>, p: Seq<char>, from: int, r: Option<int>)
    requires
        0 <= from,
        match r {
            Some(i) => from <= i && occurs_at(s, p, i) && forall|j: int|
                from <= j < i ==> !#[trigger] occurs_at(s, p, j),
            None => forall|j: int| from <= j ==> !#[trigger] occurs_at(s, p, j),
        },
    ensures
        first_from(s, p, from) == r,
    decreases s.len() + 1 - from,
{
    if from <= s.len() {
        if !occurs_at(s, p, from) {
            lemma_first_from(s, p, from + 1, r);
        }
    } else {
        if let Some(i) = r {
            assert(occurs_at(s, p, i));
        }
    }
}

/// The opening of a fenced block that the renderer marks as mermaid.
pub open spec fn mermaid_open() -> Seq<char> {
    "<pre><code class=\"language-mermaid\">"@
}

/// The close of a fenced block.
pub open spec fn mermaid_close() -> Seq<char> {
    "</code></pre>"@
}

/// The HTML from index `c` on, with each complete mermaid code block turned
/// into a `<div class="mermaid">` holding its unescaped source. An opening
/// without a close, and all after it, stay as they are.
pub open spec fn promote_from(s: Seq<char>, c: int, st: Seq<char>, en: Seq<char>) -> Seq<char>
    decreases s.len() + 1 - c,
{
    if st.len() == 0 || c < 0 || c > s.len() {
        s.skip(c)
    } else {
        match first_from(s, st, c) {
            None => s.skip(c),
            Some(i) => {
                let a = i + st.len();
                match first_from(s, en, a) {
                    None => s.skip(c),
                    Some(j) => if c <= i && j + en.len() <= s.len() && j >= a {
                        s.subrange(c, i) + "<div class=\"mermaid\">"@ + unescape_seq(
                            s.subrange(a, j),
                        ) + "</div>"@ + promote_from(s, j + en.len(), st, en)
                    } else {
                        s.skip(c)
                    },
                }
            },
        }
    }
}

/// The HTML with each complete mermaid code block promoted.
pub open spec fn promote_seq(s: Seq<char>) -> Seq<char> {
    promote_from(s, 0, mermaid_open(), mermaid_close())
}

/// Turns each `<pre><code class="language-mermaid">` block into a
/// `<div class="mermaid">` that holds the block's source unescaped, so that
/// the diagram library in the page can draw it.
pub fn promote_mermaid_blocks(html_in: &str) -> (r: String)
    ensures
        r@ == promote_seq(html_in@),
{
    let s = chars_of(html_in);
    let st = chars_of("<pre><code class=\"language-mermaid\">");
    let en = chars_of("</code></pre>");
    proof {
        reveal_strlit("<pre><code class=\"language-mermaid\">");
        reveal_strlit("</code></pre>");
    }
    let mut out: Vec<char> = Vec::new();
    let mut cursor: usize = 0;
    assert(s@.skip(0) =~= s@);
    while cursor <= s.len()
        invariant
            st@ == mermaid_open(),
            en@ == mermaid_close(),
            st@.len() > 0,
            en@.len() > 0,
            cursor <= s@.len(),
            out@ + promote_from(s@, cursor as int, st@, en@) == promote_seq(s@),
            s@ == html_in@,
        decreases s@.len() + 1 - cursor,
    {
        let found = find_from(&s, &st, cursor);
        proof {
            lemma_first_from(s@, st@, cursor as int, opt_int(found));
        }
        match found {
            None => {
                let mut k: usize = cursor;
                let ghost before = out@;
                while k < s.len()
                    invariant
                        cursor <= k <= s@.len(),
                        out@ == before + s@.subrange(cursor as int, k as int),
                        before + promote_from(s@, cursor as int, st@, en@) == promote_seq(s@),
                    decreases s@.len() - k,
                {
                    out.push(s[k]);
                    k = k + 1;
                    assert(out@ =~= before + s@.subrange(cursor as int, k as int));
                }
                assert(s@.subrange(cursor as int, s@.len() as int) =~= s@.skip(cursor as int));
                assert(promote_from(s@, cursor as int, st@, en@) == s@.skip(cursor as int));
                return string_of(&out);
            },
            Some(start) => {
                let inner = start + st.len();
                let fe = find_from(&s, &en, inner);
                proof {
                    lemma_first_from(s@, en@, inner as int, opt_int(fe));
                }
                match fe {
                    None => {
                        let mut k: usize = cursor;
                        let ghost before = out@;
                        while k < s.len()
                            invariant
                                cursor <= k <= s@.len(),
                                out@ == before + s@.subrange(cursor as int, k as int),
                                before + promote_from(s@, cursor as int, st@, en@) == promote_seq(
                                    s@,
                                ),
                            decreases s@.len() - k,
                        {
                            out.push(s[k]);
                            k = k + 1;
                            assert(out@ =~= before + s@.subrange(cursor as int, k as int));
                        }
                        assert(s@.subrange(cursor as int, s@.len() as int) =~= s@.skip(
                            cursor as int,
                        ));
                        assert(promote_from(s@, cursor as int, st@, en@) == s@.skip(cursor as int));
                        return string_of(&out);
                    },
                    Some(end) => {
                        let ghost before = out@;
                        let mut k: usize = cursor;
                        while k < start
                            invariant
                                cursor <= k <= start <= s@.len(),
                                out@ == before + s@.subrange(cursor as int, k as int),
                            decreases start - k,
                        {
                            out.push(s[k]);
                            k = k + 1;
                            assert(out@ =~= before + s@.subrange(cursor as int, k as int));
                        }
                        let div = chars_of("<div class=\"mermaid\">");
                        let mut q: usize = 0;
                        let ghost mid = out@;
                        while q < div.len()
                            invariant
                                q <= div@.len(),
                                out@ == mid + div@.take(q as int),
                            decreases div@.len() - q,
                        {
                            out.push(div[q]);
                            q = q + 1;
                            assert(div@.take(q as int) =~= div@.take(q - 1).push(div@[q - 1]));
                        }
                        assert(div@.take(div@.len() as int) =~= div@);
                        let mut code: Vec<char> = Vec::new();
                        let mut m: usize = inner;
                        while m < end
                            invariant
                                inner <= m <= end <= s@.len(),
                                code@ == s@.subrange(inner as int, m as int),
                            decreases end - m,
                        {
                            code.push(s[m]);
                            m = m + 1;
                            assert(code@ =~= s@.subrange(inner as int, m as int));
                        }
                        let un = unescape_chars(&code);
                        let close = chars_of("</div>");
                        let ghost mid2 = out@;
                        let mut q2: usize = 0;
                        while q2 < un.len()
                            invariant
                                q2 <= un@.len(),
                                out@ == mid2 + un@.take(q2 as int),
                            decreases un@.len() - q2,
                        {
                            out.push(un[q2]);
                            q2 = q2 + 1;
                            assert(un@.take(q2 as int) =~= un@.take(q2 - 1).push(un@[q2 - 1]));
                        }
                        assert(un@.take(un@.len() as int) =~= un@);
                        let ghost mid3 = out@;
                        let mut q3: usize = 0;
                        while q3 < close.len()
                            invariant
                                q3 <= close@.len(),
                                out@ == mid3 + close@.take(q3 as int),
                            decreases close@.len() - q3,
                        {
                            out.push(close[q3]);
                            q3 = q3 + 1;
                            assert(close@.take(q3 as int) =~= close@.take(q3 - 1).push(
                                close@[q3 - 1],
                            ));
                        }
                        assert(close@.take(close@.len() as int) =~= close@);
                        let ghost next = end + en@.len();
                        assert(promote_from(s@, cursor as int, st@, en@) == s@.subrange(
                            cursor as int,
                            start as int,
                        ) + "<div class=\"mermaid\">"@ + unescape_seq(
                            s@.subrange(inner as int, end as int),
                        ) + "</div>"@ + promote_from(s@, next, st@, en@));
                        assert(out@ =~= before + (s@.subrange(cursor as int, start as int)
                            + "<div class=\"mermaid\">"@ + unescape_seq(
                            s@.subrange(inner as int, end as int),
                        ) + "</div>"@));
                        cursor = end + en.len();
                    },
                }
            },
        }
    }
    assert(false);
    string_of(&out)
}

/// The HTML of a markdown text, as `pulldown-cmark` renders it with all its
/// extensions.
pub uninterp spec fn markdown_html_of(md: Seq<char>) -> Seq<char>;

/// The HTML that the sanitizer keeps of an HTML text.
pub uninterp spec fn sanitized_html_of(html: Seq<char>) -> Seq<char>;

/// Relies on `pulldown_cmark::Parser::new_ext` with `Options::all()` and
/// `pulldown_cmark::html::push_html`: the HTML of the markdown text, which
/// depends on the text alone.
#[verifier::external_body]
fn markdown_to_html(md: &str) -> (r: String)
    ensures
        r@ == markdown_html_of(md@),
{
    let parser = pulldown_cmark::Parser::new_ext(md, pulldown_cmark::Options::all());
    let mut out = String::new();
    pulldown_cmark::html::push_html(&mut out, parser);
    out
}

/// Relies on `ammonia::Builder::clean`, with the default policy and `class`
/// allowed on `pre` and `code`: the sanitized HTML, which depends on the
/// input alone.
#[verifier::external_body]
fn sanitize_html(html: &str) -> (r: String)
    ensures
        r@ == sanitized_html_of(html@),
{
    let mut builder = ammonia::Builder::default();
    builder.add_tag_attributes("pre", &["class"]).add_tag_attributes("code", &["class"]);
    builder.clean(html).to_string()
}

/// Renders markdown to sanitized HTML, with mermaid blocks promoted.
pub fn render_markdown(md: &str) -> (r: String)
    ensures
        r@ == promote_seq(sanitized_html_of(markdown_html_of(md@))),
{
    let html = markdown_to_html(md);
    let clean = sanitize_html(html.as_str());
    promote_mermaid_blocks(clean.as_str())
}


/// Index of the first character at or after `i` that is a line break or
/// not white space.
pub open spec fn skip_line_space(t: Seq<char>, i: int) -> int
    decreases t.len() - i,
{
    if 0 <= i < t.len() && is_space(t[i]) && t[i] != '\n' {
        skip_line_space(t, i + 1)
    } else {
        i
    }
}

/// A markdown block marker starts at `j`: a heading, a fence, a list item,
/// a quote or a table row.
pub open spec fn marker_at(t: Seq<char>, j: int) -> bool {
    occurs_at(t, "#"@, j) || occurs_at(t, "```"@, j) || occurs_at(t, "~~~"@, j) || occurs_at(
        t,
        "- "@,
        j,
    ) || occurs_at(t, "* "@, j) || occurs_at(t, "> "@, j) || occurs_at(t, "|"@, j) || occurs_at(
        t,
        "1. "@,
        j,
    )
}

/// A line of `t` starts at `i`.
pub open spec fn line_start(t: Seq<char>, i: int) -> bool {
    0 <= i < t.len() && (i == 0 || t[i - 1] == '\n')
}

/// Whether a text looks like markdown: once trimmed it is not empty, and
/// some line, past its leading white space, begins with a block marker.
pub open spec fn looks_md(text: Seq<char>) -> bool {
    let t = trim_seq(text);
    t.len() > 0 && exists|i: int| #[trigger] line_start(t, i) && marker_at(t, skip_line_space(t, i))
}

fn marker_at_exec(t: &[char], j: usize) -> (r: bool)
    ensures
        r == marker_at(t@, j as int),
{
    matches_at(t, &chars_of("#"), j) || matches_at(t, &chars_of("```"), j) || matches_at(
        t,
        &chars_of("~~~"),
        j,
    ) || matches_at(t, &chars_of("- "), j) || matches_at(t, &chars_of("* "), j) || matches_at(
        t,
        &chars_of("> "),
        j,
    ) || matches_at(t, &chars_of("|"), j) || matches_at(t, &chars_of("1. "), j)
}

/// Guesses whether a text is markdown from its line beginnings.
pub fn looks_like_markdown(text: &str) -> (r: bool)
    ensures
        r == looks_md(text@),
{
    let t = trim_chars(&chars_of(text));
    if t.len() == 0 {
        return false;
    }
    let mut i: usize = 0;
    while i < t.len()
        invariant
            t@ == trim_seq(text@),
            i <= t@.len(),
            forall|k: int|
                0 <= k < i ==> !(#[trigger] line_start(t@, k) && marker_at(
                    t@,
                    skip_line_space(t@, k),
                )),
        decreases t@.len() - i,
    {
        if i == 0 || t[i - 1] == '\n' {
            let mut j: usize = i;
            while j < t.len() && is_space_char(t[j]) && t[j] != '\n'
                invariant
                    i <= j <= t@.len(),
                    skip_line_space(t@, j as int) == skip_line_space(t@, i as int),
                decreases t@.len() - j,
            {
                j = j + 1;
            }
            if marker_at_exec(&t, j) {
                assert(line_start(t@, i as int));
                return true;
            }
        }
        i = i + 1;
    }
    false
}

/// The page text before the title.
pub open spec fn page_head() -> Seq<char> {
    PAGE_HEAD@
}

/// The page text between the title and the body.
pub open spec fn page_mid() -> Seq<char> {
    PAGE_MID@
}

/// The page text after the body.
pub open spec fn page_tail() -> Seq<char> {
    PAGE_TAIL@
}

/// The start of every page, up to its title.
pub const PAGE_HEAD: &'static str = "<!doctype html><html><head><meta charset=\"utf-8\"><meta name=\"viewport\" content=\"width=device-width, initial-scale=1\"><title>";

/// What follows a page's title: the style sheets, up to the body.
pub const PAGE_MID: &'static str = "</title><link rel=\"stylesheet\" href=\"https://cdn.jsdelivr.net/npm/katex@0.16.11/dist/katex.min.css\"><style>body{font-family:ui-sans-serif,system-ui,-apple-system,Segoe UI,Roboto,Ubuntu,Helvetica,Arial,sans-serif;max-width:980px;margin:24px auto;padding:0 16px;line-height:1.6;color:#111;}h1,h2,h3,h4,h5,h6{line-height:1.25;margin-top:1.25em;}pre{background:#f6f8fa;padding:12px;border-radius:8px;overflow-x:auto;tab-size:4;}code{font-family:ui-monospace,SFMono-Regular,Menlo,Monaco,Consolas,Liberation Mono,monospace;tab-size:4;}p code,li code{background:#f2f2f2;padding:0.1em 0.35em;border-radius:4px;}table{border-collapse:collapse;width:100%;display:block;overflow-x:auto;}th,td{border:1px solid #ddd;padding:8px;text-align:left;vertical-align:top;}thead th{background:#f6f8fa;}blockquote{margin:1em 0;padding:0.1em 1em;border-left:4px solid #ddd;color:#444;background:#fafafa;}.mermaid{background:#fff;border:1px solid #eee;border-radius:8px;padding:8px;}</style></head><body>";

/// What follows a page's body: the math and diagram scripts.
pub const PAGE_TAIL: &'static str = "<script defer src=\"https://cdn.jsdelivr.net/npm/katex@0.16.11/dist/katex.min.js\"></script><script defer src=\"https://cdn.jsdelivr.net/npm/katex@0.16.11/dist/contrib/auto-render.min.js\"></script><script type=\"module\">import mermaid from 'https://cdn.jsdelivr.net/npm/mermaid@11/dist/mermaid.esm.min.mjs';mermaid.initialize({startOnLoad:true,securityLevel:'strict'});</script><script>window.addEventListener('DOMContentLoaded',function(){if(window.renderMathInElement){window.renderMathInElement(document.body,{delimiters:[{left:'$$',right:'$$',display:true},{left:'$',right:'$',display:false},{left:'\\\\(',right:'\\\\)',display:false},{left:'\\\\[',right:'\\\\]',display:true}],throwOnError:false});}});</script></body></html>";

/// A full page: the escaped title and the body as given.
pub open spec fn page_of(title: Seq<char>, body: Seq<char>) -> Seq<char> {
    page_head() + escape_seq(title) + page_mid() + body + page_tail()
}

/// Wraps a body of HTML in a full page with the math and diagram scripts.
pub fn render_page(title: &str, body_html: &str) -> (r: String)
    ensures
        r@ == page_of(title@, body_html@),
{
    let mut out = String::new();
    push_all(&mut out, PAGE_HEAD);
    push_all(&mut out, html_escape(title).as_str());
    push_all(&mut out, PAGE_MID);
    push_all(&mut out, body_html);
    push_all(&mut out, PAGE_TAIL);
    out
}

/// The index of the last `c` in `s` before index `end`, if any.
pub open spec fn last_index_before(s: Seq<char>, c: char, end: int) -> Option<int>
    decreases end,
{
    if end <= 0 || end > s.len() {
        None
    } else if s[end - 1] == c {
        Some(end - 1)
    } else {
        last_index_before(s, c, end - 1)
    }
}

/// The index of the last `c` in `s`, if any.
pub open spec fn last_index_of(s: Seq<char>, c: char) -> Option<int> {
    last_index_before(s, c, s.len() as int)
}

/// The last component of a path, as the standard library finds it: empty
/// and `.` components are passed over, and there is none if the path ends
/// in `..` or has no component.
pub open spec fn file_name_of(p: Seq<char>) -> Option<Seq<char>>
    decreases p.len(),
{
    let k = match last_index_of(p, '/') {
        Some(i) => i,
        None => -1,
    };
    let seg = p.skip(k + 1);
    if seg.len() == 0 || seg == seq!['.'] {
        if k < 0 || k >= p.len() {
            None
        } else {
            file_name_of(p.take(k))
        }
    } else if seg == seq!['.', '.'] {
        None
    } else {
        Some(seg)
    }
}

/// The slug stored in a paste path `.../<id>__<slug>.<ext>`: the file name
/// without its last extension, after the first `__`; none if that is absent
/// or empty.
pub open spec fn slug_in_path(p: Seq<char>) -> Option<Seq<char>> {
    match file_name_of(p) {
        None => None,
        Some(f) => {
            let stem = match last_index_of(f, '.') {
                Some(d) => f.take(d),
                None => f,
            };
            match first_from(stem, "__"@, 0) {
                None => None,
                Some(u) => if stem.skip(u + 2).len() == 0 {
                    None
                } else {
                    Some(stem.skip(u + 2))
                },
            }
        },
    }
}

fn last_index_exec(s: &[char], c: char, end: usize) -> (r: Option<usize>)
    requires
        end <= s@.len(),
    ensures
        opt_int(r) == last_index_before(s@, c, end as int),
        r is Some ==> r->0 < end && s@[r->0 as int] == c,
{
    let mut e: usize = end;
    while e > 0 && s[e - 1] != c
        invariant
            e <= end <= s@.len(),
            last_index_before(s@, c, e as int) == last_index_before(s@, c, end as int),
        decreases e,
    {
        e = e - 1;
    }
    if e == 0 {
        None
    } else {
        Some(e - 1)
    }
}

fn file_name_exec(p: &[char]) -> (r: Option<Vec<char>>)
    ensures
        match r {
            Some(v) => file_name_of(p@) == Some(v@),
            None => file_name_of(p@) is None,
        },
{
    let mut end: usize = p.len();
    assert(p@.take(end as int) =~= p@);
    loop
        invariant
            end <= p@.len(),
            file_name_of(p@.take(end as int)) == file_name_of(p@),
        decreases end,
    {
        let ghost q = p@.take(end as int);
        let k = last_index_exec(p, '/', end);
        proof {
            assert forall|e: int| 0 <= e <= end implies last_index_before(q, '/', e)
                == last_index_before(p@, '/', e) by {
                lemma_last_index_prefix(p@, end as int, e);
            }
        }
        let start: usize = match k {
            Some(i) => i + 1,
            None => 0,
        };
        let seg_len = end - start;
        assert(q.skip(start as int) =~= p@.subrange(start as int, end as int));
        let is_dot = seg_len == 1 && p[start] == '.';
        let is_dotdot = seg_len == 2 && p[start] == '.' && p[start + 1] == '.';
        if seg_len == 0 || is_dot {
            if is_dot {
                assert(q.skip(start as int) =~= seq!['.']);
            }
            match k {
                None => {
                    return None;
                },
                Some(i) => {
                    assert(q.take(i as int) =~= p@.take(i as int));
                    end = i;
                },
            }
        } else if is_dotdot {
            assert(q.skip(start as int) =~= seq!['.', '.']);
            return None;
        } else {
            proof {
                if q.skip(start as int) == seq!['.'] {
                    assert(q.skip(start as int)[0] == p@[start as int]);
                }
                if q.skip(start as int) == seq!['.', '.'] {
                    assert(q.skip(start as int)[0] == p@[start as int]);
                    assert(q.skip(start as int)[1] == p@[start + 1]);
                }
            }
            let mut v: Vec<char> = Vec::new();
            let mut m: usize = start;
            while m < end
                invariant
                    start <= m <= end <= p@.len(),
                    v@ == p@.subrange(start as int, m as int),
                decreases end - m,
            {
                v.push(p[m]);
                m = m + 1;
                assert(v@ =~= p@.subrange(start as int, m as int));
            }
            return Some(v);
        }
    }
}

proof fn lemma_last_index_prefix(s: Seq<char>, n: int, e: int)
    requires
        0 <= e <= n <= s.len(),
    ensures
        last_index_before(s.take(n), '/', e) == last_index_before(s, '/', e),
    decreases e,
{
    if e > 0 {
        lemma_last_index_prefix(s, n, e - 1);
    }
}

/// The slug stored in a paste path, if there is one.
pub fn slug_from_rel_path(rel_path: &str) -> (r: Option<String>)
    ensures
        crate::digest::opt_view(r) == slug_in_path(rel_path@),
{
    let p = chars_of(rel_path);
    let f = match file_name_exec(&p) {
        Some(f) => f,
        None => return None,
    };
    let dot = last_index_exec(&f, '.', f.len());
    let stem_len: usize = match dot {
        Some(d) => d,
        None => f.len(),
    };
    let mut stem: Vec<char> = Vec::new();
    let mut i: usize = 0;
    while i < stem_len
        invariant
            stem_len <= f@.len(),
            i <= stem_len,
            stem@ == f@.take(i as int),
        decreases stem_len - i,
    {
        stem.push(f[i]);
        i = i + 1;
        assert(stem@ =~= f@.take(i as int));
    }
    assert(dot is None ==> stem@ =~= f@);
    let under = chars_of("__");
    proof {
        reveal_strlit("__");
    }
    let u = find_from(&stem, &under, 0);
    proof {
        lemma_first_from(stem@, under@, 0, opt_int(u));
    }
    match u {
        None => None,
        Some(u) => {
            let from = u + 2;
            if from >= stem.len() {
                assert(stem@.skip(from as int).len() == 0);
                return None;
            }
            let mut out: Vec<char> = Vec::new();
            let mut m: usize = from;
            while m < stem.len()
                invariant
                    from <= m <= stem@.len(),
                    out@ == stem@.subrange(from as int, m as int),
                decreases stem@.len() - m,
            {
                out.push(stem[m]);
                m = m + 1;
                assert(out@ =~= stem@.subrange(from as int, m as int));
            }
            assert(out@ =~= stem@.skip(from as int));
            Some(string_of(&out))
        },
    }
}


/// The text that `time` displays for an instant given in nanoseconds since
/// the epoch, or none outside the range it supports.
pub uninterp spec fn timestamp_text_of(unix_nanos: i128) -> Option<Seq<char>>;

/// Relies on `time::OffsetDateTime::from_unix_timestamp_nanos` and the
/// type's `Display`: the instant in UTC as text, or none when the instant is
/// outside the supported range. The text depends on the instant alone.
#[verifier::external_body]
fn timestamp_text(t: Timestamp) -> (r: Option<String>)
    ensures
        crate::digest::opt_view(r) == timestamp_text_of(t.unix_nanos),
{
    match time::OffsetDateTime::from_unix_timestamp_nanos(t.unix_nanos) {
        Ok(v) => Some(v.to_string()),
        Err(_) => None,
    }
}

/// The decimal digits of a number.
pub open spec fn decimal_of(n: nat) -> Seq<char>
    decreases n,
{
    if n < 10 {
        seq![((48 + n) as char)]
    } else {
        decimal_of(n / 10) + seq![((48 + n % 10) as char)]
    }
}

/// The decimal digits of a number.
pub fn decimal_text(n: usize) -> (r: String)
    ensures
        r@ == decimal_of(n as nat),
{
    let mut digits: Vec<char> = Vec::new();
    let mut m: usize = n;
    let ghost mut tail: Seq<char> = Seq::empty();
    while m >= 10
        invariant
            decimal_of(n as nat) == decimal_of(m as nat) + digits@.reverse(),
        decreases m,
    {
        let d = m % 10;
        digits.push(((48 + d) as u8) as char);
        proof {
            assert(digits@.reverse() =~= seq![((48 + d) as char)] + digits@.drop_last().reverse());
        }
        m = m / 10;
    }
    digits.push(((48 + m) as u8) as char);
    assert(digits@.reverse() =~= seq![((48 + m) as char)] + digits@.drop_last().reverse());
    let mut out: Vec<char> = Vec::new();
    let mut i: usize = digits.len();
    while i > 0
        invariant
            i <= digits@.len(),
            out@ == digits@.subrange(i as int, digits@.len() as int).reverse(),
        decreases i,
    {
        i = i - 1;
        out.push(digits[i]);
        assert(out@ =~= digits@.subrange(i as int, digits@.len() as int).reverse());
    }
    assert(digits@.subrange(0, digits@.len() as int) =~= digits@);
    string_of(&out)
}

/// The slug shown for a paste in the dashboard.
pub open spec fn shown_slug(item: RecentItem) -> Seq<char> {
    match slug_in_path(item.path@) {
        Some(x) => x,
        None => "paste"@,
    }
}

/// The creation time shown for a paste in the dashboard.
pub open spec fn shown_created(item: RecentItem) -> Seq<char> {
    match timestamp_text_of(item.created_at.unix_nanos) {
        Some(x) => x,
        None => "-"@,
    }
}

/// The tag shown for a paste in the dashboard.
pub open spec fn shown_tag(item: RecentItem) -> Seq<char> {
    match item.tag {
        Some(t) => t@,
        None => "-"@,
    }
}

/// The first cell of a dashboard row: a link to the rendered paste.
pub open spec fn row_link(item: RecentItem) -> Seq<char> {
    let id = escape_seq(item.id@);
    "<tr><td><a href=\"/p/"@ + id + "/"@ + escape_seq(shown_slug(item)) + "\">"@ + id
        + "</a></td><td>"@
}

/// The middle cells of a dashboard row: time, tag, content type and size.
pub open spec fn row_cells(item: RecentItem) -> Seq<char> {
    escape_seq(shown_created(item)) + "</td><td>"@ + escape_seq(shown_tag(item)) + "</td><td>"@
        + escape_seq(item.content_type@) + "</td><td>"@ + decimal_of(item.size as nat)
}

/// The last cell of a dashboard row: links to the metadata and the source.
pub open spec fn row_links(item: RecentItem) -> Seq<char> {
    let id = escape_seq(item.id@);
    "</td><td><a href=\"/api/v1/p/"@ + id + "\">meta</a> \u{b7} <a href=\"/p/"@ + id
        + "/md\">md</a> \u{b7} <code>"@ + escape_seq(item.path@) + "</code></td></tr>"@
}

/// The row of one paste in the dashboard.
pub open spec fn dashboard_row(item: RecentItem) -> Seq<char> {
    row_link(item) + row_cells(item) + row_links(item)
}

/// The rows of the dashboard, in the order of the items.
pub open spec fn dashboard_rows(items: Seq<RecentItem>) -> Seq<char>
    decreases items.len(),
{
    if items.len() == 0 {
        Seq::empty()
    } else {
        dashboard_rows(items.drop_last()) + dashboard_row(items.last())
    }
}

/// The start of the dashboard body, up to its rows.
pub const DASHBOARD_HEAD: &'static str = "<h1>LAN Paste Dashboard</h1><p>Quick API entry points:</p><ul><li><a href=\"/api\">/api</a> (index)</li><li><a href=\"/api/v1/recent?n=20\">/api/v1/recent?n=20</a></li><li><code>POST /api/v1/paste?name=note.md&amp;tag=demo</code></li></ul><h2>Recent Pastes</h2><table border=\"1\" cellpadding=\"6\" cellspacing=\"0\"><thead><tr><th>ID</th><th>Created</th><th>Tag</th><th>Content-Type</th><th>Bytes</th><th>Links</th></tr></thead><tbody>";

/// The row shown when there is no paste.
pub const DASHBOARD_EMPTY: &'static str = "<tr><td colspan=\"6\">No pastes yet. POST to <code>/api/v1/paste</code> to create one.</td></tr>";

/// The end of the dashboard body.
pub const DASHBOARD_TAIL: &'static str = "</tbody></table>";

/// The dashboard page of a listing.
pub open spec fn dashboard_of(items: Seq<RecentItem>) -> Seq<char> {
    let rows = if items.len() == 0 {
        DASHBOARD_EMPTY@
    } else {
        dashboard_rows(items)
    };
    page_of("LAN Paste Dashboard"@, DASHBOARD_HEAD@ + rows + DASHBOARD_TAIL@)
}

fn push_escaped(out: &mut String, s: &str)
    ensures
        final(out)@ == old(out)@ + escape_seq(s@),
{
    let e = html_escape(s);
    push_all(out, e.as_str());
}

fn row_link_exec(item: &RecentItem) -> (r: String)
    ensures
        r@ == row_link(*item),
{
    let slug = match slug_from_rel_path(item.path.as_str()) {
        Some(x) => x,
        None => "paste".to_string(),
    };
    let id = item.id.as_str();
    let mut out = String::new();
    push_all(&mut out, "<tr><td><a href=\"/p/");
    push_escaped(&mut out, id);
    push_all(&mut out, "/");
    push_escaped(&mut out, slug.as_str());
    push_all(&mut out, "\">");
    push_escaped(&mut out, id);
    push_all(&mut out, "</a></td><td>");
    assert(out@ =~= row_link(*item));
    out
}

fn row_cells_exec(item: &RecentItem) -> (r: String)
    ensures
        r@ == row_cells(*item),
{
    let created = match timestamp_text(item.created_at) {
        Some(x) => x,
        None => "-".to_string(),
    };
    let tag: &str = match &item.tag {
        Some(t) => t.as_str(),
        None => "-",
    };
    let mut out = String::new();
    push_escaped(&mut out, created.as_str());
    push_all(&mut out, "</td><td>");
    push_escaped(&mut out, tag);
    push_all(&mut out, "</td><td>");
    push_escaped(&mut out, item.content_type.as_str());
    push_all(&mut out, "</td><td>");
    push_all(&mut out, decimal_text(item.size).as_str());
    assert(out@ =~= row_cells(*item));
    out
}

fn row_links_exec(item: &RecentItem) -> (r: String)
    ensures
        r@ == row_links(*item),
{
    let id = item.id.as_str();
    let mut out = String::new();
    push_all(&mut out, "</td><td><a href=\"/api/v1/p/");
    push_escaped(&mut out, id);
    push_all(&mut out, "\">meta</a> \u{b7} <a href=\"/p/");
    push_escaped(&mut out, id);
    push_all(&mut out, "/md\">md</a> \u{b7} <code>");
    push_escaped(&mut out, item.path.as_str());
    push_all(&mut out, "</code></td></tr>");
    assert(out@ =~= row_links(*item));
    out
}

fn dashboard_row_exec(out: &mut String, item: &RecentItem)
    ensures
        final(out)@ == old(out)@ + dashboard_row(*item),
{
    let a = row_link_exec(item);
    let b = row_cells_exec(item);
    let c = row_links_exec(item);
    push_all(out, a.as_str());
    push_all(out, b.as_str());
    push_all(out, c.as_str());
    assert(final(out)@ =~= old(out)@ + dashboard_row(*item));
}

/// The dashboard page: links to the API and a table of the recent pastes.
pub fn render_dashboard(recent: &[RecentItem]) -> (r: String)
    ensures
        r@ == dashboard_of(recent@),
{
    let mut body = String::new();
    push_all(&mut body, DASHBOARD_HEAD);
    if recent.len() == 0 {
        push_all(&mut body, DASHBOARD_EMPTY);
    } else {
        let ghost start = body@;
        let mut i: usize = 0;
        while i < recent.len()
            invariant
                i <= recent@.len(),
                body@ == start + dashboard_rows(recent@.take(i as int)),
            decreases recent@.len() - i,
        {
            dashboard_row_exec(&mut body, &recent[i]);
            i = i + 1;
            assert(recent@.take(i as int).drop_last() =~= recent@.take(i - 1));
        }
        assert(recent@.take(recent@.len() as int) =~= recent@);
    }
    push_all(&mut body, DASHBOARD_TAIL);
    render_page("LAN Paste Dashboard", body.as_str())
}

} // verus!

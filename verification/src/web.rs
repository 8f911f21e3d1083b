//! Web tool logic: URL normalisation, search links, and HTML-to-Markdown conversion.
use vstd::prelude::*;
use vstd::utf8::encode_utf8;

use crate::text::{
    append_chars, append_str, chars_eq, ends_with, find_seq, first_match, is_white, is_whitespace,
    occurs_at, slice_chars, starts_with, starts_with_str, string_of, to_chars, trim, trim_chars,
    trim_start,
};
use crate::utils::{utf8_len, width_of};

verus! {

/// What `str::to_lowercase` gives for `s` (Unicode lower-case mapping).
pub uninterp spec fn lowercase(s: Seq<char>) -> Seq<char>;

/// The lower-case form of `s`, by `str::to_lowercase`.
#[verifier::external_body]
pub(crate) fn str_to_lowercase(s: &str) -> (r: String)
    ensures
        r@ == lowercase(s@),
{
    s.to_lowercase()
}

/// Whether a byte is left as it is by percent-encoding: ASCII letters, digits, `-`, `.`,
/// `_` and `~`.
pub open spec fn is_unreserved(b: u8) -> bool {
    (48 <= b <= 57) || (65 <= b <= 90) || (97 <= b <= 122) || b == 45 || b == 46 || b == 95 || b
        == 126
}

/// The upper-case hexadecimal digit of a value below 16.
pub open spec fn hex_digit(d: u8) -> char {
    if d < 10 {
        (48 + d) as char
    } else {
        (55 + d) as char
    }
}

/// Percent-encoding of a byte string: unreserved bytes stay, every other byte becomes `%`
/// and two upper-case hex digits.
pub open spec fn percent_encode(bytes: Seq<u8>) -> Seq<char>
    decreases bytes.len(),
{
    if bytes.len() == 0 {
        Seq::empty()
    } else {
        let b = bytes.last();
        percent_encode(bytes.drop_last()) + if is_unreserved(b) {
            seq![b as char]
        } else {
            seq!['%', hex_digit(b / 16), hex_digit(b % 16)]
        }
    }
}

/// The percent-encoding of the UTF-8 bytes of `s`, by `urlencoding::encode`.
#[verifier::external_body]
fn url_encode(s: &str) -> (r: String)
    ensures
        r@ == percent_encode(encode_utf8(s@)),
{
    urlencoding::encode(s).into_owned()
}

/// The URL that a raw URL stands for: trimmed, with `https://` added when it has no http
/// or https scheme; none when it is blank.
pub open spec fn normalized_url(raw: Seq<char>) -> Option<Seq<char>> {
    let t = trim(raw);
    if t.len() == 0 {
        None
    } else if starts_with(t, "http://"@) || starts_with(t, "https://"@) {
        Some(t)
    } else {
        Some("https://"@ + t)
    }
}

/// Normalize a raw URL string, prepending `https://` if no scheme is present.
pub fn normalize_url(raw: &str) -> (r: Option<String>)
    ensures
        match r {
            Some(u) => normalized_url(raw@) == Some(u@),
            None => normalized_url(raw@) is None,
        },
{
    let v = to_chars(raw);
    let t = trim_chars(&v);
    if t.len() == 0 {
        return None;
    }
    if starts_with_str(&t, "http://") || starts_with_str(&t, "https://") {
        Some(string_of(&t))
    } else {
        let mut out: Vec<char> = Vec::new();
        append_str(&mut out, "https://");
        append_chars(&mut out, &t);
        Some(string_of(&out))
    }
}

/// The reply of the search tool for a query.
pub open spec fn search_reply(query: Seq<char>) -> Seq<char> {
    "Search URL: https://duckduckgo.com/?q="@ + percent_encode(encode_utf8(query))
        + "\n\nTip: Use web.fetch to retrieve the content of specific result pages."@
}

/// Generate a DuckDuckGo search URL for the given query.
pub fn web_search(query: &str) -> (r: String)
    ensures
        r@ == search_reply(query@),
{
    let encoded = url_encode(query);
    let mut out: Vec<char> = Vec::new();
    append_str(&mut out, "Search URL: https://duckduckgo.com/?q=");
    append_str(&mut out, encoded.as_str());
    append_str(
        &mut out,
        "\n\nTip: Use web.fetch to retrieve the content of specific result pages.",
    );
    string_of(&out)
}

/// The value of an attribute quoted with `q`, found in the lower-cased tag `lower` and
/// read from the same positions of `tag`.
pub open spec fn quoted_attr(tag: Seq<char>, lower: Seq<char>, attr: Seq<char>, q: char) -> Option<
    Seq<char>,
> {
    let pat = attr + seq!['=', q];
    match first_match(lower, pat, 0) {
        Some(st) => {
            let vs = st + pat.len();
            match first_match(lower, seq![q], vs) {
                Some(e) => if e <= tag.len() {
                    Some(tag.subrange(vs, e))
                } else {
                    None
                },
                None => None,
            }
        },
        None => None,
    }
}

/// The value of attribute `attr` in an HTML tag: the name is matched without regard to
/// case, the value in double quotes first, then in single quotes.
pub open spec fn attr_value(tag: Seq<char>, attr: Seq<char>) -> Option<Seq<char>> {
    let lower = lowercase(tag);
    match quoted_attr(tag, lower, attr, '"') {
        Some(v) => Some(v),
        None => quoted_attr(tag, lower, attr, '\''),
    }
}

fn quoted_attr_exec(tag: &Vec<char>, lower: &Vec<char>, attr: &Vec<char>, q: char) -> (r: Option<
    Vec<char>,
>)
    ensures
        match r {
            Some(v) => quoted_attr(tag@, lower@, attr@, q) == Some(v@),
            None => quoted_attr(tag@, lower@, attr@, q) is None,
        },
{
    let mut pat = attr.clone();
    let ghost a = attr@;
    pat.push('=');
    pat.push(q);
    assert(pat@ =~= a + seq!['=', q]);
    match find_seq(lower, &pat, 0) {
        Some(st) => {
            assert(occurs_at(lower@, pat@, st as int));
            assert(lower@.len() == lower.len());
            let vs = st + pat.len();
            let mut qv: Vec<char> = Vec::new();
            qv.push(q);
            assert(qv@ =~= seq![q]);
            match find_seq(lower, &qv, vs) {
                Some(e) => {
                    if e <= tag.len() {
                        Some(slice_chars(tag, vs, e))
                    } else {
                        None
                    }
                },
                None => None,
            }
        },
        None => None,
    }
}

/// Extract an attribute value from an HTML tag string.
pub fn extract_attr(tag: &str, attr_name: &str) -> (r: Option<String>)
    ensures
        match r {
            Some(v) => attr_value(tag@, attr_name@) == Some(v@),
            None => attr_value(tag@, attr_name@) is None,
        },
{
    let lower_s = str_to_lowercase(tag);
    let lower = to_chars(lower_s.as_str());
    let t = to_chars(tag);
    let a = to_chars(attr_name);
    match quoted_attr_exec(&t, &lower, &a, '"') {
        Some(v) => Some(string_of(&v)),
        None => match quoted_attr_exec(&t, &lower, &a, '\'') {
            Some(v) => Some(string_of(&v)),
            None => None,
        },
    }
}

/// The leading part of `s` up to its first whitespace.
pub open spec fn until_white(s: Seq<char>) -> Seq<char>
    decreases s.len(),
{
    if s.len() == 0 || is_white(s[0]) {
        Seq::empty()
    } else {
        seq![s[0]] + until_white(s.drop_first())
    }
}

/// The first whitespace-separated word of `s`, or nothing.
pub open spec fn first_word(s: Seq<char>) -> Seq<char> {
    until_white(trim_start(s))
}

/// `s` without leading slashes.
pub open spec fn trim_slashes(s: Seq<char>) -> Seq<char>
    decreases s.len(),
{
    if s.len() > 0 && s[0] == '/' {
        trim_slashes(s.drop_first())
    } else {
        s
    }
}

pub(crate) fn first_word_exec(s: &Vec<char>) -> (r: Vec<char>)
    ensures
        r@ == first_word(s@),
{
    let t = crate::text::trim_start_chars(s);
    let mut j: usize = 0;
    assert(t@.subrange(0, t@.len() as int) =~= t@);
    assert(t@.subrange(0, 0) + until_white(t@) =~= until_white(t@));
    while j < t.len() && !is_whitespace(t[j])
        invariant
            j <= t.len(),
            until_white(t@) == t@.subrange(0, j as int) + until_white(t@.subrange(j as int, t@.len() as int)),
        decreases t.len() - j,
    {
        let ghost rest = t@.subrange(j as int, t@.len() as int);
        assert(rest.drop_first() =~= t@.subrange(j + 1, t@.len() as int));
        assert(t@.subrange(0, j + 1) =~= t@.subrange(0, j as int) + seq![rest[0]]);
        j += 1;
    }
    proof {
        assert(t@.subrange(0, t@.len() as int) =~= t@);
        assert(t@.subrange(0, 0) =~= Seq::<char>::empty());
    }
    let r = slice_chars(&t, 0, j);
    assert(until_white(t@) =~= r@);
    r
}

fn trim_slashes_exec(s: &Vec<char>) -> (r: Vec<char>)
    ensures
        r@ == trim_slashes(s@),
{
    let mut i: usize = 0;
    assert(s@.subrange(0, s@.len() as int) =~= s@);
    while i < s.len() && s[i] == '/'
        invariant
            i <= s.len(),
            trim_slashes(s@) == trim_slashes(s@.subrange(i as int, s@.len() as int)),
        decreases s.len() - i,
    {
        assert(s@.subrange(i as int, s@.len() as int).drop_first() =~= s@.subrange(
            i + 1,
            s@.len() as int,
        ));
        i += 1;
    }
    slice_chars(s, i, s.len())
}

/// The model of the converter's state: the Markdown so far, whether a tag is being read,
/// the tag text read so far, whether content is being skipped, the name of the element
/// being skipped, and whether the last output was a line break.
pub type HtmlView = (Seq<char>, bool, Seq<char>, bool, Seq<char>, bool);

/// The state of the HTML-to-Markdown converter.
pub struct HtmlState {
    pub result: Vec<char>,
    pub in_tag: bool,
    pub tag_buf: Vec<char>,
    pub skip: bool,
    pub skip_name: Vec<char>,
    pub last_newline: bool,
}

impl View for HtmlState {
    type V = HtmlView;

    open spec fn view(&self) -> HtmlView {
        (
            self.result@,
            self.in_tag,
            self.tag_buf@,
            self.skip,
            self.skip_name@,
            self.last_newline,
        )
    }
}

/// Whether a tag opens an element whose content is dropped.
pub open spec fn is_skip_tag(tag: Seq<char>) -> bool {
    starts_with(tag, "script"@) || starts_with(tag, "style"@) || starts_with(tag, "nav"@)
        || starts_with(tag, "footer"@) || starts_with(tag, "header"@) || starts_with(
        tag,
        "noscript"@,
    )
}

/// Output that ends a block: a line break unless one is there, and a blank line unless
/// the last output was a line break.
pub open spec fn block_break(st: HtmlView) -> HtmlView {
    let r1 = if ends_with(st.0, "\n"@) {
        st.0
    } else {
        st.0.push('\n')
    };
    if !st.5 {
        (r1.push('\n'), st.1, st.2, st.3, st.4, true)
    } else {
        (r1, st.1, st.2, st.3, st.4, st.5)
    }
}

/// The state with `s` appended to the output.
pub open spec fn emit(st: HtmlView, s: Seq<char>) -> HtmlView {
    (st.0 + s, st.1, st.2, st.3, st.4, st.5)
}

/// The state with `s` appended to the output and the last output marked a line break.
pub open spec fn emit_break(st: HtmlView, s: Seq<char>) -> HtmlView {
    (st.0 + s, st.1, st.2, st.3, st.4, true)
}

/// The Markdown that a recognised tag adds, given its lower-cased text `tag`, its name,
/// and whether it carries an `href`.
pub open spec fn tag_markdown(st: HtmlView, tag: Seq<char>, name: Seq<char>, href: bool) -> HtmlView {
    if name == "h1"@ {
        emit(st, "\n# "@)
    } else if name == "h2"@ {
        emit(st, "\n## "@)
    } else if name == "h3"@ {
        emit(st, "\n### "@)
    } else if name == "h4"@ {
        emit(st, "\n#### "@)
    } else if name == "h5"@ {
        emit(st, "\n##### "@)
    } else if name == "h6"@ {
        emit(st, "\n###### "@)
    } else if name == "p"@ || name == "div"@ || name == "section"@ || name == "article"@ {
        block_break(st)
    } else if name == "br"@ {
        emit_break(st, "\n"@)
    } else if name == "li"@ {
        emit(st, "\n- "@)
    } else if name == "strong"@ || name == "b"@ {
        emit(st, "**"@)
    } else if name == "em"@ || name == "i"@ {
        emit(st, "*"@)
    } else if name == "code"@ {
        emit(st, "`"@)
    } else if name == "pre"@ {
        emit(st, "\n```\n"@)
    } else if name == "hr"@ {
        emit(st, "\n---\n"@)
    } else if starts_with(tag, "a "@) {
        if href {
            emit(st, "["@)
        } else {
            st
        }
    } else if starts_with(tag, "/a"@) {
        emit(st, "]"@)
    } else if starts_with(tag, "/strong"@) || starts_with(tag, "/b"@) {
        emit(st, "**"@)
    } else if starts_with(tag, "/em"@) || starts_with(tag, "/i"@) {
        emit(st, "*"@)
    } else if starts_with(tag, "/code"@) {
        emit(st, "`"@)
    } else if starts_with(tag, "/pre"@) {
        emit(st, "\n```\n"@)
    } else if starts_with(tag, "/h"@) {
        emit_break(st, "\n"@)
    } else if starts_with(tag, "/p"@) || starts_with(tag, "/div"@) || starts_with(tag, "/li"@) {
        if ends_with(st.0, "\n"@) {
            st
        } else {
            emit(st, "\n"@)
        }
    } else {
        st
    }
}

/// The effect of a closed tag with lower-cased, trimmed text `tag`: skipped elements start
/// or end, and elsewhere recognised tags add Markdown.
pub open spec fn tag_effect(st: HtmlView, tag: Seq<char>, href: bool) -> HtmlView {
    let name = trim_slashes(first_word(tag));
    if is_skip_tag(tag) {
        (st.0, st.1, st.2, true, name, st.5)
    } else if starts_with(tag, "/"@) && st.3 {
        if first_word(trim_slashes(tag)) == st.4 {
            (st.0, st.1, st.2, false, Seq::empty(), st.5)
        } else {
            st
        }
    } else if st.3 {
        st
    } else {
        tag_markdown(st, tag, name, href)
    }
}

fn lit_eq(v: &Vec<char>, lit: &str) -> (r: bool)
    ensures
        r == (v@ == lit@),
{
    let w = to_chars(lit);
    chars_eq(v, &w)
}

fn ends_with_newline(v: &Vec<char>) -> (r: bool)
    ensures
        r == ends_with(v@, "\n"@),
{
    let mut nl: Vec<char> = Vec::new();
    append_str(&mut nl, "\n");
    crate::text::ends_with_exec(v, &nl)
}

/// Applies the Markdown of a recognised tag.
fn apply_tag_markdown(st: &mut HtmlState, tag: &Vec<char>, name: &Vec<char>, href: bool)
    ensures
        final(st)@ == tag_markdown(old(st)@, tag@, name@, href),
{
    if lit_eq(name, "h1") {
        append_str(&mut st.result, "\n# ");
    } else if lit_eq(name, "h2") {
        append_str(&mut st.result, "\n## ");
    } else if lit_eq(name, "h3") {
        append_str(&mut st.result, "\n### ");
    } else if lit_eq(name, "h4") {
        append_str(&mut st.result, "\n#### ");
    } else if lit_eq(name, "h5") {
        append_str(&mut st.result, "\n##### ");
    } else if lit_eq(name, "h6") {
        append_str(&mut st.result, "\n###### ");
    } else if lit_eq(name, "p") || lit_eq(name, "div") || lit_eq(name, "section") || lit_eq(
        name,
        "article",
    ) {
        if !ends_with_newline(&st.result) {
            st.result.push('\n');
        }
        if !st.last_newline {
            st.result.push('\n');
            st.last_newline = true;
        }
    } else if lit_eq(name, "br") {
        append_str(&mut st.result, "\n");
        st.last_newline = true;
    } else if lit_eq(name, "li") {
        append_str(&mut st.result, "\n- ");
    } else if lit_eq(name, "strong") || lit_eq(name, "b") {
        append_str(&mut st.result, "**");
    } else if lit_eq(name, "em") || lit_eq(name, "i") {
        append_str(&mut st.result, "*");
    } else if lit_eq(name, "code") {
        append_str(&mut st.result, "`");
    } else if lit_eq(name, "pre") {
        append_str(&mut st.result, "\n```\n");
    } else if lit_eq(name, "hr") {
        append_str(&mut st.result, "\n---\n");
    } else if starts_with_str(tag, "a ") {
        if href {
            append_str(&mut st.result, "[");
        }
    } else if starts_with_str(tag, "/a") {
        append_str(&mut st.result, "]");
    } else if starts_with_str(tag, "/strong") || starts_with_str(tag, "/b") {
        append_str(&mut st.result, "**");
    } else if starts_with_str(tag, "/em") || starts_with_str(tag, "/i") {
        append_str(&mut st.result, "*");
    } else if starts_with_str(tag, "/code") {
        append_str(&mut st.result, "`");
    } else if starts_with_str(tag, "/pre") {
        append_str(&mut st.result, "\n```\n");
    } else if starts_with_str(tag, "/h") {
        append_str(&mut st.result, "\n");
        st.last_newline = true;
    } else if starts_with_str(tag, "/p") || starts_with_str(tag, "/div") || starts_with_str(
        tag,
        "/li",
    ) {
        if !ends_with_newline(&st.result) {
            append_str(&mut st.result, "\n");
        }
    }
}

/// Applies a closed tag, given its lower-cased, trimmed text and whether it carries an
/// `href` attribute.
pub fn apply_tag(st: &mut HtmlState, tag: &Vec<char>, href: bool)
    ensures
        final(st)@ == tag_effect(old(st)@, tag@, href),
{
    let w = first_word_exec(tag);
    let name = trim_slashes_exec(&w);
    if starts_with_str(tag, "script") || starts_with_str(tag, "style") || starts_with_str(tag, "nav")
        || starts_with_str(tag, "footer") || starts_with_str(tag, "header") || starts_with_str(
        tag,
        "noscript",
    ) {
        st.skip = true;
        st.skip_name = name;
        return ;
    }
    if starts_with_str(tag, "/") && st.skip {
        let closing = trim_slashes_exec(tag);
        let closing_name = first_word_exec(&closing);
        if chars_eq(&closing_name, &st.skip_name) {
            st.skip = false;
            st.skip_name = Vec::new();
        }
        return ;
    }
    if st.skip {
        return ;
    }
    apply_tag_markdown(st, tag, &name, href);
}

/// The text an entity stands for: a known name gives its character, an unknown one is
/// kept as written (with a closing `;`), an empty one gives nothing, and an over-long
/// one (more than ten bytes) is kept without a `;`.
pub open spec fn entity_text(ent: Seq<char>, over: bool) -> Seq<char> {
    if over {
        "&"@ + ent
    } else if ent.len() == 0 {
        Seq::empty()
    } else if ent == "amp"@ {
        "&"@
    } else if ent == "lt"@ {
        "<"@
    } else if ent == "gt"@ {
        ">"@
    } else if ent == "quot"@ {
        "\""@
    } else if ent == "apos"@ || ent == "#39"@ {
        "'"@
    } else if ent == "nbsp"@ || ent == "#160"@ {
        " "@
    } else {
        "&"@ + ent + ";"@
    }
}

/// Reads an entity name from index `j`: up to a `;` (which is consumed), the end of the
/// text, or until the name exceeds ten bytes. Gives the name, the index after it, and
/// whether it was too long.
pub open spec fn entity_scan(h: Seq<char>, j: int, ent: Seq<char>) -> (Seq<char>, int, bool)
    decreases h.len() - j,
{
    if j < 0 || j >= h.len() {
        (ent, j, false)
    } else if h[j] == ';' {
        (ent, j + 1, false)
    } else if utf8_len(ent.push(h[j])) > 10 {
        (ent.push(h[j]), j + 1, true)
    } else {
        entity_scan(h, j + 1, ent.push(h[j]))
    }
}

/// The converter reading the text at index `i`: the next state and where reading goes on.
pub open spec fn html_step(h: Seq<char>, i: int, st: HtmlView) -> (HtmlView, int) {
    let ch = h[i];
    if ch == '<' {
        ((st.0, true, Seq::empty(), st.3, st.4, st.5), i + 1)
    } else if st.1 {
        if ch == '>' {
            (
                tag_effect(
                    (st.0, false, st.2, st.3, st.4, st.5),
                    lowercase(trim(st.2)),
                    attr_value(st.2, "href"@) is Some,
                ),
                i + 1,
            )
        } else {
            ((st.0, true, st.2.push(ch), st.3, st.4, st.5), i + 1)
        }
    } else if st.3 {
        (st, i + 1)
    } else if ch == '&' {
        let (ent, next, over) = entity_scan(h, i + 1, Seq::empty());
        ((st.0 + entity_text(ent, over), st.1, st.2, st.3, st.4, false), next)
    } else if ch == '\n' || ch == '\r' {
        if !st.5 && st.0.len() > 0 {
            ((st.0.push('\n'), st.1, st.2, st.3, st.4, true), i + 1)
        } else {
            (st, i + 1)
        }
    } else if ch == ' ' || ch == '\t' {
        if !ends_with(st.0, " "@) && !ends_with(st.0, "\n"@) {
            ((st.0.push(' '), st.1, st.2, st.3, st.4, st.5), i + 1)
        } else {
            (st, i + 1)
        }
    } else {
        ((st.0.push(ch), st.1, st.2, st.3, st.4, false), i + 1)
    }
}

/// The converter's state after reading `h` from index `i` on.
pub open spec fn html_run(h: Seq<char>, i: int, st: HtmlView) -> HtmlView
    decreases h.len() - i,
{
    if 0 <= i < h.len() {
        let (st2, n) = html_step(h, i, st);
        if i < n <= h.len() {
            html_run(h, n, st2)
        } else {
            st2
        }
    } else {
        st
    }
}

/// Newline runs cut to at most two: the output so far and the length of the current run.
pub open spec fn collapse_run(s: Seq<char>) -> (Seq<char>, nat)
    decreases s.len(),
{
    if s.len() == 0 {
        (Seq::empty(), 0)
    } else {
        let (out, count) = collapse_run(s.drop_last());
        if s.last() == '\n' {
            if count + 1 <= 2 {
                (out.push('\n'), count + 1)
            } else {
                (out, count + 1)
            }
        } else {
            (out.push(s.last()), 0)
        }
    }
}

/// The Markdown-like text of an HTML document: tags converted or dropped, script, style,
/// navigation, header and footer content removed, common entities decoded, whitespace
/// collapsed, at most two line breaks in a row, and the result trimmed.
pub open spec fn html_to_markdown(h: Seq<char>) -> Seq<char> {
    let st = html_run(h, 0, (Seq::empty(), false, Seq::empty(), false, Seq::empty(), false));
    trim(collapse_run(st.0).0)
}

/// Whether `c` is read by the converter as plain text: no tag, entity or whitespace.
pub open spec fn is_plain(c: char) -> bool {
    c != '<' && c != '&' && !is_white(c)
}

proof fn lemma_plain_run(h: Seq<char>, i: int, st: HtmlView)
    requires
        0 <= i <= h.len(),
        forall|k: int| 0 <= k < h.len() ==> is_plain(#[trigger] h[k]),
        !st.1,
        !st.3,
    ensures
        html_run(h, i, st).0 == st.0 + h.subrange(i, h.len() as int),
    decreases h.len() - i,
{
    if i < h.len() {
        assert(is_plain(h[i]));
        let st2 = (st.0.push(h[i]), st.1, st.2, st.3, st.4, false);
        assert(html_step(h, i, st) == (st2, i + 1));
        lemma_plain_run(h, i + 1, st2);
        assert(st.0 + h.subrange(i, h.len() as int) =~= st2.0 + h.subrange(i + 1, h.len() as int));
    } else {
        assert(h.subrange(i, h.len() as int) =~= Seq::<char>::empty());
        assert(st.0 + Seq::<char>::empty() =~= st.0);
    }
}

proof fn lemma_collapse_without_breaks(s: Seq<char>)
    requires
        forall|k: int| 0 <= k < s.len() ==> #[trigger] s[k] != '\n',
    ensures
        collapse_run(s) == (s, 0nat),
    decreases s.len(),
{
    if s.len() > 0 {
        lemma_collapse_without_breaks(s.drop_last());
        assert(s.drop_last().push(s.last()) =~= s);
    }
}

/// Text with no tag, entity or whitespace comes out of the HTML conversion unchanged.
pub proof fn law_plain_text_kept(h: Seq<char>)
    requires
        forall|k: int| 0 <= k < h.len() ==> is_plain(#[trigger] h[k]),
    ensures
        html_to_markdown(h) == h,
{
    let st0 = (Seq::<char>::empty(), false, Seq::<char>::empty(), false, Seq::<char>::empty(), false);
    lemma_plain_run(h, 0, st0);
    assert(Seq::<char>::empty() + h.subrange(0, h.len() as int) =~= h);
    assert forall|k: int| 0 <= k < h.len() implies #[trigger] h[k] != '\n' by {
        assert(is_plain(h[k]));
    }
    lemma_collapse_without_breaks(h);
    if h.len() > 0 {
        assert(is_plain(h[0]));
        assert(is_plain(h[h.len() - 1]));
    }
    assert(trim_start(h) == h);
    assert(crate::text::trim_end(h) == h);
}

/// Plain text between `i` and `j` is copied to the output as it is.
proof fn lemma_plain_segment(h: Seq<char>, i: int, j: int, st: HtmlView)
    requires
        0 <= i <= j <= h.len(),
        forall|k: int| i <= k < j ==> is_plain(#[trigger] h[k]),
        !st.1,
        !st.3,
    ensures
        html_run(h, i, st) == html_run(
            h,
            j,
            (st.0 + h.subrange(i, j), false, st.2, false, st.4, if i < j {
                false
            } else {
                st.5
            }),
        ),
    decreases j - i,
{
    if i < j {
        assert(is_plain(h[i]));
        let st2 = (st.0.push(h[i]), st.1, st.2, st.3, st.4, false);
        assert(html_step(h, i, st) == (st2, i + 1));
        lemma_plain_segment(h, i + 1, j, st2);
        assert(st2.0 + h.subrange(i + 1, j) =~= st.0 + h.subrange(i, j));
    } else {
        assert(st.0 + h.subrange(i, j) =~= st.0);
    }
}

/// An entity name of ASCII characters other than `;`, short enough, is read up to its `;`.
proof fn lemma_scan_ascii(h: Seq<char>, j: int, ent: Seq<char>, m: int)
    requires
        0 <= j,
        0 <= m,
        j + m < h.len(),
        h[j + m] == ';',
        forall|k: int| j <= k < j + m ==> #[trigger] h[k] != ';' && (h[k] as u32) <= 0x7f,
        utf8_len(ent) + m <= 10,
    ensures
        entity_scan(h, j, ent) == (ent + h.subrange(j, j + m), j + m + 1, false),
    decreases m,
{
    if m == 0 {
        assert(ent + h.subrange(j, j) =~= ent);
    } else {
        assert(h[j] != ';' && (h[j] as u32) <= 0x7f);
        crate::utils::lemma_utf8_len_push(ent, h[j]);
        lemma_scan_ascii(h, j + 1, ent.push(h[j]), m - 1);
        assert(ent.push(h[j]) + h.subrange(j + 1, j + m) =~= ent + h.subrange(j, j + m));
    }
}

/// An entity between two runs of plain text is replaced by the one character it stands for.
proof fn lemma_entity_in_plain(a: Seq<char>, b: Seq<char>, name: Seq<char>, c: char)
    requires
        forall|k: int| 0 <= k < a.len() ==> is_plain(#[trigger] a[k]),
        forall|k: int| 0 <= k < b.len() ==> is_plain(#[trigger] b[k]),
        forall|k: int| 0 <= k < name.len() ==> #[trigger] name[k] != ';' && (name[k] as u32) <= 0x7f,
        1 <= name.len() <= 10,
        entity_text(name, false) == seq![c],
        !is_white(c),
    ensures
        html_to_markdown(a + "&"@ + name + ";"@ + b) == a + seq![c] + b,
{
    reveal_strlit("&");
    reveal_strlit(";");
    let h = a + "&"@ + name + ";"@ + b;
    let p = a.len() as int;
    let q = p + name.len() + 2;
    let st0 = (Seq::<char>::empty(), false, Seq::<char>::empty(), false, Seq::<char>::empty(), false);
    assert forall|k: int| 0 <= k < p implies is_plain(#[trigger] h[k]) by {
        assert(h[k] == a[k]);
    }
    lemma_plain_segment(h, 0, p, st0);
    assert(h.subrange(0, p) =~= a);
    let st1 = (a, false, Seq::<char>::empty(), false, Seq::<char>::empty(), false);
    assert(Seq::<char>::empty() + a =~= a);
    assert(h[p] == '&');
    assert(h[q - 1] == ';');
    assert forall|k: int| p + 1 <= k < p + 1 + name.len() implies #[trigger] h[k] != ';' && (h[k] as u32)
        <= 0x7f by {
        assert(h[k] == name[k - p - 1]);
    }
    assert(utf8_len(Seq::<char>::empty()) == 0) by {
        assert(vstd::utf8::encode_utf8(Seq::<char>::empty()) =~= Seq::<u8>::empty());
    }
    lemma_scan_ascii(h, p + 1, Seq::<char>::empty(), name.len() as int);
    assert(Seq::<char>::empty() + h.subrange(p + 1, p + 1 + name.len()) =~= name);
    let st2 = (a + seq![c], false, Seq::<char>::empty(), false, Seq::<char>::empty(), false);
    assert(html_step(h, p, st1) == (st2, q));
    assert(html_run(h, p, st1) == html_run(h, q, st2));
    assert forall|k: int| q <= k < h.len() implies is_plain(#[trigger] h[k]) by {
        assert(h[k] == b[k - q]);
    }
    lemma_plain_segment(h, q, h.len() as int, st2);
    assert(h.subrange(q, h.len() as int) =~= b);
    let out = a + seq![c] + b;
    assert(html_run(h, 0, st0).0 == out);
    assert forall|k: int| 0 <= k < out.len() implies #[trigger] out[k] != '\n' by {
        if k < p {
            assert(out[k] == a[k]);
            assert(is_plain(a[k]));
        } else if k > p {
            assert(out[k] == b[k - p - 1]);
            assert(is_plain(b[k - p - 1]));
        }
    }
    lemma_collapse_without_breaks(out);
    if p > 0 {
        assert(is_plain(a[0]));
        assert(out[0] == a[0]);
    }
    if b.len() > 0 {
        assert(is_plain(b[b.len() - 1]));
        assert(out[out.len() - 1] == b[b.len() - 1]);
    }
    assert(trim_start(out) == out);
    assert(crate::text::trim_end(out) == out);
}

/// Each named or numbered entity that the converter knows stands for its one character
/// wherever it comes between plain text: `&quot;` a double quote, `&amp;` an ampersand,
/// `&lt;` and `&gt;` the angle brackets, `&apos;` and `&#39;` an apostrophe.
pub proof fn law_entities_decoded(a: Seq<char>, b: Seq<char>)
    requires
        forall|k: int| 0 <= k < a.len() ==> is_plain(#[trigger] a[k]),
        forall|k: int| 0 <= k < b.len() ==> is_plain(#[trigger] b[k]),
    ensures
        html_to_markdown(a + "&quot;"@ + b) == a + "\""@ + b,
        html_to_markdown(a + "&amp;"@ + b) == a + "&"@ + b,
        html_to_markdown(a + "&lt;"@ + b) == a + "<"@ + b,
        html_to_markdown(a + "&gt;"@ + b) == a + ">"@ + b,
        html_to_markdown(a + "&apos;"@ + b) == a + "'"@ + b,
        html_to_markdown(a + "&#39;"@ + b) == a + "'"@ + b,
{
    reveal_strlit("&");
    reveal_strlit(";");
    reveal_strlit("&quot;");
    reveal_strlit("&amp;");
    reveal_strlit("&lt;");
    reveal_strlit("&gt;");
    reveal_strlit("&apos;");
    reveal_strlit("&#39;");
    reveal_strlit("quot");
    reveal_strlit("amp");
    reveal_strlit("lt");
    reveal_strlit("gt");
    reveal_strlit("apos");
    reveal_strlit("#39");
    reveal_strlit("\"");
    reveal_strlit("<");
    reveal_strlit(">");
    reveal_strlit("'");
    assert(entity_text("quot"@, false) == "\""@);
    assert("\""@ =~= seq!['"']);
    lemma_entity_in_plain(a, b, "quot"@, '"');
    assert(a + "&"@ + "quot"@ + ";"@ + b =~= a + "&quot;"@ + b);
    assert(a + seq!['"'] + b =~= a + "\""@ + b);
    assert(entity_text("amp"@, false) == "&"@);
    assert("&"@ =~= seq!['&']);
    lemma_entity_in_plain(a, b, "amp"@, '&');
    assert(a + "&"@ + "amp"@ + ";"@ + b =~= a + "&amp;"@ + b);
    assert(a + seq!['&'] + b =~= a + "&"@ + b);
    assert(entity_text("lt"@, false) == "<"@);
    assert("<"@ =~= seq!['<']);
    lemma_entity_in_plain(a, b, "lt"@, '<');
    assert(a + "&"@ + "lt"@ + ";"@ + b =~= a + "&lt;"@ + b);
    assert(a + seq!['<'] + b =~= a + "<"@ + b);
    assert("gt"@[0] != "lt"@[0]);
    assert(entity_text("gt"@, false) == ">"@);
    assert(">"@ =~= seq!['>']);
    lemma_entity_in_plain(a, b, "gt"@, '>');
    assert(a + "&"@ + "gt"@ + ";"@ + b =~= a + "&gt;"@ + b);
    assert(a + seq!['>'] + b =~= a + ">"@ + b);
    assert("apos"@[0] != "quot"@[0]);
    assert(entity_text("apos"@, false) == "'"@);
    assert("'"@ =~= seq!['\'']);
    lemma_entity_in_plain(a, b, "apos"@, '\'');
    assert(a + "&"@ + "apos"@ + ";"@ + b =~= a + "&apos;"@ + b);
    assert(a + seq!['\''] + b =~= a + "'"@ + b);
    assert("#39"@[0] != "amp"@[0]);
    assert(entity_text("#39"@, false) == "'"@);
    assert("'"@ =~= seq!['\'']);
    lemma_entity_in_plain(a, b, "#39"@, '\'');
    assert(a + "&"@ + "#39"@ + ";"@ + b =~= a + "&#39;"@ + b);
}

fn entity_text_exec(out: &mut Vec<char>, ent: &Vec<char>, over: bool)
    ensures
        final(out)@ == old(out)@ + entity_text(ent@, over),
{
    if over {
        append_str(out, "&");
        append_chars(out, ent);
    } else if ent.len() == 0 {
        assert(out@ =~= old(out)@ + Seq::<char>::empty());
    } else if lit_eq(ent, "amp") {
        append_str(out, "&");
    } else if lit_eq(ent, "lt") {
        append_str(out, "<");
    } else if lit_eq(ent, "gt") {
        append_str(out, ">");
    } else if lit_eq(ent, "quot") {
        append_str(out, "\"");
    } else if lit_eq(ent, "apos") || lit_eq(ent, "#39") {
        append_str(out, "'");
    } else if lit_eq(ent, "nbsp") || lit_eq(ent, "#160") {
        append_str(out, " ");
    } else {
        append_str(out, "&");
        append_chars(out, ent);
        append_str(out, ";");
        assert(out@ =~= old(out)@ + ("&"@ + ent@ + ";"@));
    }
}

fn entity_scan_exec(h: &Vec<char>, start: usize) -> (r: (Vec<char>, usize, bool))
    requires
        start <= h.len(),
    ensures
        (r.0@, r.1 as int, r.2) == entity_scan(h@, start as int, Seq::empty()),
        start <= r.1 <= h.len(),
{
    let mut ent: Vec<char> = Vec::new();
    let mut bytes: usize = 0;
    let mut j = start;
    proof {
        assert(encode_utf8(Seq::<char>::empty()) =~= Seq::<u8>::empty());
    }
    while j < h.len()
        invariant
            start <= j <= h.len(),
            bytes == utf8_len(ent@),
            bytes <= 10,
            entity_scan(h@, start as int, Seq::empty()) == entity_scan(h@, j as int, ent@),
        decreases h.len() - j,
    {
        let c = h[j];
        if c == ';' {
            return (ent, j + 1, false);
        }
        proof {
            crate::utils::lemma_utf8_len_push(ent@, c);
        }
        ent.push(c);
        bytes = bytes + width_of(c);
        if bytes > 10 {
            return (ent, j + 1, true);
        }
        j += 1;
    }
    (ent, j, false)
}

fn is_space_exec(v: &Vec<char>) -> (r: bool)
    ensures
        r == ends_with(v@, " "@),
{
    let mut sp: Vec<char> = Vec::new();
    append_str(&mut sp, " ");
    crate::text::ends_with_exec(v, &sp)
}

/// The converter reading the text at index `i`.
fn html_step_exec(h: &Vec<char>, i: usize, st: &mut HtmlState) -> (n: usize)
    requires
        i < h.len(),
    ensures
        (final(st)@, n as int) == html_step(h@, i as int, old(st)@),
        i < n <= h.len(),
{
    let ch = h[i];
    if ch == '<' {
        st.in_tag = true;
        st.tag_buf = Vec::new();
        return i + 1;
    }
    if st.in_tag {
        if ch == '>' {
            st.in_tag = false;
            let raw = string_of(&st.tag_buf);
            let trimmed = trim_chars(&st.tag_buf);
            let trimmed_s = string_of(&trimmed);
            let lower_s = str_to_lowercase(trimmed_s.as_str());
            let tag = to_chars(lower_s.as_str());
            let href = extract_attr(raw.as_str(), "href").is_some();
            apply_tag(st, &tag, href);
        } else {
            st.tag_buf.push(ch);
        }
        return i + 1;
    }
    if st.skip {
        return i + 1;
    }
    if ch == '&' {
        let (ent, next, over) = entity_scan_exec(h, i + 1);
        entity_text_exec(&mut st.result, &ent, over);
        st.last_newline = false;
        return next;
    }
    if ch == '\n' || ch == '\r' {
        if !st.last_newline && st.result.len() > 0 {
            st.result.push('\n');
            st.last_newline = true;
        }
    } else if ch == ' ' || ch == '\t' {
        if !is_space_exec(&st.result) && !ends_with_newline(&st.result) {
            st.result.push(' ');
        }
    } else {
        st.result.push(ch);
        st.last_newline = false;
    }
    i + 1
}

fn collapse_newlines(s: &Vec<char>) -> (r: Vec<char>)
    ensures
        r@ == collapse_run(s@).0,
{
    let mut out: Vec<char> = Vec::new();
    let mut count: usize = 0;
    let mut i: usize = 0;
    while i < s.len()
        invariant
            i <= s.len(),
            count <= i,
            collapse_run(s@.take(i as int)) == (out@, count as nat),
        decreases s.len() - i,
    {
        assert(s@.take(i + 1).drop_last() =~= s@.take(i as int));
        if s[i] == '\n' {
            count += 1;
            if count <= 2 {
                out.push('\n');
            }
        } else {
            count = 0;
            out.push(s[i]);
        }
        i += 1;
    }
    assert(s@.take(s.len() as int) =~= s@);
    out
}

/// Convert HTML to a simplified Markdown-like text.
pub fn strip_html_to_markdown(html: &str) -> (r: String)
    ensures
        r@ == html_to_markdown(html@),
{
    let h = to_chars(html);
    let mut st = HtmlState {
        result: Vec::new(),
        in_tag: false,
        tag_buf: Vec::new(),
        skip: false,
        skip_name: Vec::new(),
        last_newline: false,
    };
    let ghost init = st@;
    let mut i: usize = 0;
    while i < h.len()
        invariant
            i <= h.len(),
            h@ == html@,
            html_run(h@, 0, init) == html_run(h@, i as int, st@),
        decreases h.len() - i,
    {
        i = html_step_exec(&h, i, &mut st);
    }
    let collapsed = collapse_newlines(&st.result);
    let t = trim_chars(&collapsed);
    string_of(&t)
}

/// The most bytes of a fetched page that are kept.
pub const MAX_FETCH_BYTES: usize = 1000000;

/// What `String::from_utf8_lossy` makes of `bytes`: their UTF-8 text, with each invalid
/// sequence replaced by U+FFFD.
pub uninterp spec fn lossy_utf8(bytes: Seq<u8>) -> Seq<char>;

/// The text of `bytes`, by `String::from_utf8_lossy`.
#[verifier::external_body]
fn from_utf8_lossy(bytes: &[u8]) -> (r: String)
    ensures
        r@ == lossy_utf8(bytes@),
{
    String::from_utf8_lossy(bytes).into_owned()
}

/// The address a fetch goes to (see `normalized_url`), or the error for a blank one.
pub fn fetch_target(raw: &str) -> (r: Result<String, String>)
    ensures
        match normalized_url(raw@) {
            Some(u) => r matches Ok(s) && s@ == u,
            None => r matches Err(e) && e@ == "Error: empty URL"@,
        },
{
    match normalize_url(raw) {
        Some(u) => Ok(u),
        None => Err(crate::text::string_from("Error: empty URL")),
    }
}

/// The error for a fetched page whose status, shown as `status`, is not a success.
pub fn fetch_status_error(status: &str) -> (r: String)
    ensures
        r@ == "Error: HTTP "@ + status@,
{
    let mut v: Vec<char> = Vec::new();
    append_str(&mut v, "Error: HTTP ");
    append_str(&mut v, status);
    string_of(&v)
}

/// What a fetch of a page with content type `content_type` and body `body` gives: the text
/// of the first `MAX_FETCH_BYTES` bytes, made Markdown when the type names HTML; an error
/// when that is blank; with a note when the body was cut.
pub open spec fn fetch_text(content_type: Seq<char>, body: Seq<u8>) -> Result<Seq<char>, Seq<char>> {
    let cut = body.len() > MAX_FETCH_BYTES;
    let text = lossy_utf8(if cut { body.take(MAX_FETCH_BYTES as int) } else { body });
    let rendered = if crate::text::contains(lowercase(content_type), "text/html"@) {
        html_to_markdown(text)
    } else {
        text
    };
    if trim(rendered).len() == 0 {
        Err("Error: empty response body"@)
    } else if cut {
        Ok(rendered + "\n\n[truncated: response exceeded 1000000 bytes]"@)
    } else {
        Ok(rendered)
    }
}

/// What a fetch of a page gives (see `fetch_text`).
pub fn fetch_reply(content_type: &str, body: &[u8]) -> (r: Result<String, String>)
    ensures
        match (r, fetch_text(content_type@, body@)) {
            (Ok(s), Ok(t)) => s@ == t,
            (Err(s), Err(t)) => s@ == t,
            _ => false,
        },
{
    let cut = body.len() > MAX_FETCH_BYTES;
    let n: usize = if cut {
        MAX_FETCH_BYTES
    } else {
        body.len()
    };
    let mut kept: Vec<u8> = Vec::new();
    let mut i: usize = 0;
    while i < n
        invariant
            i <= n,
            n <= body@.len(),
            kept@ == body@.take(i as int),
        decreases n - i,
    {
        kept.push(body[i]);
        assert(kept@ =~= body@.take(i + 1));
        i += 1;
    }
    assert(kept@ =~= if cut { body@.take(MAX_FETCH_BYTES as int) } else { body@ });
    let text = from_utf8_lossy(kept.as_slice());
    let ct = str_to_lowercase(content_type);
    let ctv = to_chars(ct.as_str());
    let pat = to_chars("text/html");
    let is_html = match find_seq(&ctv, &pat, 0) {
        Some(_) => true,
        None => {
            proof {
                if crate::text::contains(ctv@, pat@) {
                    let i = choose|i: int| occurs_at(ctv@, pat@, i);
                    crate::file_ops::lemma_first_match_finds(ctv@, pat@, 0, i);
                }
            }
            false
        },
    };
    let rendered = if is_html {
        strip_html_to_markdown(text.as_str())
    } else {
        text
    };
    let rv = to_chars(rendered.as_str());
    let tv = trim_chars(&rv);
    if tv.len() == 0 {
        return Err(crate::text::string_from("Error: empty response body"));
    }
    if cut {
        let mut v = rv;
        append_str(&mut v, "\n\n[truncated: response exceeded 1000000 bytes]");
        Ok(string_of(&v))
    } else {
        Ok(rendered)
    }
}

} // verus!

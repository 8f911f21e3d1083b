//! Telegram message rules: who may talk to the bot, how replies are split to fit a
//! message, and how Markdown from the model becomes Telegram HTML.
use vstd::prelude::*;

use crate::command::texts;
use crate::utils::{fit, fit_count, utf8_len};
use crate::text::{chars_eq, append_chars, append_str, char_vecs, find_char, find_seq, first_match, opt_index, slice_chars, split_chars, split_on, starts_with, starts_with_str, string_of, string_from, to_chars, trim, trim_chars, trim_end, trim_end_chars, trim_start, trim_start_chars};

verus! {

/// The HTML text of one character: `& < > " '` become entities.
pub open spec fn esc_char(c: char) -> Seq<char> {
    if c == '&' {
        "&amp;"@
    } else if c == '<' {
        "&lt;"@
    } else if c == '>' {
        "&gt;"@
    } else if c == '"' {
        "&quot;"@
    } else if c == '\'' {
        "&#39;"@
    } else {
        seq![c]
    }
}

/// `s` with the HTML special characters replaced by entities.
pub open spec fn escape_text(s: Seq<char>) -> Seq<char>
    decreases s.len(),
{
    if s.len() == 0 {
        Seq::empty()
    } else {
        escape_text(s.drop_last()) + esc_char(s.last())
    }
}

fn push_escaped_char(out: &mut Vec<char>, c: char)
    ensures
        final(out)@ == old(out)@ + esc_char(c),
{
    if c == '&' {
        append_str(out, "&amp;");
    } else if c == '<' {
        append_str(out, "&lt;");
    } else if c == '>' {
        append_str(out, "&gt;");
    } else if c == '"' {
        append_str(out, "&quot;");
    } else if c == '\'' {
        append_str(out, "&#39;");
    } else {
        out.push(c);
        assert(out@ =~= old(out)@ + seq![c]);
    }
}

/// Appends the escaped characters of `v` from `a` up to `b`.
fn push_escaped(out: &mut Vec<char>, v: &Vec<char>, a: usize, b: usize)
    requires
        a <= b <= v.len(),
    ensures
        final(out)@ == old(out)@ + escape_text(v@.subrange(a as int, b as int)),
{
    let mut i = a;
    assert(v@.subrange(a as int, a as int) =~= Seq::<char>::empty());
    assert(old(out)@ + escape_text(Seq::<char>::empty()) =~= old(out)@);
    while i < b
        invariant
            a <= i <= b <= v.len(),
            out@ == old(out)@ + escape_text(v@.subrange(a as int, i as int)),
        decreases b - i,
    {
        assert(v@.subrange(a as int, i + 1).drop_last() =~= v@.subrange(a as int, i as int));
        push_escaped_char(out, v[i]);
        assert(out@ =~= old(out)@ + escape_text(v@.subrange(a as int, i + 1)));
        i += 1;
    }
}

/// Escape HTML special characters for Telegram HTML parse mode.
pub fn escape_html(s: &str) -> (r: String)
    ensures
        r@ == escape_text(s@),
{
    let v = to_chars(s);
    let mut out: Vec<char> = Vec::new();
    push_escaped(&mut out, &v, 0, v.len());
    assert(v@.subrange(0, v.len() as int) =~= v@);
    assert(out@ =~= escape_text(s@));
    string_of(&out)
}

/// Whether `u` is an http or https URL.
pub open spec fn is_web_url(u: Seq<char>) -> bool {
    starts_with(u, "http://"@) || starts_with(u, "https://"@)
}

/// A span delimited by a doubled marker `mm`, such as `**bold**`, starting at `i`: its HTML
/// and the index after the closing marker.
pub open spec fn try_pair(l: Seq<char>, i: int, m: char, open: Seq<char>, close: Seq<char>) -> Option<
    (Seq<char>, int),
> {
    if 0 <= i && i + 1 < l.len() && l[i] == m && l[i + 1] == m {
        match first_match(l, seq![m, m], i + 2) {
            Some(e) => Some((open + escape_text(l.subrange(i + 2, e)) + close, e + 2)),
            None => None,
        }
    } else {
        None
    }
}

/// An `*italic*` span starting at `i`, whose star does not follow another star and whose
/// text is not empty.
pub open spec fn try_italic(l: Seq<char>, i: int) -> Option<(Seq<char>, int)> {
    if 0 <= i < l.len() && l[i] == '*' && (i == 0 || l[i - 1] != '*') {
        match first_match(l, seq!['*'], i + 1) {
            Some(e) => if e > i + 1 {
                Some(("<i>"@ + escape_text(l.subrange(i + 1, e)) + "</i>"@, e + 1))
            } else {
                None
            },
            None => None,
        }
    } else {
        None
    }
}

/// A `` `code` `` span starting at `i`, whose backtick does not follow another backtick.
pub open spec fn try_code(l: Seq<char>, i: int) -> Option<(Seq<char>, int)> {
    if 0 <= i < l.len() && l[i] == '`' && (i == 0 || l[i - 1] != '`') {
        match first_match(l, seq!['`'], i + 1) {
            Some(e) => Some(("<code>"@ + escape_text(l.subrange(i + 1, e)) + "</code>"@, e + 1)),
            None => None,
        }
    } else {
        None
    }
}

/// A `[text](url)` link starting at `i`, with an http or https URL.
pub open spec fn try_link(l: Seq<char>, i: int) -> Option<(Seq<char>, int)> {
    if 0 <= i < l.len() && l[i] == '[' {
        match first_match(l, seq![']'], i + 1) {
            Some(b) => {
                let a = b + 1;
                if a < l.len() && l[a] == '(' {
                    match first_match(l, seq![')'], a + 1) {
                        Some(p) => {
                            let url = l.subrange(a + 1, p);
                            if is_web_url(url) {
                                Some(
                                    (
                                        "<a href=\""@ + escape_text(url) + "\">"@ + escape_text(
                                            l.subrange(i + 1, b),
                                        ) + "</a>"@,
                                        p + 1,
                                    ),
                                )
                            } else {
                                None
                            }
                        },
                        None => None,
                    }
                } else {
                    None
                }
            },
            None => None,
        }
    } else {
        None
    }
}

/// The HTML for the text at `i` and the index where the rest starts: the first span that
/// applies among bold (`**` or `__`), italic, code, link and strikethrough (`~~`), else
/// the escaped character.
pub open spec fn inline_step(l: Seq<char>, i: int) -> (Seq<char>, int) {
    match try_pair(l, i, '*', "<b>"@, "</b>"@) {
        Some(r) => r,
        None => match try_pair(l, i, '_', "<b>"@, "</b>"@) {
            Some(r) => r,
            None => match try_italic(l, i) {
                Some(r) => r,
                None => match try_code(l, i) {
                    Some(r) => r,
                    None => match try_link(l, i) {
                        Some(r) => r,
                        None => match try_pair(l, i, '~', "<s>"@, "</s>"@) {
                            Some(r) => r,
                            None => (esc_char(l[i]), i + 1),
                        },
                    },
                },
            },
        },
    }
}

/// The HTML of the inline Markdown of `l` from index `i` on.
pub open spec fn inline_html(l: Seq<char>, i: int) -> Seq<char>
    decreases l.len() - i,
{
    if 0 <= i < l.len() {
        let (o, n) = inline_step(l, i);
        if i < n <= l.len() {
            o + inline_html(l, n)
        } else {
            Seq::empty()
        }
    } else {
        Seq::empty()
    }
}

/// The model of an optional emitted span.
pub open spec fn opt_span(r: Option<(Vec<char>, usize)>) -> Option<(Seq<char>, int)> {
    match r {
        Some(x) => Some((x.0@, x.1 as int)),
        None => None,
    }
}

fn try_pair_exec(l: &Vec<char>, i: usize, m: char, open: &str, close: &str) -> (r: Option<
    (Vec<char>, usize),
>)
    ensures
        opt_span(r) == try_pair(l@, i as int, m, open@, close@),
        r matches Some(x) ==> i < x.1 <= l.len(),
{
    if i < l.len() && l.len() - i > 1 && l[i] == m && l[i + 1] == m {
        let mut pat: Vec<char> = Vec::new();
        pat.push(m);
        pat.push(m);
        assert(pat@ =~= seq![m, m]);
        match find_seq(l, &pat, i + 2) {
            Some(e) => {
                let mut out: Vec<char> = Vec::new();
                append_str(&mut out, open);
                push_escaped(&mut out, l, i + 2, e);
                append_str(&mut out, close);
                Some((out, e + 2))
            },
            None => None,
        }
    } else {
        None
    }
}

fn try_italic_exec(l: &Vec<char>, i: usize) -> (r: Option<(Vec<char>, usize)>)
    requires
        i < l.len(),
    ensures
        opt_span(r) == try_italic(l@, i as int),
        r matches Some(x) ==> i < x.1 <= l.len(),
{
    if l[i] == '*' && (i == 0 || l[i - 1] != '*') {
        match find_char(l, '*', i + 1) {
            Some(e) => {
                if e > i + 1 {
                    let mut out: Vec<char> = Vec::new();
                    append_str(&mut out, "<i>");
                    push_escaped(&mut out, l, i + 1, e);
                    append_str(&mut out, "</i>");
                    Some((out, e + 1))
                } else {
                    None
                }
            },
            None => None,
        }
    } else {
        None
    }
}

fn try_code_exec(l: &Vec<char>, i: usize) -> (r: Option<(Vec<char>, usize)>)
    requires
        i < l.len(),
    ensures
        opt_span(r) == try_code(l@, i as int),
        r matches Some(x) ==> i < x.1 <= l.len(),
{
    if l[i] == '`' && (i == 0 || l[i - 1] != '`') {
        match find_char(l, '`', i + 1) {
            Some(e) => {
                let mut out: Vec<char> = Vec::new();
                append_str(&mut out, "<code>");
                push_escaped(&mut out, l, i + 1, e);
                append_str(&mut out, "</code>");
                Some((out, e + 1))
            },
            None => None,
        }
    } else {
        None
    }
}

fn is_web_url_exec(u: &Vec<char>) -> (r: bool)
    ensures
        r == is_web_url(u@),
{
    starts_with_str(u, "http://") || starts_with_str(u, "https://")
}

fn try_link_exec(l: &Vec<char>, i: usize) -> (r: Option<(Vec<char>, usize)>)
    requires
        i < l.len(),
    ensures
        opt_span(r) == try_link(l@, i as int),
        r matches Some(x) ==> i < x.1 <= l.len(),
{
    if l[i] != '[' {
        return None;
    }
    let b = match find_char(l, ']', i + 1) {
        Some(b) => b,
        None => {
            return None;
        },
    };
    let a = b + 1;
    if !(a < l.len() && l[a] == '(') {
        return None;
    }
    let p = match find_char(l, ')', a + 1) {
        Some(p) => p,
        None => {
            return None;
        },
    };
    let url = slice_chars(l, a + 1, p);
    if !is_web_url_exec(&url) {
        return None;
    }
    let mut out: Vec<char> = Vec::new();
    append_str(&mut out, "<a href=\"");
    push_escaped(&mut out, l, a + 1, p);
    append_str(&mut out, "\">");
    push_escaped(&mut out, l, i + 1, b);
    append_str(&mut out, "</a>");
    Some((out, p + 1))
}

fn inline_step_exec(l: &Vec<char>, i: usize) -> (r: (Vec<char>, usize))
    requires
        i < l.len(),
    ensures
        (r.0@, r.1 as int) == inline_step(l@, i as int),
        i < r.1 <= l.len(),
{
    if let Some(x) = try_pair_exec(l, i, '*', "<b>", "</b>") {
        return x;
    }
    if let Some(x) = try_pair_exec(l, i, '_', "<b>", "</b>") {
        return x;
    }
    if let Some(x) = try_italic_exec(l, i) {
        return x;
    }
    if let Some(x) = try_code_exec(l, i) {
        return x;
    }
    if let Some(x) = try_link_exec(l, i) {
        return x;
    }
    if let Some(x) = try_pair_exec(l, i, '~', "<s>", "</s>") {
        return x;
    }
    let mut out: Vec<char> = Vec::new();
    push_escaped_char(&mut out, l[i]);
    assert(out@ =~= esc_char(l@[i as int]));
    (out, i + 1)
}

/// The HTML of the inline Markdown of a line.
fn inline_exec(l: &Vec<char>) -> (r: Vec<char>)
    ensures
        r@ == inline_html(l@, 0),
{
    let mut out: Vec<char> = Vec::new();
    let mut i: usize = 0;
    while i < l.len()
        invariant
            i <= l.len(),
            inline_html(l@, 0) == out@ + inline_html(l@, i as int),
        decreases l.len() - i,
    {
        let (o, n) = inline_step_exec(l, i);
        let ghost before = out@;
        append_chars(&mut out, &o);
        assert(before + (o@ + inline_html(l@, n as int)) =~= out@ + inline_html(l@, n as int));
        i = n;
    }
    assert(out@ + inline_html(l@, i as int) =~= out@);
    out
}

/// The number of `#` characters that `s` begins with.
pub open spec fn leading_hashes(s: Seq<char>) -> nat
    decreases s.len(),
{
    if s.len() > 0 && s[0] == '#' {
        1 + leading_hashes(s.drop_first())
    } else {
        0
    }
}

/// The HTML of one line of Markdown outside a code block: a `#` header becomes bold,
/// anything else gets inline formatting.
pub open spec fn line_html(line: Seq<char>) -> Seq<char> {
    let k = leading_hashes(line);
    let stripped = line.subrange(k as int, line.len() as int);
    if k > 0 && stripped.len() > 0 && stripped[0] == ' ' {
        "<b>"@ + escape_text(trim(stripped)) + "</b>"@
    } else {
        inline_html(line, 0)
    }
}

fn line_html_exec(line: &Vec<char>) -> (r: Vec<char>)
    ensures
        r@ == line_html(line@),
{
    let mut k: usize = 0;
    assert(line@.subrange(0, line@.len() as int) =~= line@);
    while k < line.len() && line[k] == '#'
        invariant
            k <= line.len(),
            leading_hashes(line@) == k + leading_hashes(line@.subrange(k as int, line@.len() as int)),
        decreases line.len() - k,
    {
        assert(line@.subrange(k as int, line@.len() as int).drop_first() =~= line@.subrange(
            k + 1,
            line@.len() as int,
        ));
        k += 1;
    }
    if k > 0 && k < line.len() && line[k] == ' ' {
        let stripped = slice_chars(line, k, line.len());
        let t = trim_chars(&stripped);
        let mut out: Vec<char> = Vec::new();
        append_str(&mut out, "<b>");
        push_escaped(&mut out, &t, 0, t.len());
        assert(t@.subrange(0, t@.len() as int) =~= t@);
        append_str(&mut out, "</b>");
        return out;
    }
    inline_exec(line)
}

/// Whether a line of Markdown is a code fence: it begins with three backticks once its
/// leading whitespace is dropped.
pub open spec fn is_fence(line: Seq<char>) -> bool {
    starts_with(trim_start(line), "```"@)
}

/// `s` without trailing newline characters.
pub open spec fn trim_end_newlines(s: Seq<char>) -> Seq<char>
    decreases s.len(),
{
    if s.len() > 0 && s.last() == '\n' {
        trim_end_newlines(s.drop_last())
    } else {
        s
    }
}

fn trim_end_newlines_exec(v: &Vec<char>) -> (r: Vec<char>)
    ensures
        r@ == trim_end_newlines(v@),
{
    let mut j = v.len();
    assert(v@.subrange(0, j as int) =~= v@);
    while j > 0 && v[j - 1] == '\n'
        invariant
            j <= v.len(),
            trim_end_newlines(v@) == trim_end_newlines(v@.subrange(0, j as int)),
        decreases j,
    {
        assert(v@.subrange(0, j as int).drop_last() =~= v@.subrange(0, j - 1));
        j -= 1;
    }
    slice_chars(v, 0, j)
}

/// The code-block pass's state: the output so far, whether a fence is open, and the
/// lines of the open block.
pub type FenceState = (Seq<char>, bool, Seq<char>);

/// The pass reading one line of Markdown: fences open and close code blocks, which become
/// `<pre><code>` elements; a line inside a block is kept as written, only HTML-escaped;
/// any other line is converted with `line_html`.
pub open spec fn fence_step(st: FenceState, line: Seq<char>) -> FenceState {
    let (out, in_code, buf) = st;
    if is_fence(line) {
        if !in_code {
            (out, true, Seq::empty())
        } else {
            (
                out + "<pre><code>"@ + trim_end_newlines(buf) + "</code></pre>\n"@,
                false,
                Seq::empty(),
            )
        }
    } else if in_code {
        (out, true, buf + escape_text(line) + "\n"@)
    } else {
        (out + line_html(line) + "\n"@, false, buf)
    }
}

/// The pass over the lines of a Markdown text.
pub open spec fn fence_run(lines: Seq<Seq<char>>) -> FenceState
    decreases lines.len(),
{
    if lines.len() == 0 {
        (Seq::empty(), false, Seq::empty())
    } else {
        fence_step(fence_run(lines.drop_last()), lines.last())
    }
}

/// Telegram HTML for the Markdown text `text`: lines outside code blocks converted, fenced
/// blocks turned into `<pre><code>` with their lines escaped (an unclosed block closed at
/// the end when it holds something), and trailing newlines removed.
pub open spec fn telegram_html(text: Seq<char>) -> Seq<char> {
    let (out, in_code, buf) = fence_run(split_on(text, '\n'));
    let closed = if in_code && buf.len() > 0 {
        out + "<pre><code>"@ + trim_end(buf) + "</code></pre>\n"@
    } else {
        out
    };
    trim_end_newlines(closed)
}

/// Convert standard Markdown (from LLM output) to Telegram HTML format.
///
/// `## Title` becomes `<b>Title</b>`, `**bold**` `<b>bold</b>`, `*italic*` `<i>italic</i>`,
/// `` `code` `` `<code>code</code>`, fenced blocks `<pre><code>...</code></pre>`,
/// `[text](url)` `<a href="url">text</a>` and `~~text~~` `<s>text</s>`.
pub fn markdown_to_telegram_html(text: &str) -> (r: String)
    ensures
        r@ == telegram_html(text@),
{
    let chars = to_chars(text);
    let lines = split_chars(&chars, '\n');
    let ghost ls = char_vecs(lines@);
    let mut out: Vec<char> = Vec::new();
    let mut in_code = false;
    let mut buf: Vec<char> = Vec::new();
    let mut i: usize = 0;
    while i < lines.len()
        invariant
            i <= lines.len(),
            ls == char_vecs(lines@),
            fence_run(ls.take(i as int)) == (out@, in_code, buf@),
        decreases lines.len() - i,
    {
        let raw = &lines[i];
        assert(ls.take(i + 1).drop_last() =~= ls.take(i as int));
        assert(ls.take(i + 1).last() == raw@);
        let ts = trim_start_chars(raw);
        if starts_with_str(&ts, "```") {
            if !in_code {
                in_code = true;
                buf = Vec::new();
            } else {
                in_code = false;
                append_str(&mut out, "<pre><code>");
                let b = trim_end_newlines_exec(&buf);
                append_chars(&mut out, &b);
                append_str(&mut out, "</code></pre>\n");
                buf = Vec::new();
            }
        } else if in_code {
            push_escaped(&mut buf, raw, 0, raw.len());
            assert(raw@.subrange(0, raw@.len() as int) =~= raw@);
            append_str(&mut buf, "\n");
        } else {
            let line = line_html_exec(raw);
            append_chars(&mut out, &line);
            append_str(&mut out, "\n");
        }
        i += 1;
    }
    assert(ls.take(lines.len() as int) =~= ls);
    if in_code && buf.len() > 0 {
        append_str(&mut out, "<pre><code>");
        let b = trim_end_chars(&buf);
        append_chars(&mut out, &b);
        append_str(&mut out, "</code></pre>\n");
    }
    let r = trim_end_newlines_exec(&out);
    string_of(&r)
}

/// Whether a sender may use the bot: with both allow-lists empty everyone may; otherwise
/// the chat must be allowed (or the chat list empty) and the user allowed by id or by a
/// non-empty username (or the user list empty).
pub open spec fn acl_permits(
    from: Seq<Seq<char>>,
    chats: Seq<Seq<char>>,
    user_id: Seq<char>,
    username: Option<Seq<char>>,
    chat_id: Seq<char>,
) -> bool {
    (from.len() == 0 && chats.len() == 0) || ((chats.len() == 0 || chats.contains(chat_id)) && (
    from.len() == 0 || from.contains(user_id) || (username matches Some(u) && u.len() > 0
        && from.contains(u))))
}

/// Whether `list` holds the text `x`.
fn list_contains(list: &[String], x: &Vec<char>) -> (r: bool)
    ensures
        r == texts(list@).contains(x@),
{
    let mut i: usize = 0;
    while i < list.len()
        invariant
            i <= list.len(),
            forall|j: int| 0 <= j < i ==> texts(list@)[j] != x@,
        decreases list.len() - i,
    {
        let e = to_chars(list[i].as_str());
        assert(texts(list@)[i as int] == list@[i as int]@);
        if chars_eq(&e, x) {
            assert(texts(list@).contains(x@));
            return true;
        }
        i += 1;
    }
    false
}

/// Whether a sender may use the bot.
pub fn acl_allows(
    allow_from: &[String],
    allow_chats: &[String],
    user_id: &str,
    username: Option<&str>,
    chat_id: &str,
) -> (r: bool)
    ensures
        r == acl_permits(
            texts(allow_from@),
            texts(allow_chats@),
            user_id@,
            match username {
                Some(u) => Some(u@),
                None => None,
            },
            chat_id@,
        ),
{
    if allow_from.len() == 0 && allow_chats.len() == 0 {
        return true;
    }
    let chat = to_chars(chat_id);
    let chat_ok = allow_chats.len() == 0 || list_contains(allow_chats, &chat);
    let user = to_chars(user_id);
    let user_ok = allow_from.len() == 0 || list_contains(allow_from, &user) || match username {
        Some(u) => {
            let uc = to_chars(u);
            uc.len() > 0 && list_contains(allow_from, &uc)
        },
        None => false,
    };
    chat_ok && user_ok
}

/// The index of the last newline among the first `k` characters of `s`.
pub open spec fn last_newline_before(s: Seq<char>, k: int) -> Option<int>
    decreases k,
{
    if k <= 0 || k > s.len() {
        None
    } else if s[k - 1] == '\n' {
        Some(k - 1)
    } else {
        last_newline_before(s, k - 1)
    }
}

/// `s` without leading newline characters.
pub open spec fn trim_start_newlines(s: Seq<char>) -> Seq<char>
    decreases s.len(),
{
    if s.len() > 0 && s[0] == '\n' {
        trim_start_newlines(s.drop_first())
    } else {
        s
    }
}

pub proof fn lemma_trim_start_newlines_len(s: Seq<char>)
    ensures
        trim_start_newlines(s).len() <= s.len(),
    decreases s.len(),
{
    if s.len() > 0 && s[0] == '\n' {
        lemma_trim_start_newlines_len(s.drop_first());
    }
}

/// The length in characters of the next chunk of `s`: up to the last newline among the
/// characters that fit in `max` bytes, or all of those; at least one character.
pub open spec fn chunk_len(s: Seq<char>, max: nat) -> int {
    let safe = fit(s, max);
    let split = match last_newline_before(s, safe) {
        Some(j) => j,
        None => safe,
    };
    if split == 0 {
        1
    } else {
        split
    }
}

/// The chunks of `s`, which does not fit in `max` bytes: a chunk, then the chunks of the
/// rest with its leading newlines removed.
pub open spec fn chunks_of(s: Seq<char>, max: nat) -> Seq<Seq<char>>
    decreases s.len(),
{
    if s.len() == 0 {
        Seq::empty()
    } else if utf8_len(s) <= max {
        seq![s]
    } else {
        let c = chunk_len(s, max);
        if 0 < c <= s.len() {
            proof {
                lemma_trim_start_newlines_len(s.skip(c));
            }
            seq![s.take(c)] + chunks_of(trim_start_newlines(s.skip(c)), max)
        } else {
            Seq::empty()
        }
    }
}

/// The chunks that a reply is sent in: none for a zero limit, the whole text when it fits.
pub open spec fn message_chunks(text: Seq<char>, max: nat) -> Seq<Seq<char>> {
    if max == 0 {
        Seq::empty()
    } else if utf8_len(text) <= max {
        seq![text]
    } else {
        chunks_of(text, max)
    }
}

fn last_newline_exec(v: &Vec<char>, k: usize) -> (r: Option<usize>)
    requires
        k <= v.len(),
    ensures
        opt_index(r) == last_newline_before(v@, k as int),
        r matches Some(j) ==> j < k,
{
    let mut i = k;
    while i > 0
        invariant
            i <= k <= v.len(),
            last_newline_before(v@, k as int) == last_newline_before(v@, i as int),
        decreases i,
    {
        if v[i - 1] == '\n' {
            return Some(i - 1);
        }
        i -= 1;
    }
    None
}

/// Split a long message into chunks that fit Telegram's per-message limit.
pub fn split_message(text: &str, max_len: usize) -> (r: Vec<String>)
    ensures
        texts(r@) == message_chunks(text@, max_len as nat),
{
    let mut chunks: Vec<String> = Vec::new();
    if max_len == 0 {
        assert(texts(chunks@) =~= Seq::<Seq<char>>::empty());
        return chunks;
    }
    let all = to_chars(text);
    let (_, fits) = fit_count(&all, max_len);
    if fits {
        chunks.push(crate::text::string_from(text));
        assert(texts(chunks@) =~= seq![text@]);
        return chunks;
    }
    let mut rem = all;
    assert(texts(chunks@) + chunks_of(rem@, max_len as nat) =~= chunks_of(rem@, max_len as nat));
    while rem.len() > 0
        invariant
            chunks_of(text@, max_len as nat) == texts(chunks@) + chunks_of(rem@, max_len as nat),
        decreases rem.len(),
    {
        let (safe, fits_all) = fit_count(&rem, max_len);
        if fits_all {
            let ghost before = texts(chunks@);
            let s = string_of(&rem);
            chunks.push(s);
            assert(texts(chunks@) =~= before.push(rem@));
            assert(texts(chunks@) + chunks_of(Seq::<char>::empty(), max_len as nat) =~= before + seq![rem@]);
            rem = Vec::new();
        } else {
            let split = match last_newline_exec(&rem, safe) {
                Some(j) => j,
                None => safe,
            };
            let c = if split == 0 {
                1
            } else {
                split
            };
            let chunk = slice_chars(&rem, 0, c);
            let ghost before = texts(chunks@);
            let s = string_of(&chunk);
            chunks.push(s);
            assert(texts(chunks@) =~= before.push(chunk@));
            let mut start = c;
            assert(rem@.skip(c as int) =~= rem@.subrange(c as int, rem@.len() as int));
            while start < rem.len() && rem[start] == '\n'
                invariant
                    c <= start <= rem.len(),
                    trim_start_newlines(rem@.skip(c as int)) == trim_start_newlines(
                        rem@.subrange(start as int, rem@.len() as int),
                    ),
                decreases rem.len() - start,
            {
                assert(rem@.subrange(start as int, rem@.len() as int).drop_first() =~= rem@.subrange(
                    start + 1,
                    rem@.len() as int,
                ));
                start += 1;
            }
            let next = slice_chars(&rem, start, rem.len());
            assert(trim_start_newlines(next@) == next@);
            assert(chunk@ == rem@.take(c as int));
            assert(before + (seq![chunk@] + chunks_of(next@, max_len as nat)) =~= texts(chunks@)
                + chunks_of(next@, max_len as nat));
            rem = next;
        }
    }
    assert(texts(chunks@) + chunks_of(rem@, max_len as nat) =~= texts(chunks@));
    chunks
}

/// What an incoming Telegram message carries, as far as the bot reads it.
pub enum InboundMedia {
    Text(String),
    Photo(Option<String>),
    Document(Option<String>, Option<String>),
    Voice,
    Sticker(Option<String>),
    Other,
}

/// The text of an optional field, empty when it is missing.
pub open spec fn or_empty(o: Option<String>) -> Seq<char> {
    match o {
        Some(s) => s@,
        None => Seq::empty(),
    }
}

/// The text the bot takes from a message: the text itself; a note for a photo, a
/// document, a voice message or a sticker, with its caption, file name or emoji; nothing
/// for other messages, which are ignored.
pub open spec fn inbound_text_of(m: InboundMedia) -> Option<Seq<char>> {
    match m {
        InboundMedia::Text(t) => Some(t@),
        InboundMedia::Photo(c) => if or_empty(c).len() == 0 {
            Some("[Photo received]"@)
        } else {
            Some("[Photo] "@ + or_empty(c))
        },
        InboundMedia::Document(f, c) => {
            let name = match f {
                Some(n) => n@,
                None => "unnamed"@,
            };
            if or_empty(c).len() == 0 {
                Some("[Document: "@ + name + "]"@)
            } else {
                Some("[Document: "@ + name + "] "@ + or_empty(c))
            }
        },
        InboundMedia::Voice => Some("[Voice message received]"@),
        InboundMedia::Sticker(e) => Some("[Sticker: "@ + or_empty(e) + "]"@),
        InboundMedia::Other => None,
    }
}

/// The text the bot takes from a message; `None` for messages it ignores.
pub fn inbound_text(m: &InboundMedia) -> (r: Option<String>)
    ensures
        crate::config::opt_text(r) == inbound_text_of(*m),
{
    let out: Option<String> = match m {
        InboundMedia::Text(t) => Some(t.clone()),
        InboundMedia::Photo(c) => {
            let cap = match c {
                Some(x) => to_chars(x.as_str()),
                None => Vec::new(),
            };
            if cap.len() == 0 {
                Some(string_from("[Photo received]"))
            } else {
                let mut v: Vec<char> = Vec::new();
                append_str(&mut v, "[Photo] ");
                append_chars(&mut v, &cap);
                Some(string_of(&v))
            }
        },
        InboundMedia::Document(f, c) => {
            let cap = match c {
                Some(x) => to_chars(x.as_str()),
                None => Vec::new(),
            };
            let mut v: Vec<char> = Vec::new();
            append_str(&mut v, "[Document: ");
            match f {
                Some(n) => append_str(&mut v, n.as_str()),
                None => append_str(&mut v, "unnamed"),
            }
            append_str(&mut v, "]");
            let ghost fname = if f is Some {
                f->0@
            } else {
                "unnamed"@
            };
            assert(cap@ == or_empty(*c));
            if cap.len() > 0 {
                append_str(&mut v, " ");
                append_chars(&mut v, &cap);
                proof {
                    reveal_strlit("]");
                    reveal_strlit(" ");
                    reveal_strlit("] ");
                }
                assert(v@ =~= "[Document: "@ + fname + "] "@ + or_empty(*c));
            } else {
                assert(v@ =~= "[Document: "@ + fname + "]"@);
            }
            Some(string_of(&v))
        },
        InboundMedia::Voice => Some(string_from("[Voice message received]")),
        InboundMedia::Sticker(e) => {
            let mut v: Vec<char> = Vec::new();
            append_str(&mut v, "[Sticker: ");
            match e {
                Some(x) => append_str(&mut v, x.as_str()),
                None => {},
            }
            append_str(&mut v, "]");
            Some(string_of(&v))
        },
        InboundMedia::Other => None,
    };
    proof {
        match m {
            InboundMedia::Text(t) => {
                assert(crate::config::opt_text(out) == inbound_text_of(*m));
            },
            InboundMedia::Photo(c) => {
                assert(crate::config::opt_text(out) == inbound_text_of(*m));
            },
            InboundMedia::Document(f, c) => {
                assert(crate::config::opt_text(out) == inbound_text_of(*m));
            },
            InboundMedia::Voice => {
                assert(crate::config::opt_text(out) == inbound_text_of(*m));
            },
            InboundMedia::Sticker(e) => {
                assert(crate::config::opt_text(out) == inbound_text_of(*m));
            },
            InboundMedia::Other => {},
        }
    }
    out
}

/// The session of a Telegram chat: `telegram:` and the chat's id.
pub fn session_id_for_chat(chat_id: i64) -> (r: String)
    ensures
        r@ == "telegram:"@ + crate::text::signed_decimal(chat_id as int),
{
    let mut v: Vec<char> = Vec::new();
    append_str(&mut v, "telegram:");
    let d = crate::text::signed_decimal_chars_64(chat_id);
    append_chars(&mut v, &d);
    string_of(&v)
}

/// The messages that carry a reply: the reply cut into chunks of at most 4096 bytes, each
/// as HTML and, to send when Telegram refuses the HTML, as plain text.
pub fn outgoing_messages(reply: &str) -> (r: Vec<(String, String)>)
    ensures
        r@.len() == message_chunks(reply@, 4096).len(),
        forall|i: int|
            0 <= i < r@.len() ==> (#[trigger] r@[i]).1@ == message_chunks(reply@, 4096)[i] && r@[i].0@
                == telegram_html(message_chunks(reply@, 4096)[i]),
{
    let chunks = split_message(reply, 4096);
    let mut out: Vec<(String, String)> = Vec::new();
    let mut i: usize = 0;
    while i < chunks.len()
        invariant
            i <= chunks.len(),
            texts(chunks@) == message_chunks(reply@, 4096),
            out@.len() == i,
            forall|j: int|
                0 <= j < i ==> (#[trigger] out@[j]).1@ == message_chunks(reply@, 4096)[j] && out@[j].0@
                    == telegram_html(message_chunks(reply@, 4096)[j]),
        decreases chunks.len() - i,
    {
        assert(texts(chunks@)[i as int] == chunks@[i as int]@);
        let html = markdown_to_telegram_html(chunks[i].as_str());
        out.push((html, chunks[i].clone()));
        i += 1;
    }
    out
}


/// A newline found before `k` lies before `k`.
proof fn lemma_last_newline_bounds(s: Seq<char>, k: int)
    ensures
        last_newline_before(s, k) matches Some(j) ==> 0 <= j < k,
    decreases k,
{
    if k > 0 && k <= s.len() && s[k - 1] != '\n' {
        lemma_last_newline_bounds(s, k - 1);
    }
}

/// Each chunk of a text that does not fit is within the limit.
proof fn lemma_chunks_of_fit(s: Seq<char>, max: nat)
    requires
        max >= 4,
    ensures
        forall|i: int| 0 <= i < chunks_of(s, max).len() ==> utf8_len(#[trigger] chunks_of(s, max)[i]) <= max,
    decreases s.len(),
{
    if s.len() > 0 && utf8_len(s) > max {
        let c = chunk_len(s, max);
        crate::utils::lemma_fit_fits(s, max);
        let safe = fit(s, max);
        lemma_last_newline_bounds(s, safe);
        if 0 < c <= s.len() {
            if c == 1 {
                crate::utils::lemma_one_char_fits(s);
            } else {
                crate::utils::lemma_utf8_len_prefix_mono(s, c, safe);
            }
            lemma_trim_start_newlines_len(s.skip(c));
            lemma_chunks_of_fit(trim_start_newlines(s.skip(c)), max);
            let rest = chunks_of(trim_start_newlines(s.skip(c)), max);
            assert forall|i: int| 0 <= i < chunks_of(s, max).len() implies utf8_len(#[trigger] chunks_of(s, max)[i]) <= max by {
                if i > 0 {
                    assert(chunks_of(s, max)[i] == rest[i - 1]);
                }
            }
        }
    }
}

/// Every chunk that a reply is sent in fits within the limit, when the limit holds a
/// character of any width (four bytes).
pub proof fn law_chunks_fit_limit(text: Seq<char>, max: nat)
    requires
        max >= 4,
    ensures
        forall|i: int|
            0 <= i < message_chunks(text, max).len() ==> utf8_len(#[trigger] message_chunks(text, max)[i]) <= max,
{
    lemma_chunks_of_fit(text, max);
}


/// Whether `c` is a character that HTML gives a meaning: `<`, `>`, `"` or `'`.
pub open spec fn is_markup_char(c: char) -> bool {
    c == '<' || c == '>' || c == '"' || c == '\''
}

/// Escaped text holds none of `<`, `>`, `"` and `'`: each became an entity.
pub proof fn law_escaped_text_has_no_markup(s: Seq<char>)
    ensures
        forall|i: int| 0 <= i < escape_text(s).len() ==> !is_markup_char(#[trigger] escape_text(s)[i]),
    decreases s.len(),
{
    if s.len() > 0 {
        law_escaped_text_has_no_markup(s.drop_last());
        let e = esc_char(s.last());
        reveal_strlit("&amp;");
        reveal_strlit("&lt;");
        reveal_strlit("&gt;");
        reveal_strlit("&quot;");
        reveal_strlit("&#39;");
        assert forall|j: int| 0 <= j < e.len() implies !is_markup_char(#[trigger] e[j]) by {}
        let a = escape_text(s.drop_last());
        assert forall|i: int| 0 <= i < escape_text(s).len() implies !is_markup_char(#[trigger] escape_text(s)[i]) by {
            if i < a.len() {
                assert(escape_text(s)[i] == a[i]);
            } else {
                assert(escape_text(s)[i] == e[i - a.len()]);
            }
        }
    }
}

/// Splitting `a + b` where `b` holds no separator extends the last piece of `a` by `b`.
proof fn lemma_segments_no_sep(a: Seq<char>, b: Seq<char>, sep: char)
    requires
        forall|i: int| 0 <= i < b.len() ==> b[i] != sep,
    ensures
        crate::text::segments_run(a + b, sep) == (
            crate::text::segments_run(a, sep).0,
            crate::text::segments_run(a, sep).1 + b,
        ),
    decreases b.len(),
{
    if b.len() == 0 {
        assert(a + b =~= a);
        assert(crate::text::segments_run(a, sep).1 + b =~= crate::text::segments_run(a, sep).1);
    } else {
        lemma_segments_no_sep(a, b.drop_last(), sep);
        assert((a + b).drop_last() =~= a + b.drop_last());
        assert((a + b).last() == b.last());
        assert(crate::text::segments_run(a, sep).1 + b.drop_last() + seq![b.last()] =~= crate::text::segments_run(a, sep).1 + b);
    }
}

/// Escaping never ends a text with a newline that it did not end with.
proof fn lemma_escape_keeps_last(s: Seq<char>)
    requires
        s.len() > 0,
        s.last() != '\n',
    ensures
        escape_text(s).len() > 0,
        escape_text(s).last() != '\n',
{
    reveal_strlit("&amp;");
    reveal_strlit("&lt;");
    reveal_strlit("&gt;");
    reveal_strlit("&quot;");
    reveal_strlit("&#39;");
    let e = esc_char(s.last());
    assert(escape_text(s) == escape_text(s.drop_last()) + e);
    assert(e.len() > 0 && e.last() != '\n');
}

/// Code is kept as written: a line inside a fenced block comes out only HTML-escaped,
/// inside `<pre><code>`, with no inline formatting.
pub proof fn law_fenced_line_is_escaped(line: Seq<char>)
    requires
        line.len() > 0,
        forall|i: int| 0 <= i < line.len() ==> line[i] != '\n',
        !is_fence(line),
    ensures
        telegram_html("```"@ + seq!['\n'] + line + seq!['\n'] + "```"@) == "<pre><code>"@
            + escape_text(line) + "</code></pre>"@,
{
    reveal_strlit("```");
    reveal_strlit("<pre><code>");
    reveal_strlit("</code></pre>\n");
    reveal_strlit("</code></pre>");
    reveal_strlit("\n");
    let f = "```"@;
    let nl = seq!['\n'];
    let text = f + nl + line + nl + f;
    assert(forall|i: int| 0 <= i < f.len() ==> f[i] != '\n');
    let e: Seq<char> = Seq::empty();
    // The pieces of the text are the fence, the line and the fence.
    lemma_segments_no_sep(e, f, '\n');
    assert(e + f =~= f);
    assert(crate::text::segments_run(e, '\n') == (Seq::<Seq<char>>::empty(), e));
    let s1 = f + nl;
    assert(s1.drop_last() =~= f);
    assert(crate::text::segments_run(s1, '\n') == (seq![f], e));
    lemma_segments_no_sep(s1, line, '\n');
    let s2 = s1 + line + nl;
    assert(s2.drop_last() =~= s1 + line);
    assert(e + line =~= line);
    assert(crate::text::segments_run(s2, '\n') == (seq![f, line], e));
    lemma_segments_no_sep(s2, f, '\n');
    assert(s2 + f =~= text);
    assert(split_on(text, '\n') =~= seq![f, line, f]);
    // The pass opens the block, escapes the line into it, and closes it.
    assert(trim_start(f) == f);
    assert(is_fence(f)) by {
        assert(f.subrange(0, 3) =~= f);
    }
    let l3 = seq![f, line, f];
    assert(l3.drop_last() =~= seq![f, line]);
    assert(seq![f, line].drop_last() =~= seq![f]);
    assert(seq![f].drop_last() =~= Seq::<Seq<char>>::empty());
    let buf = escape_text(line) + nl;
    let l0 = Seq::<Seq<char>>::empty();
    assert(fence_run(l0) == (e, false, e));
    assert(seq![f].last() == f);
    assert(fence_step((e, false, e), f) == (e, true, e));
    assert(fence_run(seq![f]) == (e, true, e));
    assert(seq![f, line].last() == line);
    assert(e + escape_text(line) + nl =~= buf);
    assert(fence_step((e, true, e), line) == (e, true, buf));
    assert(fence_run(seq![f, line]) == (e, true, buf));
    lemma_escape_keeps_last(line);
    assert(buf.drop_last() =~= escape_text(line));
    assert(trim_end_newlines(buf) == trim_end_newlines(escape_text(line)));
    assert(trim_end_newlines(escape_text(line)) == escape_text(line));
    let out = e + "<pre><code>"@ + escape_text(line) + "</code></pre>\n"@;
    assert(fence_run(l3) == (out, false, e));
    let want = "<pre><code>"@ + escape_text(line) + "</code></pre>"@;
    assert(out.drop_last() =~= want);
    assert(want.last() == '>');
    assert(trim_end_newlines(want) == want);
}

/// Access control: with neither a user list nor a chat list, everyone may talk to the bot.
pub proof fn law_acl_open_without_lists(user_id: Seq<char>, username: Option<Seq<char>>, chat_id: Seq<char>)
    ensures
        acl_permits(Seq::empty(), Seq::empty(), user_id, username, chat_id),
{
}

/// Access control: a user whose id is on the user list may talk to the bot in any chat
/// that the chat list allows (every chat when that list is empty), whatever the username.
pub proof fn law_acl_listed_user_permitted(
    from: Seq<Seq<char>>,
    chats: Seq<Seq<char>>,
    user_id: Seq<char>,
    username: Option<Seq<char>>,
    chat_id: Seq<char>,
)
    requires
        from.contains(user_id),
        chats.len() == 0 || chats.contains(chat_id),
    ensures
        acl_permits(from, chats, user_id, username, chat_id),
{
}

/// Access control: a user whose non-empty username is on the user list may talk to the
/// bot in any chat that the chat list allows, whatever the id.
pub proof fn law_acl_listed_username_permitted(
    from: Seq<Seq<char>>,
    chats: Seq<Seq<char>>,
    user_id: Seq<char>,
    name: Seq<char>,
    chat_id: Seq<char>,
)
    requires
        name.len() > 0,
        from.contains(name),
        chats.len() == 0 || chats.contains(chat_id),
    ensures
        acl_permits(from, chats, user_id, Some(name), chat_id),
{
}

/// Access control: with no user list, anyone in an allowed chat may talk to the bot.
pub proof fn law_acl_any_user_in_listed_chat(
    chats: Seq<Seq<char>>,
    user_id: Seq<char>,
    username: Option<Seq<char>>,
    chat_id: Seq<char>,
)
    requires
        chats.contains(chat_id),
    ensures
        acl_permits(Seq::empty(), chats, user_id, username, chat_id),
{
}

/// Access control: once chats are listed, a chat that is not listed is refused.
pub proof fn law_acl_unlisted_chat_refused(
    from: Seq<Seq<char>>,
    chats: Seq<Seq<char>>,
    user_id: Seq<char>,
    username: Option<Seq<char>>,
    chat_id: Seq<char>,
)
    requires
        chats.len() > 0,
        !chats.contains(chat_id),
    ensures
        !acl_permits(from, chats, user_id, username, chat_id),
{
}

/// Access control: once users are listed, a user who is listed neither by id nor by a
/// non-empty username is refused.
pub proof fn law_acl_unlisted_user_refused(
    from: Seq<Seq<char>>,
    chats: Seq<Seq<char>>,
    user_id: Seq<char>,
    username: Option<Seq<char>>,
    chat_id: Seq<char>,
)
    requires
        from.len() > 0,
        !from.contains(user_id),
        username matches Some(u) ==> u.len() == 0 || !from.contains(u),
    ensures
        !acl_permits(from, chats, user_id, username, chat_id),
{
}

} // verus!

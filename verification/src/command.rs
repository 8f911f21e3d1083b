//! Detection of comma-prefixed commands in a line of user input.
use vstd::prelude::*;

use crate::text::{chars_eq, is_whitespace, slice_chars, string_of, to_chars, trim, trim_chars, trim_start, trim_start_chars};

verus! {

/// Whether a command is handled by the agent itself or run in a shell.
#[derive(Debug, Clone, Copy, PartialEq, Eq, Structural)]
pub enum CommandKind {
    Internal,
    Shell,
}

impl CommandKind {
    /// The lower-case name of the kind.
    pub fn label(&self) -> (r: String)
        ensures
            r@ == (match self {
                CommandKind::Internal => "internal"@,
                CommandKind::Shell => "shell"@,
            }),
    {
        match self {
            CommandKind::Internal => crate::text::string_from("internal"),
            CommandKind::Shell => crate::text::string_from("shell"),
        }
    }
}

/// The model of a list of strings: the list of their characters.
pub open spec fn texts(v: Seq<String>) -> Seq<Seq<char>> {
    v.map_values(|s: String| s@)
}

/// The model of a list of string pairs.
pub open spec fn text_pairs(v: Seq<(String, String)>) -> Seq<(Seq<char>, Seq<char>)> {
    v.map_values(|p: (String, String)| (p.0@, p.1@))
}

/// The model of parsed arguments: positional values, key-value pairs and flags, in order.
pub type ArgsView = (Seq<Seq<char>>, Seq<(Seq<char>, Seq<char>)>, Seq<Seq<char>>);

/// Parsed command arguments with positional and key-value pairs.
#[derive(Debug, Clone)]
pub struct ParsedArgs {
    pub positional: Vec<String>,
    pub kwargs: Vec<(String, String)>,
    pub flags: Vec<String>,
}

impl View for ParsedArgs {
    type V = ArgsView;

    open spec fn view(&self) -> ArgsView {
        (texts(self.positional@), text_pairs(self.kwargs@), texts(self.flags@))
    }
}

/// The value of the first pair whose key is `key`.
pub open spec fn first_value(kws: Seq<(Seq<char>, Seq<char>)>, key: Seq<char>) -> Option<
    Seq<char>,
>
    decreases kws.len(),
{
    if kws.len() == 0 {
        None
    } else if kws[0].0 == key {
        Some(kws[0].1)
    } else {
        first_value(kws.drop_first(), key)
    }
}

impl Default for ParsedArgs {
    fn default() -> (r: Self)
        ensures
            r@ == (Seq::<Seq<char>>::empty(), Seq::<(Seq<char>, Seq<char>)>::empty(), Seq::<
                Seq<char>,
            >::empty()),
    {
        ParsedArgs { positional: Vec::new(), kwargs: Vec::new(), flags: Vec::new() }
    }
}

impl ParsedArgs {
    /// The value of the first keyword argument named `key`.
    pub fn get(&self, key: &str) -> (r: Option<&str>)
        ensures
            match r {
                Some(v) => first_value(self@.1, key@) == Some(v@),
                None => first_value(self@.1, key@) is None,
            },
    {
        let k = to_chars(key);
        let mut i: usize = 0;
        assert(self@.1.subrange(0, self@.1.len() as int) =~= self@.1);
        while i < self.kwargs.len()
            invariant
                i <= self.kwargs.len(),
                k@ == key@,
                first_value(self@.1, k@) == first_value(self@.1.subrange(i as int, self@.1.len() as int), k@),
            decreases self.kwargs.len() - i,
        {
            let ki = to_chars(self.kwargs[i].0.as_str());
            assert(self@.1.subrange(i as int, self@.1.len() as int)[0] == self@.1[i as int]);
            if chars_eq(&ki, &k) {
                let r = self.kwargs[i].1.as_str();
                let ghost sub = self@.1.subrange(i as int, self@.1.len() as int);
                assert(self@.1[i as int] == (self.kwargs@[i as int].0@, self.kwargs@[i as int].1@));
                assert(sub[0].0 == k@);
                assert(first_value(sub, k@) == Some(sub[0].1));
                assert(r@ == sub[0].1);
                return Some(r);
            }
            assert(self@.1.subrange(i as int, self@.1.len() as int).drop_first() =~= self@.1.subrange(
                i + 1,
                self@.1.len() as int,
            ));
            i += 1;
        }
        None
    }

    /// Whether the flag `flag` is set.
    pub fn has_flag(&self, flag: &str) -> (r: bool)
        ensures
            r == self@.2.contains(flag@),
    {
        let f = to_chars(flag);
        let mut i: usize = 0;
        while i < self.flags.len()
            invariant
                i <= self.flags.len(),
                f@ == flag@,
                forall|j: int| 0 <= j < i ==> self@.2[j] != f@,
            decreases self.flags.len() - i,
        {
            let fi = to_chars(self.flags[i].as_str());
            assert(self@.2[i as int] == self.flags@[i as int]@);
            if chars_eq(&fi, &f) {
                assert(self@.2[i as int] == f@);
                assert(self@.2.contains(f@));
                return true;
            }
            i += 1;
        }
        false
    }
}

/// The model of a detected command: its kind, name, arguments and raw text.
pub type CommandView = (CommandKind, Seq<char>, ArgsView, Seq<char>);

/// A detected command parsed from user input.
#[derive(Debug, Clone)]
pub struct DetectedCommand {
    pub kind: CommandKind,
    pub name: String,
    pub args: ParsedArgs,
    pub raw: String,
}

impl View for DetectedCommand {
    type V = CommandView;

    open spec fn view(&self) -> CommandView {
        (self.kind, self.name@, self.args@, self.raw@)
    }
}

/// The tokenizer's state: finished tokens, the token being read, whether a single or a
/// double quote is open, and whether the next character is escaped.
pub type SplitState = (Seq<Seq<char>>, Seq<char>, bool, bool, bool);

/// One character of input read by the tokenizer.
pub open spec fn split_step(st: SplitState, ch: char) -> SplitState {
    let (tokens, cur, single, double, escape) = st;
    if escape {
        (tokens, cur.push(ch), single, double, false)
    } else if ch == '\\' && !single {
        (tokens, cur, single, double, true)
    } else if ch == '\'' && !double {
        (tokens, cur, !single, double, false)
    } else if ch == '"' && !single {
        (tokens, cur, single, !double, false)
    } else if crate::text::is_white(ch) && !single && !double {
        if cur.len() > 0 {
            (tokens.push(cur), Seq::empty(), single, double, false)
        } else {
            (tokens, cur, single, double, false)
        }
    } else {
        (tokens, cur.push(ch), single, double, false)
    }
}

/// The tokenizer's state after reading all of `s`.
pub open spec fn split_run(s: Seq<char>) -> SplitState
    decreases s.len(),
{
    if s.len() == 0 {
        (Seq::empty(), Seq::empty(), false, false, false)
    } else {
        split_step(split_run(s.drop_last()), s.last())
    }
}

/// The tokens of `s`: words split at unquoted whitespace, with quotes removed and a
/// backslash (outside single quotes) taking the next character literally.
pub open spec fn shell_words(s: Seq<char>) -> Seq<Seq<char>> {
    let st = split_run(s);
    if st.1.len() > 0 {
        st.0.push(st.1)
    } else {
        st.0
    }
}

proof fn lemma_split_tokens_nonempty(s: Seq<char>)
    ensures
        forall|k: int| 0 <= k < split_run(s).0.len() ==> #[trigger] split_run(s).0[k].len() > 0,
    decreases s.len(),
{
    if s.len() > 0 {
        lemma_split_tokens_nonempty(s.drop_last());
        let prev = split_run(s.drop_last());
        let next = split_step(prev, s.last());
        assert(split_run(s) == next);
        assert forall|k: int| 0 <= k < next.0.len() implies #[trigger] next.0[k].len() > 0 by {
            if k < prev.0.len() {
                assert(prev.0[k].len() > 0);
            }
        }
    }
}

/// No token that the tokenizer returns is empty.
pub proof fn lemma_shell_words_nonempty(s: Seq<char>)
    ensures
        forall|k: int| 0 <= k < shell_words(s).len() ==> #[trigger] shell_words(s)[k].len() > 0,
{
    lemma_split_tokens_nonempty(s);
}

/// Simple shell-like tokenizer that handles basic quoting.
pub fn shell_split(input: &str) -> (r: Vec<String>)
    ensures
        texts(r@) == shell_words(input@),
{
    let chars = to_chars(input);
    let mut tokens: Vec<String> = Vec::new();
    let mut current: Vec<char> = Vec::new();
    let mut single = false;
    let mut double = false;
    let mut escape = false;
    let mut i: usize = 0;
    while i < chars.len()
        invariant
            i <= chars.len(),
            chars@ == input@,
            split_run(chars@.take(i as int)) == (texts(tokens@), current@, single, double, escape),
        decreases chars.len() - i,
    {
        let ch = chars[i];
        assert(chars@.take(i + 1).drop_last() =~= chars@.take(i as int));
        assert(chars@.take(i + 1).last() == ch);
        if escape {
            current.push(ch);
            escape = false;
        } else if ch == '\\' && !single {
            escape = true;
        } else if ch == '\'' && !double {
            single = !single;
        } else if ch == '"' && !single {
            double = !double;
        } else if is_whitespace(ch) && !single && !double {
            if current.len() > 0 {
                let t = string_of(&current);
                tokens.push(t);
                assert(texts(tokens@) =~= texts(old_tokens_view(tokens@)).push(t@));
                current = Vec::new();
            }
        } else {
            current.push(ch);
        }
        i += 1;
    }
    assert(chars@.take(chars.len() as int) =~= chars@);
    if current.len() > 0 {
        let t = string_of(&current);
        tokens.push(t);
        assert(texts(tokens@) =~= texts(old_tokens_view(tokens@)).push(t@));
    }
    tokens
}

/// All but the last element of a list of strings.
spec fn old_tokens_view(v: Seq<String>) -> Seq<String> {
    v.drop_last()
}

/// Whether `tok` starts with two dashes.
pub open spec fn is_long_option(tok: Seq<char>) -> bool {
    tok.len() >= 2 && tok[0] == '-' && tok[1] == '-'
}

/// The index of the first `=` in `s`, if there is one.
pub open spec fn first_eq_index(s: Seq<char>) -> Option<int> {
    if exists|i: int| 0 <= i < s.len() && s[i] == '=' {
        Some(choose|i: int| 0 <= i < s.len() && s[i] == '=' && forall|j: int| 0 <= j < i ==> s[j] != '=')
    } else {
        None
    }
}

/// Arguments made of one positional value.
pub open spec fn one_positional(t: Seq<char>) -> ArgsView {
    (seq![t], Seq::empty(), Seq::empty())
}

/// Arguments made of one key-value pair.
pub open spec fn one_kwarg(k: Seq<char>, v: Seq<char>) -> ArgsView {
    (Seq::empty(), seq![(k, v)], Seq::empty())
}

/// Arguments made of one flag.
pub open spec fn one_flag(f: Seq<char>) -> ArgsView {
    (Seq::empty(), Seq::empty(), seq![f])
}

/// The arguments of `a` followed by those of `b`.
pub open spec fn join_args(a: ArgsView, b: ArgsView) -> ArgsView {
    (a.0 + b.0, a.1 + b.1, a.2 + b.2)
}

/// Parsed tool-style arguments: `--key=value`, `--key value` (when the next token does not
/// start with `--`), `--flag`, `key=value` with a non-empty key, and positional values.
pub open spec fn parse_args(t: Seq<Seq<char>>) -> ArgsView
    decreases t.len(),
{
    if t.len() == 0 {
        (Seq::empty(), Seq::empty(), Seq::empty())
    } else {
        let tok = t[0];
        if is_long_option(tok) {
            let rest = tok.subrange(2, tok.len() as int);
            match first_eq_index(rest) {
                Some(p) => join_args(
                    one_kwarg(rest.subrange(0, p), rest.subrange(p + 1, rest.len() as int)),
                    parse_args(t.drop_first()),
                ),
                None => if t.len() > 1 && !is_long_option(t[1]) {
                    join_args(one_kwarg(rest, t[1]), parse_args(t.subrange(2, t.len() as int)))
                } else {
                    join_args(one_flag(rest), parse_args(t.drop_first()))
                },
            }
        } else {
            match first_eq_index(tok) {
                Some(p) if p > 0 => join_args(
                    one_kwarg(tok.subrange(0, p), tok.subrange(p + 1, tok.len() as int)),
                    parse_args(t.drop_first()),
                ),
                _ => join_args(one_positional(tok), parse_args(t.drop_first())),
            }
        }
    }
}

/// The index of the first `=` in `v`.
fn find_eq(v: &Vec<char>) -> (r: Option<usize>)
    ensures
        match r {
            Some(i) => i < v@.len() && first_eq_index(v@) == Some(i as int),
            None => first_eq_index(v@) is None,
        },
{
    let mut i: usize = 0;
    while i < v.len()
        invariant
            i <= v.len(),
            forall|j: int| 0 <= j < i ==> v@[j] != '=',
        decreases v.len() - i,
    {
        if v[i] == '=' {
            let ghost c = choose|k: int|
                0 <= k < v@.len() && v@[k] == '=' && forall|j: int| 0 <= j < k ==> v@[j] != '=';
            assert(0 <= i < v@.len() && v@[i as int] == '=' && forall|j: int|
                0 <= j < i ==> v@[j] != '=');
            assert(c == i) by {
                if c < i {
                    assert(v@[c] != '=');
                }
                if c > i {
                    assert(v@[i as int] != '=');
                }
            }
            return Some(i);
        }
        i += 1;
    }
    None
}

proof fn lemma_join_assoc(a: ArgsView, b: ArgsView, c: ArgsView)
    ensures
        join_args(join_args(a, b), c) == join_args(a, join_args(b, c)),
{
    assert(join_args(join_args(a, b), c).0 =~= join_args(a, join_args(b, c)).0);
    assert(join_args(join_args(a, b), c).1 =~= join_args(a, join_args(b, c)).1);
    assert(join_args(join_args(a, b), c).2 =~= join_args(a, join_args(b, c)).2);
}

/// One parsed argument.
enum ArgItem {
    Positional(String),
    Kwarg(String, String),
    Flag(String),
}

spec fn item_view(a: ArgItem) -> ArgsView {
    match a {
        ArgItem::Positional(p) => one_positional(p@),
        ArgItem::Kwarg(k, v) => one_kwarg(k@, v@),
        ArgItem::Flag(f) => one_flag(f@),
    }
}

/// Reads the argument that starts at token `idx`, and returns it with the index of the
/// token after it.
fn next_arg(tokens: &[String], idx: usize) -> (r: (ArgItem, usize))
    requires
        idx < tokens.len(),
    ensures
        idx < r.1 <= tokens.len(),
        parse_args(texts(tokens@).subrange(idx as int, tokens@.len() as int)) == join_args(
            item_view(r.0),
            parse_args(texts(tokens@).subrange(r.1 as int, tokens@.len() as int)),
        ),
{
    let ghost t = texts(tokens@);
    let ghost rest_t = t.subrange(idx as int, t.len() as int);
    let tok = to_chars(tokens[idx].as_str());
    assert(rest_t[0] == tok@);
    assert(rest_t.drop_first() =~= t.subrange(idx + 1, t.len() as int));
    if tok.len() >= 2 && tok[0] == '-' && tok[1] == '-' {
        let rest = slice_chars(&tok, 2, tok.len());
        match find_eq(&rest) {
            Some(p) => {
                let k = slice_chars(&rest, 0, p);
                let v = slice_chars(&rest, p + 1, rest.len());
                (ArgItem::Kwarg(string_of(&k), string_of(&v)), idx + 1)
            },
            None => {
                let next_is_value = if idx + 1 < tokens.len() {
                    let nxt = to_chars(tokens[idx + 1].as_str());
                    assert(rest_t[1] == nxt@);
                    !(nxt.len() >= 2 && nxt[0] == '-' && nxt[1] == '-')
                } else {
                    false
                };
                if next_is_value {
                    assert(rest_t.subrange(2, rest_t.len() as int) =~= t.subrange(
                        idx + 2,
                        t.len() as int,
                    ));
                    (ArgItem::Kwarg(string_of(&rest), tokens[idx + 1].clone()), idx + 2)
                } else {
                    (ArgItem::Flag(string_of(&rest)), idx + 1)
                }
            },
        }
    } else {
        match find_eq(&tok) {
            Some(p) => {
                if p > 0 {
                    let k = slice_chars(&tok, 0, p);
                    let v = slice_chars(&tok, p + 1, tok.len());
                    (ArgItem::Kwarg(string_of(&k), string_of(&v)), idx + 1)
                } else {
                    (ArgItem::Positional(tokens[idx].clone()), idx + 1)
                }
            },
            None => (ArgItem::Positional(tokens[idx].clone()), idx + 1),
        }
    }
}

/// Adds one parsed argument to `args`.
fn push_item(args: &mut ParsedArgs, item: ArgItem)
    ensures
        final(args)@ == join_args(old(args)@, item_view(item)),
{
    match item {
        ArgItem::Positional(p) => {
            let ghost pv = p@;
            args.positional.push(p);
            assert(args@.0 =~= old(args)@.0 + seq![pv]);
        },
        ArgItem::Kwarg(k, v) => {
            let ghost kv = (k@, v@);
            args.kwargs.push((k, v));
            assert(args@.1 =~= old(args)@.1 + seq![kv]);
        },
        ArgItem::Flag(f) => {
            let ghost fv = f@;
            args.flags.push(f);
            assert(args@.2 =~= old(args)@.2 + seq![fv]);
        },
    }
    assert(args@.0 =~= join_args(old(args)@, item_view(item)).0);
    assert(args@.1 =~= join_args(old(args)@, item_view(item)).1);
    assert(args@.2 =~= join_args(old(args)@, item_view(item)).2);
}

proof fn lemma_join_empty(a: ArgsView)
    ensures
        join_args(a, (Seq::empty(), Seq::empty(), Seq::empty())) == a,
        join_args((Seq::empty(), Seq::empty(), Seq::empty()), a) == a,
{
    assert(join_args(a, (Seq::empty(), Seq::empty(), Seq::empty())).0 =~= a.0);
    assert(join_args(a, (Seq::empty(), Seq::empty(), Seq::empty())).1 =~= a.1);
    assert(join_args(a, (Seq::empty(), Seq::empty(), Seq::empty())).2 =~= a.2);
    assert(join_args((Seq::empty(), Seq::empty(), Seq::empty()), a).0 =~= a.0);
    assert(join_args((Seq::empty(), Seq::empty(), Seq::empty()), a).1 =~= a.1);
    assert(join_args((Seq::empty(), Seq::empty(), Seq::empty()), a).2 =~= a.2);
}

/// Parse tool-style arguments from tokens.
///
/// Supports `--flag`, `--key value`, `--key=value`, `key=value` and positional arguments.
pub fn parse_kv_arguments(tokens: &[String]) -> (args: ParsedArgs)
    ensures
        args@ == parse_args(texts(tokens@)),
{
    let mut args = ParsedArgs::default();
    let mut idx: usize = 0;
    let ghost t = texts(tokens@);
    proof {
        assert(t.subrange(0, t.len() as int) =~= t);
        lemma_join_empty(parse_args(t));
    }
    while idx < tokens.len()
        invariant
            idx <= tokens.len(),
            t == texts(tokens@),
            parse_args(t) == join_args(args@, parse_args(t.subrange(idx as int, t.len() as int))),
        decreases tokens.len() - idx,
    {
        let (item, next) = next_arg(tokens, idx);
        let ghost before = args@;
        let ghost iv = item_view(item);
        push_item(&mut args, item);
        proof {
            lemma_join_assoc(before, iv, parse_args(t.subrange(next as int, t.len() as int)));
        }
        idx = next;
    }
    proof {
        assert(t.subrange(idx as int, t.len() as int) =~= Seq::<Seq<char>>::empty());
        lemma_join_empty(args@);
    }
    args
}

/// Whether `name` is one of the commands the agent handles itself.
pub open spec fn is_internal_name(name: Seq<char>) -> bool {
    name == "help"@ || name == "quit"@ || name == "tape"@ || name == "tape.info"@ || name
        == "tape.reset"@ || name == "tape.search"@ || name == "tools"@ || name == "tool.describe"@
        || name == "skills"@ || name == "skills.describe"@ || name == "anchors"@ || name
        == "handoff"@
}

fn is_internal_name_exec(name: &Vec<char>) -> (r: bool)
    ensures
        r == is_internal_name(name@),
{
    let names = [
        "help",
        "quit",
        "tape",
        "tape.info",
        "tape.reset",
        "tape.search",
        "tools",
        "tool.describe",
        "skills",
        "skills.describe",
        "anchors",
        "handoff",
    ];
    let mut i: usize = 0;
    while i < 12
        invariant
            i <= 12,
            names@ == seq![
                "help",
                "quit",
                "tape",
                "tape.info",
                "tape.reset",
                "tape.search",
                "tools",
                "tool.describe",
                "skills",
                "skills.describe",
                "anchors",
                "handoff",
            ],
            forall|j: int| 0 <= j < i ==> name@ != names@[j]@,
        decreases 12 - i,
    {
        let lit = to_chars(names[i]);
        if chars_eq(&lit, name) {
            return true;
        }
        i += 1;
    }
    assert(!is_internal_name(name@)) by {
        assert(name@ != names@[0]@);
        assert(name@ != names@[1]@);
        assert(name@ != names@[2]@);
        assert(name@ != names@[3]@);
        assert(name@ != names@[4]@);
        assert(name@ != names@[5]@);
        assert(name@ != names@[6]@);
        assert(name@ != names@[7]@);
        assert(name@ != names@[8]@);
        assert(name@ != names@[9]@);
        assert(name@ != names@[10]@);
        assert(name@ != names@[11]@);
    }
    false
}

/// The text after the leading comma of a command line, if `input` is one: the trimmed
/// input must start with `,` and have something after it.
pub open spec fn command_body(input: Seq<char>) -> Option<Seq<char>> {
    let stripped = trim(input);
    if stripped.len() == 0 || stripped[0] != ',' {
        None
    } else {
        let body = trim_start(stripped.drop_first());
        if body.len() == 0 {
            None
        } else {
            Some(body)
        }
    }
}

/// The command detected in `input`.
pub open spec fn detect(input: Seq<char>) -> Option<CommandView> {
    match command_body(input) {
        None => None,
        Some(body) => {
            let tokens = shell_words(body);
            if tokens.len() == 0 {
                None
            } else if is_internal_name(tokens[0]) {
                Some(
                    (
                        CommandKind::Internal,
                        tokens[0],
                        parse_args(tokens.drop_first()),
                        trim(input),
                    ),
                )
            } else {
                Some(
                    (
                        CommandKind::Shell,
                        tokens[0],
                        (Seq::empty(), Seq::empty(), Seq::empty()),
                        body,
                    ),
                )
            }
        },
    }
}

/// Detect whether a line of input is a command.
///
/// Lines starting with `,` are commands; a first token naming a known internal command
/// gives an internal command, any other a shell command. Other input goes to the model.
pub fn detect_command(input: &str) -> (r: Option<DetectedCommand>)
    ensures
        match r {
            Some(c) => detect(input@) == Some(c@),
            None => detect(input@) is None,
        },
{
    let all = to_chars(input);
    let stripped = trim_chars(&all);
    if stripped.len() == 0 || stripped[0] != ',' {
        return None;
    }
    let after = slice_chars(&stripped, 1, stripped.len());
    assert(after@ =~= stripped@.drop_first());
    let body = trim_start_chars(&after);
    if body.len() == 0 {
        return None;
    }
    let body_text = string_of(&body);
    let tokens = shell_split(body_text.as_str());
    if tokens.len() == 0 {
        return None;
    }
    let name = tokens[0].clone();
    let name_chars = to_chars(name.as_str());
    if is_internal_name_exec(&name_chars) {
        let rest_tokens = tokens.as_slice().split_at(1).1;
        let args = parse_kv_arguments(rest_tokens);
        assert(texts(rest_tokens@) =~= texts(tokens@).drop_first());
        Some(
            DetectedCommand {
                kind: CommandKind::Internal,
                name,
                args,
                raw: string_of(&stripped),
            },
        )
    } else {
        let args = ParsedArgs::default();
        Some(DetectedCommand { kind: CommandKind::Shell, name, args, raw: body_text })
    }
}

/// Whether the tokenizer reads `c` as an ordinary character of a word.
pub open spec fn is_word_char(c: char) -> bool {
    c != '\\' && c != '\'' && c != '"' && !crate::text::is_white(c)
}

/// A text of ordinary word characters is read as one unfinished word.
proof fn lemma_split_word(s: Seq<char>)
    requires
        forall|k: int| 0 <= k < s.len() ==> is_word_char(#[trigger] s[k]),
    ensures
        split_run(s) == (Seq::<Seq<char>>::empty(), s, false, false, false),
    decreases s.len(),
{
    if s.len() > 0 {
        assert(is_word_char(s[s.len() - 1]));
        lemma_split_word(s.drop_last());
        assert(s.drop_last().push(s.last()) =~= s);
    }
}

/// Each command that `,help` lists is handled by the agent itself: a line holding a comma
/// and one of these names (with any surrounding whitespace) is detected as that internal
/// command, with no arguments.
pub proof fn law_listed_commands_are_internal(input: Seq<char>, n: Seq<char>)
    requires
        n == "help"@
        || n == "quit"@
        || n == "tape"@
        || n == "tape.info"@
        || n == "tape.reset"@
        || n == "tape.search"@
        || n == "tools"@
        || n == "tool.describe"@
        || n == "skills"@
        || n == "skills.describe"@
        || n == "anchors"@
        || n == "handoff"@,
        trim(input) == ","@ + n,
    ensures
        detect(input) == Some(
            (
                CommandKind::Internal,
                n,
                (Seq::<Seq<char>>::empty(), Seq::<(Seq<char>, Seq<char>)>::empty(), Seq::<Seq<char>>::empty()),
                trim(input),
            ),
        ),
{
    reveal_strlit(",");
    reveal_strlit("help");
    reveal_strlit("quit");
    reveal_strlit("tape");
    reveal_strlit("tape.info");
    reveal_strlit("tape.reset");
    reveal_strlit("tape.search");
    reveal_strlit("tools");
    reveal_strlit("tool.describe");
    reveal_strlit("skills");
    reveal_strlit("skills.describe");
    reveal_strlit("anchors");
    reveal_strlit("handoff");
    let stripped = trim(input);
    assert(stripped[0] == ',');
    assert(stripped.drop_first() =~= n);
    assert(n.len() > 0 && !crate::text::is_white(n[0]));
    assert(trim_start(n) == n);
    assert forall|k: int| 0 <= k < n.len() implies is_word_char(#[trigger] n[k]) by {
        assert(n[k] == '.' || ('a' <= n[k] && n[k] <= 'z'));
    }
    lemma_split_word(n);
    assert(shell_words(n) =~= seq![n]);
    assert(seq![n].drop_first() =~= Seq::<Seq<char>>::empty());
    assert(is_internal_name(n));
}

/// Only the commands that `,help` lists are internal: any other first word is run as a
/// shell command, with the text after the comma as its command line.
pub proof fn law_other_commands_go_to_shell(input: Seq<char>)
    ensures
        detect(input) matches Some(c) ==> (c.0 == CommandKind::Internal <==> (
            c.1 == "help"@
            || c.1 == "quit"@
            || c.1 == "tape"@
            || c.1 == "tape.info"@
            || c.1 == "tape.reset"@
            || c.1 == "tape.search"@
            || c.1 == "tools"@
            || c.1 == "tool.describe"@
            || c.1 == "skills"@
            || c.1 == "skills.describe"@
            || c.1 == "anchors"@
            || c.1 == "handoff"@
        )),
        detect(input) matches Some(c) ==> (c.0 == CommandKind::Shell ==> command_body(input) == Some(c.3)),
{
}

} // verus!

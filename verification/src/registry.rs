//! The tool registry: descriptors kept sorted by name, and the built-in tool table.
use vstd::prelude::*;

use crate::api_types::{FunctionDefinition, ParamSpec, ParamView, ParamsView, ToolDefinition, ToolParams};
use crate::command::texts;
use crate::json::{deref_json, field, flag_of, count_of, parse_json, json_text_parse, text_of, Json};
use crate::schedule::JobMode;
use crate::text::{append_str, chars_eq, join, join_strings, starts_with, starts_with_str, str_eq, string_from, string_of, to_chars, trim, trim_chars};

verus! {

/// Lexicographic order of texts by code point, the order of `String`'s `Ord`.
pub open spec fn text_lt(a: Seq<char>, b: Seq<char>) -> bool
    decreases a.len(),
{
    if a.len() == 0 {
        b.len() > 0
    } else if b.len() == 0 {
        false
    } else if a[0] != b[0] {
        (a[0] as u32) < (b[0] as u32)
    } else {
        text_lt(a.drop_first(), b.drop_first())
    }
}

/// No text comes before itself.
pub proof fn lemma_text_lt_irreflexive(a: Seq<char>)
    ensures
        !text_lt(a, a),
    decreases a.len(),
{
    if a.len() > 0 {
        lemma_text_lt_irreflexive(a.drop_first());
    }
}

/// The order is transitive.
pub proof fn lemma_text_lt_transitive(a: Seq<char>, b: Seq<char>, c: Seq<char>)
    requires
        text_lt(a, b),
        text_lt(b, c),
    ensures
        text_lt(a, c),
    decreases a.len(),
{
    if a.len() > 0 && b.len() > 0 && c.len() > 0 && a[0] == b[0] && b[0] == c[0] {
        lemma_text_lt_transitive(a.drop_first(), b.drop_first(), c.drop_first());
    }
}

/// Of two different texts, one comes first.
pub proof fn lemma_text_lt_total(a: Seq<char>, b: Seq<char>)
    requires
        a != b,
    ensures
        text_lt(a, b) || text_lt(b, a),
    decreases a.len(),
{
    if a.len() > 0 && b.len() > 0 && a[0] == b[0] {
        if a.drop_first() == b.drop_first() {
            assert(a =~= seq![a[0]] + a.drop_first());
            assert(b =~= seq![b[0]] + b.drop_first());
        }
        lemma_text_lt_total(a.drop_first(), b.drop_first());
    } else if a.len() > 0 && b.len() > 0 {
        let x = a[0] as u32;
        let y = b[0] as u32;
        if x == y {
            vstd::utf8::char_u32_cast(a[0], x);
            vstd::utf8::char_u32_cast(b[0], y);
        }
    } else if a.len() == 0 && b.len() == 0 {
        assert(a =~= b);
    }
}

/// Whether `a` comes before `b`.
pub fn text_lt_exec(a: &Vec<char>, b: &Vec<char>) -> (r: bool)
    ensures
        r == text_lt(a@, b@),
{
    let mut k: usize = 0;
    assert(a@.skip(0) =~= a@);
    assert(b@.skip(0) =~= b@);
    loop
        invariant
            k <= a.len(),
            k <= b.len(),
            text_lt(a@, b@) == text_lt(a@.skip(k as int), b@.skip(k as int)),
        decreases a.len() - k,
    {
        if k == a.len() {
            return k < b.len();
        }
        if k == b.len() {
            return false;
        }
        if a[k] != b[k] {
            return (a[k] as u32) < (b[k] as u32);
        }
        assert(a@.skip(k as int).drop_first() =~= a@.skip(k + 1));
        assert(b@.skip(k as int).drop_first() =~= b@.skip(k + 1));
        k += 1;
    }
}

/// The model of a tool descriptor: name, description and source.
pub type DescView = (Seq<char>, Seq<char>, Seq<char>);

/// Metadata for a registered tool.
#[derive(Debug, Clone)]
pub struct ToolDescriptor {
    pub name: String,
    pub description: String,
    pub source: String,
}

impl ToolDescriptor {
    /// A copy of the descriptor.
    pub fn duplicate(&self) -> (r: Self)
        ensures
            r@ == self@,
    {
        ToolDescriptor {
            name: self.name.clone(),
            description: self.description.clone(),
            source: self.source.clone(),
        }
    }
}

impl View for ToolDescriptor {
    type V = DescView;

    open spec fn view(&self) -> DescView {
        (self.name@, self.description@, self.source@)
    }
}

/// The models of a list of descriptors.
pub open spec fn desc_views(v: Seq<ToolDescriptor>) -> Seq<DescView> {
    v.map_values(|d: ToolDescriptor| d@)
}

/// Whether the descriptors are in strictly increasing order of name.
pub open spec fn sorted_by_name(l: Seq<DescView>) -> bool {
    forall|i: int, j: int| 0 <= i < j < l.len() ==> text_lt(#[trigger] l[i].0, #[trigger] l[j].0)
}

/// The descriptor named `n`.
pub open spec fn lookup(l: Seq<DescView>, n: Seq<char>) -> Option<DescView>
    decreases l.len(),
{
    if l.len() == 0 {
        None
    } else if l[0].0 == n {
        Some(l[0])
    } else {
        lookup(l.drop_first(), n)
    }
}

/// Looking a name up in a joined list looks in the first part, then the second.
pub proof fn lemma_lookup_append(a: Seq<DescView>, b: Seq<DescView>, n: Seq<char>)
    ensures
        lookup(a + b, n) == match lookup(a, n) {
            Some(x) => Some(x),
            None => lookup(b, n),
        },
    decreases a.len(),
{
    if a.len() == 0 {
        assert(a + b =~= b);
    } else {
        assert((a + b).drop_first() =~= a.drop_first() + b);
        lemma_lookup_append(a.drop_first(), b, n);
    }
}

/// A name that no entry has is not found.
pub proof fn lemma_lookup_absent(l: Seq<DescView>, n: Seq<char>)
    requires
        forall|i: int| 0 <= i < l.len() ==> #[trigger] l[i].0 != n,
    ensures
        lookup(l, n) is None,
    decreases l.len(),
{
    if l.len() > 0 {
        assert forall|i: int| 0 <= i < l.drop_first().len() implies #[trigger] l.drop_first()[i].0
            != n by {
            assert(l.drop_first()[i] == l[i + 1]);
        }
        lemma_lookup_absent(l.drop_first(), n);
    }
}

/// A found entry is in the list under that name.
pub proof fn lemma_lookup_found(l: Seq<DescView>, n: Seq<char>)
    ensures
        lookup(l, n) matches Some(d) ==> d.0 == n && l.contains(d),
        lookup(l, n) is None ==> forall|i: int| 0 <= i < l.len() ==> #[trigger] l[i].0 != n,
    decreases l.len(),
{
    if l.len() > 0 {
        lemma_lookup_found(l.drop_first(), n);
        if l[0].0 != n {
            if let Some(d) = lookup(l, n) {
                let k = choose|k: int| 0 <= k < l.drop_first().len() && l.drop_first()[k] == d;
                assert(l[k + 1] == d);
            }
            assert forall|i: int| 0 <= i < l.len() && lookup(l, n) is None implies #[trigger] l[i].0
                != n by {
                if i > 0 {
                    assert(l[i] == l.drop_first()[i - 1]);
                }
            }
        } else {
            assert(l[0] == l[0]);
        }
    }
}

/// Whether the name of entry `p` comes before `key`.
fn entry_before(tools: &Vec<ToolDescriptor>, p: usize, key: &Vec<char>) -> (r: bool)
    requires
        p < tools.len(),
    ensures
        r == text_lt(desc_views(tools@)[p as int].0, key@),
{
    let k = to_chars(tools[p].name.as_str());
    text_lt_exec(&k, key)
}

/// Registry for tool descriptors, kept sorted by name with one entry per name.
#[derive(Debug)]
pub struct ToolRegistry {
    tools: Vec<ToolDescriptor>,
}

impl View for ToolRegistry {
    type V = Seq<DescView>;

    closed spec fn view(&self) -> Seq<DescView> {
        desc_views(self.tools@)
    }
}

impl ToolRegistry {
    #[verifier::type_invariant]
    spec fn sorted(self) -> bool {
        sorted_by_name(desc_views(self.tools@))
    }

    /// An empty registry.
    pub fn new() -> (r: Self)
        ensures
            r@ == Seq::<DescView>::empty(),
    {
        let r = ToolRegistry { tools: Vec::new() };
        assert(r@ =~= Seq::<DescView>::empty());
        r
    }

    /// Register a tool descriptor, replacing any with the same name.
    pub fn register(&mut self, name: &str, description: &str, source: &str)
        ensures
            sorted_by_name(final(self)@),
            forall|n: Seq<char>| #[trigger]
                lookup(final(self)@, n) == if n == name@ {
                    Some((name@, description@, source@))
                } else {
                    lookup(old(self)@, n)
                },
            final(self)@.len() == old(self)@.len() + if lookup(old(self)@, name@) is None {
                1int
            } else {
                0int
            },
    {
        proof {
            use_type_invariant(&*self);
        }
        let ghost old_l = self@;
        let key = to_chars(name);
        let entry = ToolDescriptor {
            name: string_from(name),
            description: string_from(description),
            source: string_from(source),
        };
        let ghost e = entry@;
        let n = self.tools.len();
        let mut p: usize = 0;
        while p < n && entry_before(&self.tools, p, &key)
            invariant
                p <= n == self.tools.len(),
                old_l == desc_views(self.tools@),
                key@ == name@,
                forall|i: int| 0 <= i < p ==> text_lt(#[trigger] old_l[i].0, key@),
            decreases n - p,
        {
            p += 1;
        }
        let same = if p < n {
            let k = to_chars(self.tools[p].name.as_str());
            assert(old_l[p as int].0 == k@);
            chars_eq(&k, &key)
        } else {
            false
        };
        assert(same ==> p < n && old_l[p as int].0 == name@);
        let q = if same {
            p + 1
        } else {
            p
        };
        let mut out: Vec<ToolDescriptor> = Vec::new();
        let mut i: usize = 0;
        while i < p
            invariant
                i <= p <= n == self.tools.len(),
                old_l == desc_views(self.tools@),
                desc_views(out@) == old_l.subrange(0, i as int),
            decreases p - i,
        {
            let d = self.tools[i].duplicate();
            assert(d@ == old_l[i as int]);
            let ghost before = desc_views(out@);
            out.push(d);
            assert(desc_views(out@) =~= before.push(d@));
            assert(old_l.subrange(0, i + 1) =~= old_l.subrange(0, i as int).push(old_l[i as int]));
            i += 1;
        }
        let ghost left = desc_views(out@);
        out.push(entry);
        assert(desc_views(out@) =~= left.push(e));
        let mut j = q;
        while j < n
            invariant
                q <= j <= n == self.tools.len(),
                old_l == desc_views(self.tools@),
                desc_views(out@) == left.push(e) + old_l.subrange(q as int, j as int),
            decreases n - j,
        {
            let d = self.tools[j].duplicate();
            assert(d@ == old_l[j as int]);
            let ghost before = desc_views(out@);
            out.push(d);
            assert(desc_views(out@) =~= before.push(d@));
            assert(old_l.subrange(q as int, j + 1) =~= old_l.subrange(q as int, j as int).push(
                old_l[j as int],
            ));
            assert(desc_views(out@) =~= left.push(e) + old_l.subrange(q as int, j + 1));
            j += 1;
        }
        let ghost right = old_l.subrange(q as int, n as int);
        let ghost new_l = desc_views(out@);
        proof {
            assert(new_l =~= left + seq![e] + right);
            assert(left == old_l.subrange(0, p as int));
            // Everything before the new entry comes before its name, everything after it after.
            assert forall|i: int| 0 <= i < right.len() implies text_lt(e.0, #[trigger] right[i].0) by {
                assert(right[i] == old_l[q + i]);
                if same {
                    assert(text_lt(old_l[p as int].0, old_l[q + i].0));
                } else {
                    assert(!text_lt(old_l[p as int].0, name@));
                    if old_l[p as int].0 != name@ {
                        lemma_text_lt_total(old_l[p as int].0, name@);
                    }
                    if i > 0 {
                        lemma_text_lt_transitive(name@, old_l[p as int].0, old_l[q + i].0);
                    }
                }
            }
            assert forall|a: int, b: int| 0 <= a < b < new_l.len() implies text_lt(
                #[trigger] new_l[a].0,
                #[trigger] new_l[b].0,
            ) by {
                if b < p {
                    assert(new_l[a] == old_l[a] && new_l[b] == old_l[b]);
                } else if b == p {
                    assert(new_l[a] == old_l[a]);
                } else if a > p {
                    assert(new_l[a] == old_l[q + a - p - 1] && new_l[b] == old_l[q + b - p - 1]);
                } else if a == p {
                    assert(new_l[b] == right[b - p - 1]);
                } else {
                    assert(new_l[a] == old_l[a]);
                    assert(new_l[b] == right[b - p - 1]);
                    lemma_text_lt_transitive(old_l[a].0, name@, new_l[b].0);
                }
            }
            let mid = old_l.subrange(p as int, q as int);
            assert(old_l =~= left + mid + right);
            assert(same ==> mid.len() == 1 && mid[0].0 == name@);
            assert(!same ==> mid.len() == 0);
            assert forall|m: Seq<char>| #[trigger]
                lookup(new_l, m) == if m == name@ {
                    Some(e)
                } else {
                    lookup(old_l, m)
                } by {
                lemma_lookup_append(left + seq![e], right, m);
                lemma_lookup_append(left, seq![e], m);
                lemma_lookup_append(left + mid, right, m);
                lemma_lookup_append(left, mid, m);
                assert(seq![e].drop_first() =~= Seq::<DescView>::empty());
                assert(seq![e][0] == e);
                if m == name@ {
                    assert forall|i: int| 0 <= i < left.len() implies #[trigger] left[i].0 != m by {
                        assert(left[i] == old_l[i]);
                        lemma_text_lt_irreflexive(m);
                    }
                    lemma_lookup_absent(left, m);
                    assert(lookup(seq![e], m) == Some(e));
                } else {
                    assert(e.0 == name@);
                    assert(lookup(Seq::<DescView>::empty(), m) is None);
                    assert(lookup(seq![e].drop_first(), m) is None);
                    assert(lookup(seq![e], m) is None);
                    if same {
                        assert(mid.drop_first() =~= Seq::<DescView>::empty());
                        assert(lookup(mid, m) is None);
                    } else {
                        assert(mid =~= Seq::<DescView>::empty());
                        assert(lookup(mid, m) is None);
                    }
                }
            }
            // The name was present before exactly when an entry was replaced.
            if same {
                lemma_lookup_found(old_l, name@);
                assert(old_l[p as int].0 == name@);
            } else {
                assert forall|i: int| 0 <= i < old_l.len() implies #[trigger] old_l[i].0 != name@ by {
                    lemma_text_lt_irreflexive(name@);
                    assert(new_l[p as int] == e);
                    if i < p {
                        assert(old_l[i] == new_l[i]);
                        assert(text_lt(new_l[i].0, new_l[p as int].0));
                    } else {
                        assert(old_l[i] == new_l[i + 1]);
                        assert(text_lt(new_l[p as int].0, new_l[i + 1].0));
                    }
                }
                lemma_lookup_absent(old_l, name@);
            }
        }
        self.tools = out;
    }

    /// Check if a tool exists.
    pub fn has(&self, name: &str) -> (r: bool)
        ensures
            r == (lookup(self@, name@) is Some),
    {
        self.get(name).is_some()
    }

    /// Get a tool by name.
    pub fn get(&self, name: &str) -> (r: Option<&ToolDescriptor>)
        ensures
            match r {
                Some(d) => lookup(self@, name@) == Some(d@),
                None => lookup(self@, name@) is None,
            },
    {
        let key = to_chars(name);
        let mut i: usize = 0;
        let ghost l = self@;
        assert(l.subrange(0, l.len() as int) =~= l);
        while i < self.tools.len()
            invariant
                i <= self.tools.len(),
                l == desc_views(self.tools@),
                key@ == name@,
                lookup(l, key@) == lookup(l.subrange(i as int, l.len() as int), key@),
            decreases self.tools.len() - i,
        {
            let k = to_chars(self.tools[i].name.as_str());
            let ghost sub = l.subrange(i as int, l.len() as int);
            assert(sub[0] == l[i as int]);
            if chars_eq(&k, &key) {
                return Some(&self.tools[i]);
            }
            assert(sub.drop_first() =~= l.subrange(i + 1, l.len() as int));
            i += 1;
        }
        None
    }

    /// List all tools sorted by name.
    pub fn list(&self) -> (r: Vec<&ToolDescriptor>)
        ensures
            ref_views(r@) == self@,
            sorted_by_name(self@),
    {
        proof {
            use_type_invariant(self);
        }
        let mut out: Vec<&ToolDescriptor> = Vec::new();
        let mut i: usize = 0;
        let ghost l = self@;
        assert(l == desc_views(self.tools@));
        while i < self.tools.len()
            invariant
                i <= self.tools.len(),
                l == desc_views(self.tools@),
                l == self@,
                out@.len() == i,
                ref_views(out@) == self@.take(i as int),
            decreases self.tools.len() - i,
        {
            out.push(&self.tools[i]);
            assert(out@[i as int]@ == l[i as int]);
            assert(ref_views(out@) =~= self@.take(i + 1));
            i += 1;
        }
        assert(self@.take(self.tools.len() as int) =~= self@);
        out
    }

    /// Format tools as compact rows for display: `name: description [source]`.
    pub fn compact_rows(&self) -> (r: Vec<String>)
        ensures
            texts(r@) == compact_rows_of(self@),
    {
        let mut out: Vec<String> = Vec::new();
        let mut i: usize = 0;
        let ghost l = self@;
        assert(l == desc_views(self.tools@));
        while i < self.tools.len()
            invariant
                i <= self.tools.len(),
                l == desc_views(self.tools@),
                l == self@,
                texts(out@) == compact_rows_of(self@.take(i as int)),
            decreases self.tools.len() - i,
        {
            let d = &self.tools[i];
            let mut v: Vec<char> = Vec::new();
            append_str(&mut v, d.name.as_str());
            append_str(&mut v, ": ");
            append_str(&mut v, d.description.as_str());
            append_str(&mut v, " [");
            append_str(&mut v, d.source.as_str());
            append_str(&mut v, "]");
            let ghost before = texts(out@);
            let row = string_of(&v);
            assert(row@ == compact_row(self@[i as int]));
            out.push(row);
            assert(texts(out@) =~= before.push(row@));
            assert(texts(out@) =~= compact_rows_of(self@.take(i + 1)));
            i += 1;
        }
        assert(self@.take(self.tools.len() as int) =~= self@);
        out
    }

    /// Number of registered tools.
    pub fn len(&self) -> (r: usize)
        ensures
            r == self@.len(),
    {
        self.tools.len()
    }

    /// Whether the registry is empty.
    pub fn is_empty(&self) -> (r: bool)
        ensures
            r == (self@.len() == 0),
    {
        self.tools.len() == 0
    }
}

/// The models of a list of descriptor references.
pub open spec fn ref_views(v: Seq<&ToolDescriptor>) -> Seq<DescView> {
    v.map_values(|d: &ToolDescriptor| d@)
}

/// The rows that list the tools `l`.
pub open spec fn compact_rows_of(l: Seq<DescView>) -> Seq<Seq<char>> {
    l.map_values(|d: DescView| compact_row(d))
}

/// The models of a list of built-in tool specs.
pub open spec fn spec_views(v: Seq<BuiltinToolSpec>) -> Seq<SpecView> {
    v.map_values(|t: BuiltinToolSpec| t@)
}

/// The row that lists a tool: `name: description [source]`.
pub open spec fn compact_row(d: DescView) -> Seq<char> {
    d.0 + ": "@ + d.1 + " ["@ + d.2 + "]"@
}

impl Default for ToolRegistry {
    fn default() -> (r: Self)
        ensures
            r@ == Seq::<DescView>::empty(),
    {
        ToolRegistry::new()
    }
}

/// The model of a built-in tool: name, description and parameter schema.
pub type SpecView = (Seq<char>, Seq<char>, ParamsView);

/// A built-in tool with its parameter schema.
#[derive(Debug, Clone)]
pub struct BuiltinToolSpec {
    pub name: String,
    pub description: String,
    pub parameters: ToolParams,
}

impl View for BuiltinToolSpec {
    type V = SpecView;

    open spec fn view(&self) -> SpecView {
        (self.name@, self.description@, self.parameters@)
    }
}

/// The built-in tools, in the order they are offered.
pub open spec fn builtin_table() -> Seq<SpecView> {
    seq![
        ("tape.info"@, "Show tape session info (entry count, file path)"@, (Seq::<ParamView>::empty(), Seq::<Seq<char>>::empty())),
        ("help"@, "Show available commands"@, (Seq::<ParamView>::empty(), Seq::<Seq<char>>::empty())),
        ("tools"@, "List all registered tools"@, (Seq::<ParamView>::empty(), Seq::<Seq<char>>::empty())),
        ("skills"@, "List discovered skills from workspace"@, (Seq::<ParamView>::empty(), Seq::<Seq<char>>::empty())),
        ("shell.exec"@, "Execute a shell command in the workspace directory. Returns stdout, stderr, and exit code."@, (seq![("command"@, "string"@, "The shell command to execute"@, Seq::<Seq<char>>::empty())], seq!["command"@])),
        ("file.read"@, "Read the contents of a file in the workspace. Path is relative to workspace root."@, (seq![("path"@, "string"@, "Path to the file relative to the workspace root"@, Seq::<Seq<char>>::empty())], seq!["path"@])),
        ("file.write"@, "Write content to a file in the workspace. Creates parent directories if needed."@, (seq![("path"@, "string"@, "Path to the file relative to the workspace root"@, Seq::<Seq<char>>::empty()), ("content"@, "string"@, "The content to write to the file"@, Seq::<Seq<char>>::empty())], seq!["path"@, "content"@])),
        ("file.list"@, "List the contents of a directory in the workspace. Use empty path for workspace root."@, (seq![("path"@, "string"@, "Path to the directory relative to the workspace root. Empty string for root."@, Seq::<Seq<char>>::empty())], Seq::<Seq<char>>::empty())),
        ("file.search"@, "Search for text within files in the workspace (recursive grep). Case-insensitive."@, (seq![("query"@, "string"@, "Text to search for (case-insensitive)"@, Seq::<Seq<char>>::empty()), ("path"@, "string"@, "Optional directory to search in, relative to workspace root. Empty for entire workspace."@, Seq::<Seq<char>>::empty())], seq!["query"@])),
        ("file.edit"@, "Edit a file by searching for old text and replacing with new text. Supports replace_all."@, (seq![("path"@, "string"@, "Path to the file relative to the workspace root"@, Seq::<Seq<char>>::empty()), ("old"@, "string"@, "The exact text to search for in the file"@, Seq::<Seq<char>>::empty()), ("new"@, "string"@, "The replacement text"@, Seq::<Seq<char>>::empty()), ("replace_all"@, "boolean"@, "If true, replace all occurrences. Default: false (replace first only)."@, Seq::<Seq<char>>::empty())], seq!["path"@, "old"@, "new"@])),
        ("web.fetch"@, "Fetch a URL and return the content as markdown. HTML is converted automatically."@, (seq![("url"@, "string"@, "The URL to fetch"@, Seq::<Seq<char>>::empty())], seq!["url"@])),
        ("web.search"@, "Search the web for a query. Returns a search URL to fetch."@, (seq![("query"@, "string"@, "Search query"@, Seq::<Seq<char>>::empty())], seq!["query"@])),
        ("schedule.add"@, "Schedule a reminder. Specify after_seconds (one-shot) or interval_seconds (repeating)."@, (seq![("message"@, "string"@, "For 'reminder' mode: the text to deliver. For 'agent' mode: the prompt/task that the AI agent will execute (e.g. 'Fetch top 20 HackerNews posts and summarize them in Chinese')."@, Seq::<Seq<char>>::empty()), ("after_seconds"@, "integer"@, "Fire once after this many seconds (one-shot timer)"@, Seq::<Seq<char>>::empty()), ("interval_seconds"@, "integer"@, "Fire repeatedly at this interval in seconds"@, Seq::<Seq<char>>::empty()), ("mode"@, "string"@, "IMPORTANT: Use 'agent' when the task requires action (web fetching, analysis, summarization, etc.). Use 'reminder' only for simple text notifications like 'drink water'. Default is 'reminder'."@, seq!["reminder"@, "agent"@])], seq!["message"@])),
        ("schedule.list"@, "List all active scheduled jobs."@, (Seq::<ParamView>::empty(), Seq::<Seq<char>>::empty())),
        ("schedule.remove"@, "Remove a scheduled job by its ID."@, (seq![("job_id"@, "string"@, "The ID of the job to remove"@, Seq::<Seq<char>>::empty())], seq!["job_id"@])),
    ]
}

fn param(name: &str, kind: &str, description: &str, allowed: Vec<String>) -> (r: ParamSpec)
    ensures
        r@ == (name@, kind@, description@, texts(allowed@)),
{
    ParamSpec {
        name: string_from(name),
        kind: string_from(kind),
        description: string_from(description),
        allowed,
    }
}

fn tool_spec(name: &str, description: &str, properties: Vec<ParamSpec>, required: Vec<String>) -> (r:
    BuiltinToolSpec)
    ensures
        r@ == (name@, description@, (properties@.map_values(|p: ParamSpec| p@), texts(required@))),
{
    BuiltinToolSpec {
        name: string_from(name),
        description: string_from(description),
        parameters: ToolParams { properties, required },
    }
}

/// The parameter schema of a tool that takes no parameters.
pub open spec fn no_params() -> ParamsView {
    (Seq::empty(), Seq::empty())
}

/// The parameter schema of a tool that takes no parameters.
pub fn empty_tool_parameters() -> (r: ToolParams)
    ensures
        r@ == no_params(),
{
    let r = ToolParams { properties: Vec::new(), required: Vec::new() };
    assert(r@.0 =~= Seq::<ParamView>::empty());
    assert(r@.1 =~= Seq::<Seq<char>>::empty());
    r
}

fn builtin_spec_0() -> (r: BuiltinToolSpec)
    ensures
        r@ == builtin_table()[0],
{
    let props: Vec<ParamSpec> = vec![];
    assert(props@.map_values(|p: ParamSpec| p@) =~= Seq::<ParamView>::empty());
    let req: Vec<String> = vec![];
    assert(texts(req@) =~= Seq::<Seq<char>>::empty());
    tool_spec("tape.info", "Show tape session info (entry count, file path)", props, req)
}

fn builtin_spec_1() -> (r: BuiltinToolSpec)
    ensures
        r@ == builtin_table()[1],
{
    let props: Vec<ParamSpec> = vec![];
    assert(props@.map_values(|p: ParamSpec| p@) =~= Seq::<ParamView>::empty());
    let req: Vec<String> = vec![];
    assert(texts(req@) =~= Seq::<Seq<char>>::empty());
    tool_spec("help", "Show available commands", props, req)
}

fn builtin_spec_2() -> (r: BuiltinToolSpec)
    ensures
        r@ == builtin_table()[2],
{
    let props: Vec<ParamSpec> = vec![];
    assert(props@.map_values(|p: ParamSpec| p@) =~= Seq::<ParamView>::empty());
    let req: Vec<String> = vec![];
    assert(texts(req@) =~= Seq::<Seq<char>>::empty());
    tool_spec("tools", "List all registered tools", props, req)
}

fn builtin_spec_3() -> (r: BuiltinToolSpec)
    ensures
        r@ == builtin_table()[3],
{
    let props: Vec<ParamSpec> = vec![];
    assert(props@.map_values(|p: ParamSpec| p@) =~= Seq::<ParamView>::empty());
    let req: Vec<String> = vec![];
    assert(texts(req@) =~= Seq::<Seq<char>>::empty());
    tool_spec("skills", "List discovered skills from workspace", props, req)
}

fn builtin_spec_4() -> (r: BuiltinToolSpec)
    ensures
        r@ == builtin_table()[4],
{
    let allowed_0: Vec<String> = vec![];
    assert(texts(allowed_0@) =~= Seq::<Seq<char>>::empty());
    let p_0 = param("command", "string", "The shell command to execute", allowed_0);
    let props: Vec<ParamSpec> = vec![p_0];
    assert(props@.map_values(|p: ParamSpec| p@) =~= seq![("command"@, "string"@, "The shell command to execute"@, Seq::<Seq<char>>::empty())]);
    let req: Vec<String> = vec![string_from("command")];
    assert(texts(req@) =~= seq!["command"@]);
    tool_spec("shell.exec", "Execute a shell command in the workspace directory. Returns stdout, stderr, and exit code.", props, req)
}

fn builtin_spec_5() -> (r: BuiltinToolSpec)
    ensures
        r@ == builtin_table()[5],
{
    let allowed_0: Vec<String> = vec![];
    assert(texts(allowed_0@) =~= Seq::<Seq<char>>::empty());
    let p_0 = param("path", "string", "Path to the file relative to the workspace root", allowed_0);
    let props: Vec<ParamSpec> = vec![p_0];
    assert(props@.map_values(|p: ParamSpec| p@) =~= seq![("path"@, "string"@, "Path to the file relative to the workspace root"@, Seq::<Seq<char>>::empty())]);
    let req: Vec<String> = vec![string_from("path")];
    assert(texts(req@) =~= seq!["path"@]);
    tool_spec("file.read", "Read the contents of a file in the workspace. Path is relative to workspace root.", props, req)
}

fn builtin_spec_6() -> (r: BuiltinToolSpec)
    ensures
        r@ == builtin_table()[6],
{
    let allowed_0: Vec<String> = vec![];
    assert(texts(allowed_0@) =~= Seq::<Seq<char>>::empty());
    let p_0 = param("path", "string", "Path to the file relative to the workspace root", allowed_0);
    let allowed_1: Vec<String> = vec![];
    assert(texts(allowed_1@) =~= Seq::<Seq<char>>::empty());
    let p_1 = param("content", "string", "The content to write to the file", allowed_1);
    let props: Vec<ParamSpec> = vec![p_0, p_1];
    assert(props@.map_values(|p: ParamSpec| p@) =~= seq![("path"@, "string"@, "Path to the file relative to the workspace root"@, Seq::<Seq<char>>::empty()), ("content"@, "string"@, "The content to write to the file"@, Seq::<Seq<char>>::empty())]);
    let req: Vec<String> = vec![string_from("path"), string_from("content")];
    assert(texts(req@) =~= seq!["path"@, "content"@]);
    tool_spec("file.write", "Write content to a file in the workspace. Creates parent directories if needed.", props, req)
}

fn builtin_spec_7() -> (r: BuiltinToolSpec)
    ensures
        r@ == builtin_table()[7],
{
    let allowed_0: Vec<String> = vec![];
    assert(texts(allowed_0@) =~= Seq::<Seq<char>>::empty());
    let p_0 = param("path", "string", "Path to the directory relative to the workspace root. Empty string for root.", allowed_0);
    let props: Vec<ParamSpec> = vec![p_0];
    assert(props@.map_values(|p: ParamSpec| p@) =~= seq![("path"@, "string"@, "Path to the directory relative to the workspace root. Empty string for root."@, Seq::<Seq<char>>::empty())]);
    let req: Vec<String> = vec![];
    assert(texts(req@) =~= Seq::<Seq<char>>::empty());
    tool_spec("file.list", "List the contents of a directory in the workspace. Use empty path for workspace root.", props, req)
}

fn builtin_spec_8() -> (r: BuiltinToolSpec)
    ensures
        r@ == builtin_table()[8],
{
    let allowed_0: Vec<String> = vec![];
    assert(texts(allowed_0@) =~= Seq::<Seq<char>>::empty());
    let p_0 = param("query", "string", "Text to search for (case-insensitive)", allowed_0);
    let allowed_1: Vec<String> = vec![];
    assert(texts(allowed_1@) =~= Seq::<Seq<char>>::empty());
    let p_1 = param("path", "string", "Optional directory to search in, relative to workspace root. Empty for entire workspace.", allowed_1);
    let props: Vec<ParamSpec> = vec![p_0, p_1];
    assert(props@.map_values(|p: ParamSpec| p@) =~= seq![("query"@, "string"@, "Text to search for (case-insensitive)"@, Seq::<Seq<char>>::empty()), ("path"@, "string"@, "Optional directory to search in, relative to workspace root. Empty for entire workspace."@, Seq::<Seq<char>>::empty())]);
    let req: Vec<String> = vec![string_from("query")];
    assert(texts(req@) =~= seq!["query"@]);
    tool_spec("file.search", "Search for text within files in the workspace (recursive grep). Case-insensitive.", props, req)
}

fn builtin_spec_9() -> (r: BuiltinToolSpec)
    ensures
        r@ == builtin_table()[9],
{
    let allowed_0: Vec<String> = vec![];
    assert(texts(allowed_0@) =~= Seq::<Seq<char>>::empty());
    let p_0 = param("path", "string", "Path to the file relative to the workspace root", allowed_0);
    let allowed_1: Vec<String> = vec![];
    assert(texts(allowed_1@) =~= Seq::<Seq<char>>::empty());
    let p_1 = param("old", "string", "The exact text to search for in the file", allowed_1);
    let allowed_2: Vec<String> = vec![];
    assert(texts(allowed_2@) =~= Seq::<Seq<char>>::empty());
    let p_2 = param("new", "string", "The replacement text", allowed_2);
    let allowed_3: Vec<String> = vec![];
    assert(texts(allowed_3@) =~= Seq::<Seq<char>>::empty());
    let p_3 = param("replace_all", "boolean", "If true, replace all occurrences. Default: false (replace first only).", allowed_3);
    let props: Vec<ParamSpec> = vec![p_0, p_1, p_2, p_3];
    assert(props@.map_values(|p: ParamSpec| p@) =~= seq![("path"@, "string"@, "Path to the file relative to the workspace root"@, Seq::<Seq<char>>::empty()), ("old"@, "string"@, "The exact text to search for in the file"@, Seq::<Seq<char>>::empty()), ("new"@, "string"@, "The replacement text"@, Seq::<Seq<char>>::empty()), ("replace_all"@, "boolean"@, "If true, replace all occurrences. Default: false (replace first only)."@, Seq::<Seq<char>>::empty())]);
    let req: Vec<String> = vec![string_from("path"), string_from("old"), string_from("new")];
    assert(texts(req@) =~= seq!["path"@, "old"@, "new"@]);
    tool_spec("file.edit", "Edit a file by searching for old text and replacing with new text. Supports replace_all.", props, req)
}

fn builtin_spec_10() -> (r: BuiltinToolSpec)
    ensures
        r@ == builtin_table()[10],
{
    let allowed_0: Vec<String> = vec![];
    assert(texts(allowed_0@) =~= Seq::<Seq<char>>::empty());
    let p_0 = param("url", "string", "The URL to fetch", allowed_0);
    let props: Vec<ParamSpec> = vec![p_0];
    assert(props@.map_values(|p: ParamSpec| p@) =~= seq![("url"@, "string"@, "The URL to fetch"@, Seq::<Seq<char>>::empty())]);
    let req: Vec<String> = vec![string_from("url")];
    assert(texts(req@) =~= seq!["url"@]);
    tool_spec("web.fetch", "Fetch a URL and return the content as markdown. HTML is converted automatically.", props, req)
}

fn builtin_spec_11() -> (r: BuiltinToolSpec)
    ensures
        r@ == builtin_table()[11],
{
    let allowed_0: Vec<String> = vec![];
    assert(texts(allowed_0@) =~= Seq::<Seq<char>>::empty());
    let p_0 = param("query", "string", "Search query", allowed_0);
    let props: Vec<ParamSpec> = vec![p_0];
    assert(props@.map_values(|p: ParamSpec| p@) =~= seq![("query"@, "string"@, "Search query"@, Seq::<Seq<char>>::empty())]);
    let req: Vec<String> = vec![string_from("query")];
    assert(texts(req@) =~= seq!["query"@]);
    tool_spec("web.search", "Search the web for a query. Returns a search URL to fetch.", props, req)
}

fn builtin_spec_12() -> (r: BuiltinToolSpec)
    ensures
        r@ == builtin_table()[12],
{
    let allowed_0: Vec<String> = vec![];
    assert(texts(allowed_0@) =~= Seq::<Seq<char>>::empty());
    let p_0 = param("message", "string", "For 'reminder' mode: the text to deliver. For 'agent' mode: the prompt/task that the AI agent will execute (e.g. 'Fetch top 20 HackerNews posts and summarize them in Chinese').", allowed_0);
    let allowed_1: Vec<String> = vec![];
    assert(texts(allowed_1@) =~= Seq::<Seq<char>>::empty());
    let p_1 = param("after_seconds", "integer", "Fire once after this many seconds (one-shot timer)", allowed_1);
    let allowed_2: Vec<String> = vec![];
    assert(texts(allowed_2@) =~= Seq::<Seq<char>>::empty());
    let p_2 = param("interval_seconds", "integer", "Fire repeatedly at this interval in seconds", allowed_2);
    let allowed_3: Vec<String> = vec![string_from("reminder"), string_from("agent")];
    assert(texts(allowed_3@) =~= seq!["reminder"@, "agent"@]);
    let p_3 = param("mode", "string", "IMPORTANT: Use 'agent' when the task requires action (web fetching, analysis, summarization, etc.). Use 'reminder' only for simple text notifications like 'drink water'. Default is 'reminder'.", allowed_3);
    let props: Vec<ParamSpec> = vec![p_0, p_1, p_2, p_3];
    assert(props@.map_values(|p: ParamSpec| p@) =~= seq![("message"@, "string"@, "For 'reminder' mode: the text to deliver. For 'agent' mode: the prompt/task that the AI agent will execute (e.g. 'Fetch top 20 HackerNews posts and summarize them in Chinese')."@, Seq::<Seq<char>>::empty()), ("after_seconds"@, "integer"@, "Fire once after this many seconds (one-shot timer)"@, Seq::<Seq<char>>::empty()), ("interval_seconds"@, "integer"@, "Fire repeatedly at this interval in seconds"@, Seq::<Seq<char>>::empty()), ("mode"@, "string"@, "IMPORTANT: Use 'agent' when the task requires action (web fetching, analysis, summarization, etc.). Use 'reminder' only for simple text notifications like 'drink water'. Default is 'reminder'."@, seq!["reminder"@, "agent"@])]);
    let req: Vec<String> = vec![string_from("message")];
    assert(texts(req@) =~= seq!["message"@]);
    tool_spec("schedule.add", "Schedule a reminder. Specify after_seconds (one-shot) or interval_seconds (repeating).", props, req)
}

fn builtin_spec_13() -> (r: BuiltinToolSpec)
    ensures
        r@ == builtin_table()[13],
{
    let props: Vec<ParamSpec> = vec![];
    assert(props@.map_values(|p: ParamSpec| p@) =~= Seq::<ParamView>::empty());
    let req: Vec<String> = vec![];
    assert(texts(req@) =~= Seq::<Seq<char>>::empty());
    tool_spec("schedule.list", "List all active scheduled jobs.", props, req)
}

fn builtin_spec_14() -> (r: BuiltinToolSpec)
    ensures
        r@ == builtin_table()[14],
{
    let allowed_0: Vec<String> = vec![];
    assert(texts(allowed_0@) =~= Seq::<Seq<char>>::empty());
    let p_0 = param("job_id", "string", "The ID of the job to remove", allowed_0);
    let props: Vec<ParamSpec> = vec![p_0];
    assert(props@.map_values(|p: ParamSpec| p@) =~= seq![("job_id"@, "string"@, "The ID of the job to remove"@, Seq::<Seq<char>>::empty())]);
    let req: Vec<String> = vec![string_from("job_id")];
    assert(texts(req@) =~= seq!["job_id"@]);
    tool_spec("schedule.remove", "Remove a scheduled job by its ID.", props, req)
}

/// The built-in tools with their parameter schemas.
pub fn builtin_tool_specs() -> (r: Vec<BuiltinToolSpec>)
    ensures
        spec_views(r@) == builtin_table(),
{
    let r = vec![builtin_spec_0(), builtin_spec_1(), builtin_spec_2(), builtin_spec_3(), builtin_spec_4(), builtin_spec_5(), builtin_spec_6(), builtin_spec_7(), builtin_spec_8(), builtin_spec_9(), builtin_spec_10(), builtin_spec_11(), builtin_spec_12(), builtin_spec_13(), builtin_spec_14()];
    assert(r@[0]@ == builtin_table()[0]);
    assert(r@[1]@ == builtin_table()[1]);
    assert(r@[2]@ == builtin_table()[2]);
    assert(r@[3]@ == builtin_table()[3]);
    assert(r@[4]@ == builtin_table()[4]);
    assert(r@[5]@ == builtin_table()[5]);
    assert(r@[6]@ == builtin_table()[6]);
    assert(r@[7]@ == builtin_table()[7]);
    assert(r@[8]@ == builtin_table()[8]);
    assert(r@[9]@ == builtin_table()[9]);
    assert(r@[10]@ == builtin_table()[10]);
    assert(r@[11]@ == builtin_table()[11]);
    assert(r@[12]@ == builtin_table()[12]);
    assert(r@[13]@ == builtin_table()[13]);
    assert(r@[14]@ == builtin_table()[14]);
    assert(spec_views(r@) =~= builtin_table());
    r
}

/// The parameter schema of the first built-in tool named `n`, or none.
pub open spec fn params_for(t: Seq<SpecView>, n: Seq<char>) -> ParamsView
    decreases t.len(),
{
    if t.len() == 0 {
        no_params()
    } else if t[0].0 == n {
        t[0].2
    } else {
        params_for(t.drop_first(), n)
    }
}

/// Return the JSON schema for a tool's parameters.
pub fn tool_parameters(name: &str) -> (r: ToolParams)
    ensures
        r@ == params_for(builtin_table(), name@),
{
    let mut specs = builtin_tool_specs();
    let ghost t = builtin_table();
    let key = to_chars(name);
    let mut i: usize = 0;
    assert(t.subrange(0, t.len() as int) =~= t);
    while i < specs.len()
        invariant
            i <= specs.len(),
            spec_views(specs@) == t,
            t == builtin_table(),
            key@ == name@,
            params_for(t, name@) == params_for(t.subrange(i as int, t.len() as int), name@),
        decreases specs.len() - i,
    {
        let k = to_chars(specs[i].name.as_str());
        let ghost sub = t.subrange(i as int, t.len() as int);
        assert(sub[0] == specs@[i as int]@);
        if chars_eq(&k, &key) {
            let ghost before = specs@[i as int]@;
            let found = specs.remove(i);
            assert(found@ == before);
            assert(params_for(sub, name@) == before.2);
            return found.parameters;
        }
        assert(sub.drop_first() =~= t.subrange(i + 1, t.len() as int));
        i += 1;
    }
    empty_tool_parameters()
}

/// Whether one of the first `k` tools of `t` is named `n`.
spec fn named_before(t: Seq<SpecView>, k: nat, n: Seq<char>) -> bool
    decreases k,
{
    if k == 0 {
        false
    } else {
        t[k - 1].0 == n || named_before(t, (k - 1) as nat, n)
    }
}

/// Whether the first `k` tools of `t` have distinct names.
spec fn distinct_prefix(t: Seq<SpecView>, k: nat) -> bool
    decreases k,
{
    if k == 0 {
        true
    } else {
        !named_before(t, (k - 1) as nat, t[k - 1].0) && distinct_prefix(t, (k - 1) as nat)
    }
}

/// No two built-in tools share a name.
proof fn lemma_builtin_names_distinct()
    ensures
        distinct_prefix(builtin_table(), 15),
{
    let t = builtin_table();
    reveal_strlit("tape.info");
    assert(t[0].0 == "tape.info"@);
    reveal_strlit("help");
    assert(t[1].0 == "help"@);
    reveal_strlit("tools");
    assert(t[2].0 == "tools"@);
    reveal_strlit("skills");
    assert(t[3].0 == "skills"@);
    reveal_strlit("shell.exec");
    assert(t[4].0 == "shell.exec"@);
    reveal_strlit("file.read");
    assert(t[5].0 == "file.read"@);
    reveal_strlit("file.write");
    assert(t[6].0 == "file.write"@);
    reveal_strlit("file.list");
    assert(t[7].0 == "file.list"@);
    reveal_strlit("file.search");
    assert(t[8].0 == "file.search"@);
    reveal_strlit("file.edit");
    assert(t[9].0 == "file.edit"@);
    reveal_strlit("web.fetch");
    assert(t[10].0 == "web.fetch"@);
    reveal_strlit("web.search");
    assert(t[11].0 == "web.search"@);
    reveal_strlit("schedule.add");
    assert(t[12].0 == "schedule.add"@);
    reveal_strlit("schedule.list");
    assert(t[13].0 == "schedule.list"@);
    reveal_strlit("schedule.remove");
    assert(t[14].0 == "schedule.remove"@);
    reveal_with_fuel(named_before, 16);
    reveal_with_fuel(distinct_prefix, 16);
    // Names of the same length differ in some character.
    assert(t[0].0[0] != t[5].0[0]);
    assert(t[4].0[0] != t[6].0[0]);
    assert(t[0].0[0] != t[7].0[0]);
    assert(t[5].0[5] != t[7].0[5]);
    assert(t[0].0[0] != t[9].0[0]);
    assert(t[5].0[5] != t[9].0[5]);
    assert(t[7].0[5] != t[9].0[5]);
    assert(t[0].0[0] != t[10].0[0]);
    assert(t[5].0[0] != t[10].0[0]);
    assert(t[7].0[0] != t[10].0[0]);
    assert(t[9].0[0] != t[10].0[0]);
    assert(t[4].0[0] != t[11].0[0]);
    assert(t[6].0[0] != t[11].0[0]);
}

/// In a list with distinct names, no tool is named like one before it.
proof fn lemma_distinct_prefix_fresh(t: Seq<SpecView>, k: nat, j: nat)
    requires
        distinct_prefix(t, k),
        j < k,
    ensures
        !named_before(t, j, t[j as int].0),
    decreases k,
{
    if j + 1 < k {
        lemma_distinct_prefix_fresh(t, (k - 1) as nat, j);
    }
}

/// Registering tools none of which is named `n` leaves no entry for `n`.
proof fn lemma_builtin_entry_absent(t: Seq<SpecView>, i: nat, n: Seq<char>)
    requires
        i <= t.len(),
        !named_before(t, i, n),
    ensures
        builtin_entry(t.take(i as int), n) is None,
    decreases i,
{
    if i > 0 {
        assert(t.take(i as int).drop_last() =~= t.take(i - 1));
        assert(t.take(i as int).last() == t[i - 1]);
        lemma_builtin_entry_absent(t, (i - 1) as nat, n);
    }
}

/// The registry entry that registering the built-in tools of `t` in order leaves for `n`.
pub open spec fn builtin_entry(t: Seq<SpecView>, n: Seq<char>) -> Option<DescView>
    decreases t.len(),
{
    if t.len() == 0 {
        None
    } else if t.last().0 == n {
        Some((n, t.last().1, "builtin"@))
    } else {
        builtin_entry(t.drop_last(), n)
    }
}

/// Create a registry with the built-in tools pre-registered.
pub fn builtin_registry() -> (r: ToolRegistry)
    ensures
        forall|n: Seq<char>| #[trigger] lookup(r@, n) == builtin_entry(builtin_table(), n),
        r@.len() == builtin_table().len(),
        sorted_by_name(r@),
{
    let specs = builtin_tool_specs();
    let ghost t = builtin_table();
    proof {
        lemma_builtin_names_distinct();
    }
    let mut registry = ToolRegistry::new();
    let mut i: usize = 0;
    while i < specs.len()
        invariant
            i <= specs.len(),
            spec_views(specs@) == t,
            t == builtin_table(),
            distinct_prefix(t, t.len()),
            forall|n: Seq<char>| #[trigger] lookup(registry@, n) == builtin_entry(t.take(i as int), n),
            registry@.len() == i,
            sorted_by_name(registry@),
        decreases specs.len() - i,
    {
        assert(t.take(i + 1).drop_last() =~= t.take(i as int));
        assert(t.take(i + 1).last() == specs@[i as int]@);
        proof {
            lemma_distinct_prefix_fresh(t, t.len(), i as nat);
            lemma_builtin_entry_absent(t, i as nat, t[i as int].0);
            assert(lookup(registry@, t[i as int].0) is None);
        }
        registry.register(specs[i].name.as_str(), specs[i].description.as_str(), "builtin");
        i += 1;
    }
    assert(t.take(specs.len() as int) =~= t);
    registry
}

/// The lines of the tools contract in the system prompt.
pub open spec fn contract_lines(t: Seq<SpecView>) -> Seq<Seq<char>> {
    seq!["<tools_contract>"@, "You have access to the following built-in tools:"@] + t.map_values(
        |x: SpecView| "- "@ + x.0 + ": "@ + x.1,
    ) + seq![
        "You can also access any discovered skills from the workspace."@,
        "When helping the user:"@,
        "- Be concise and actionable"@,
        "- Use tools proactively when they would help answer the question"@,
        "- If a shell command fails, analyze the error and suggest fixes"@,
        "- Prefer reading files over asking the user to paste code"@,
        "</tools_contract>"@,
    ]
}

/// The block of the system prompt that lists the built-in tools.
pub fn builtin_tools_contract_block() -> (r: String)
    ensures
        r@ == join(contract_lines(builtin_table()), "\n"@),
{
    let specs = builtin_tool_specs();
    let ghost t = builtin_table();
    let mut lines: Vec<String> = Vec::new();
    lines.push(string_from("<tools_contract>"));
    lines.push(string_from("You have access to the following built-in tools:"));
    let ghost head = texts(lines@);
    assert(head =~= seq!["<tools_contract>"@, "You have access to the following built-in tools:"@]);
    let mut i: usize = 0;
    while i < specs.len()
        invariant
            i <= specs.len(),
            spec_views(specs@) == t,
            texts(lines@) == head + t.take(i as int).map_values(|x: SpecView| "- "@ + x.0 + ": "@ + x.1),
        decreases specs.len() - i,
    {
        let mut v: Vec<char> = Vec::new();
        append_str(&mut v, "- ");
        append_str(&mut v, specs[i].name.as_str());
        append_str(&mut v, ": ");
        append_str(&mut v, specs[i].description.as_str());
        let ghost before = texts(lines@);
        let row = string_of(&v);
        assert(row@ == "- "@ + t[i as int].0 + ": "@ + t[i as int].1);
        lines.push(row);
        assert(texts(lines@) =~= before.push(row@));
        assert(t.take(i + 1).map_values(|x: SpecView| "- "@ + x.0 + ": "@ + x.1) =~= t.take(
            i as int,
        ).map_values(|x: SpecView| "- "@ + x.0 + ": "@ + x.1).push(row@));
        i += 1;
    }
    assert(t.take(specs.len() as int) =~= t);
    let ghost mid = texts(lines@);
    lines.push(string_from("You can also access any discovered skills from the workspace."));
    lines.push(string_from("When helping the user:"));
    lines.push(string_from("- Be concise and actionable"));
    lines.push(string_from("- Use tools proactively when they would help answer the question"));
    lines.push(string_from("- If a shell command fails, analyze the error and suggest fixes"));
    lines.push(string_from("- Prefer reading files over asking the user to paste code"));
    lines.push(string_from("</tools_contract>"));
    let ghost tail = seq![
        "You can also access any discovered skills from the workspace."@,
        "When helping the user:"@,
        "- Be concise and actionable"@,
        "- Use tools proactively when they would help answer the question"@,
        "- If a shell command fails, analyze the error and suggest fixes"@,
        "- Prefer reading files over asking the user to paste code"@,
        "</tools_contract>"@,
    ];
    assert(texts(lines@) =~= mid + tail);
    assert(contract_lines(t) =~= mid + tail);
    join_strings(&lines, "\n")
}

/// Whether `defs` are the API definitions of the registry entries `l`: each a function
/// with the entry's name and description and the built-in schema for that name.
pub open spec fn definitions_of(defs: Seq<ToolDefinition>, l: Seq<DescView>) -> bool {
    &&& defs.len() == l.len()
    &&& forall|i: int|
        0 <= i < l.len() ==> {
            &&& (#[trigger] defs[i]).tool_type@ == "function"@
            &&& defs[i].function.name@ == l[i].0
            &&& defs[i].function.description@ == l[i].1
            &&& defs[i].function.parameters@ == params_for(builtin_table(), l[i].0)
        }
}

/// Generate OpenAI-compatible tool definitions from the registry.
pub fn to_tool_definitions(registry: &ToolRegistry) -> (r: Vec<ToolDefinition>)
    ensures
        definitions_of(r@, registry@),
{
    let list = registry.list();
    let ghost l = registry@;
    let mut defs: Vec<ToolDefinition> = Vec::new();
    let mut i: usize = 0;
    while i < list.len()
        invariant
            i <= list.len(),
            ref_views(list@) == l,
            definitions_of(defs@, l.take(i as int)),
        decreases list.len() - i,
    {
        let d = list[i];
        assert(d@ == l[i as int]);
        let parameters = tool_parameters(d.name.as_str());
        let def = ToolDefinition {
            tool_type: string_from("function"),
            function: FunctionDefinition {
                name: d.name.clone(),
                description: d.description.clone(),
                parameters,
            },
        };
        defs.push(def);
        assert(l.take(i + 1) =~= l.take(i as int).push(l[i as int]));
        i += 1;
    }
    assert(l.take(list.len() as int) =~= l);
    defs
}

/// What a tool call comes to, before anything outside the library is done: a reply
/// that is already known, or the work to do with the arguments it needs.
pub enum ToolPlan {
    Reply(Seq<char>),
    TapeInfo,
    Help,
    Tools,
    Skills,
    Shell(Seq<char>),
    FileRead(Seq<char>),
    FileWrite(Seq<char>, Seq<char>),
    FileList(Seq<char>),
    FileSearch(Seq<char>, Seq<char>),
    FileEdit(Seq<char>, Seq<char>, Seq<char>, bool),
    WebFetch(Seq<char>),
    WebSearch(Seq<char>),
    ScheduleAdd(Seq<char>, Option<u64>, Option<u64>, JobMode),
    ScheduleList,
    ScheduleRemove(Seq<char>),
    SkillBody(Seq<char>),
}

/// What a tool call comes to: a reply, or the work to do (see `ToolPlan`).
pub enum ToolAction {
    Reply(String),
    TapeInfo,
    Help,
    Tools,
    Skills,
    Shell(String),
    FileRead(String),
    FileWrite(String, String),
    FileList(String),
    FileSearch(String, String),
    FileEdit(String, String, String, bool),
    WebFetch(String),
    WebSearch(String),
    ScheduleAdd(String, Option<u64>, Option<u64>, JobMode),
    ScheduleList,
    ScheduleRemove(String),
    SkillBody(String),
}

impl View for ToolAction {
    type V = ToolPlan;

    open spec fn view(&self) -> ToolPlan {
        match self {
            ToolAction::Reply(t) => ToolPlan::Reply(t@),
            ToolAction::TapeInfo => ToolPlan::TapeInfo,
            ToolAction::Help => ToolPlan::Help,
            ToolAction::Tools => ToolPlan::Tools,
            ToolAction::Skills => ToolPlan::Skills,
            ToolAction::Shell(c) => ToolPlan::Shell(c@),
            ToolAction::FileRead(p) => ToolPlan::FileRead(p@),
            ToolAction::FileWrite(p, c) => ToolPlan::FileWrite(p@, c@),
            ToolAction::FileList(p) => ToolPlan::FileList(p@),
            ToolAction::FileSearch(q, p) => ToolPlan::FileSearch(q@, p@),
            ToolAction::FileEdit(p, o, n, a) => ToolPlan::FileEdit(p@, o@, n@, *a),
            ToolAction::WebFetch(u) => ToolPlan::WebFetch(u@),
            ToolAction::WebSearch(q) => ToolPlan::WebSearch(q@),
            ToolAction::ScheduleAdd(m, a, i, mode) => ToolPlan::ScheduleAdd(m@, *a, *i, *mode),
            ToolAction::ScheduleList => ToolPlan::ScheduleList,
            ToolAction::ScheduleRemove(j) => ToolPlan::ScheduleRemove(j@),
            ToolAction::SkillBody(n) => ToolPlan::SkillBody(n@),
        }
    }
}

/// The string argument `key` of a tool call whose arguments parsed as `parsed`; empty
/// when the arguments are not JSON or the member is not a string.
pub open spec fn arg_text(parsed: Option<Json>, key: Seq<char>) -> Seq<char> {
    match parsed {
        Some(v) => match text_of(field(v, key)) {
            Some(t) => t,
            None => ""@,
        },
        None => ""@,
    }
}

/// The member `key` of the parsed arguments.
pub open spec fn arg_member(parsed: Option<Json>, key: Seq<char>) -> Option<Json> {
    match parsed {
        Some(v) => field(v, key),
        None => None,
    }
}

/// The reply to a tool call that lacks the argument `key`.
pub open spec fn missing_arg(key: Seq<char>) -> ToolPlan {
    ToolPlan::Reply("Error: '"@ + key + "' argument is required."@)
}

/// The plan of a file or web tool that needs one non-empty argument.
pub open spec fn one_arg(parsed: Option<Json>, key: Seq<char>, plan: ToolPlan) -> ToolPlan {
    if arg_text(parsed, key).len() == 0 {
        missing_arg(key)
    } else {
        plan
    }
}

/// What a call of the tool `name` with the argument text `args`, which parsed as
/// `parsed`, comes to. The shell tool takes its `command` argument, or the argument text
/// itself, trimmed, when that is not JSON; the file, web and schedule tools take their
/// string arguments, and fail on the one each needs; `schedule.add` also reads its
/// timings and mode; a `skill.` name asks for that skill's body.
pub open spec fn tool_plan(name: Seq<char>, args: Seq<char>, parsed: Option<Json>) -> ToolPlan {
    if name == "tape.info"@ {
        ToolPlan::TapeInfo
    } else if name == "tape.reset"@ {
        ToolPlan::Reply("Tape reset is only available via the ,tape.reset command."@)
    } else if name == "help"@ {
        ToolPlan::Help
    } else if name == "tools"@ {
        ToolPlan::Tools
    } else if name == "skills"@ {
        ToolPlan::Skills
    } else if name == "shell.exec"@ {
        match parsed {
            Some(v) => match text_of(field(v, "command"@)) {
                Some(c) => ToolPlan::Shell(c),
                None => ToolPlan::Reply("Error: 'command' argument is required."@),
            },
            None => if trim(args).len() == 0 {
                ToolPlan::Reply("Error: no command provided."@)
            } else {
                ToolPlan::Shell(trim(args))
            },
        }
    } else if name == "file.read"@ {
        one_arg(parsed, "path"@, ToolPlan::FileRead(arg_text(parsed, "path"@)))
    } else if name == "file.write"@ {
        one_arg(parsed, "path"@, ToolPlan::FileWrite(arg_text(parsed, "path"@), arg_text(parsed, "content"@)))
    } else if name == "file.list"@ {
        ToolPlan::FileList(arg_text(parsed, "path"@))
    } else if name == "file.search"@ {
        one_arg(parsed, "query"@, ToolPlan::FileSearch(arg_text(parsed, "query"@), arg_text(parsed, "path"@)))
    } else if name == "file.edit"@ {
        if arg_text(parsed, "path"@).len() == 0 {
            missing_arg("path"@)
        } else if arg_text(parsed, "old"@).len() == 0 {
            missing_arg("old"@)
        } else {
            ToolPlan::FileEdit(
                arg_text(parsed, "path"@),
                arg_text(parsed, "old"@),
                arg_text(parsed, "new"@),
                flag_of(arg_member(parsed, "replace_all"@)) == Some(true),
            )
        }
    } else if name == "web.fetch"@ {
        one_arg(parsed, "url"@, ToolPlan::WebFetch(arg_text(parsed, "url"@)))
    } else if name == "web.search"@ {
        one_arg(parsed, "query"@, ToolPlan::WebSearch(arg_text(parsed, "query"@)))
    } else if name == "schedule.add"@ {
        one_arg(
            parsed,
            "message"@,
            ToolPlan::ScheduleAdd(
                arg_text(parsed, "message"@),
                count_of(arg_member(parsed, "after_seconds"@)),
                count_of(arg_member(parsed, "interval_seconds"@)),
                if text_of(arg_member(parsed, "mode"@)) == Some("agent"@) {
                    JobMode::Agent
                } else {
                    JobMode::Reminder
                },
            ),
        )
    } else if name == "schedule.list"@ {
        ToolPlan::ScheduleList
    } else if name == "schedule.remove"@ {
        one_arg(parsed, "job_id"@, ToolPlan::ScheduleRemove(arg_text(parsed, "job_id"@)))
    } else if starts_with(name, "skill."@) {
        ToolPlan::SkillBody(name.subrange(6, name.len() as int))
    } else {
        ToolPlan::Reply("Unknown tool: "@ + name)
    }
}

/// The string argument `key` of parsed tool arguments.
fn arg_text_exec(parsed: Option<&Json>, key: &str) -> (r: String)
    ensures
        r@ == arg_text(deref_json(parsed), key@),
{
    proof {
        reveal_strlit("");
    }
    match parsed {
        Some(v) => match v.get(key) {
            Some(x) => match x.as_str() {
                Some(t) => string_from(t),
                None => String::new(),
            },
            None => String::new(),
        },
        None => String::new(),
    }
}

/// The member `key` of parsed tool arguments.
fn arg_member_exec<'a>(parsed: Option<&'a Json>, key: &str) -> (r: Option<&'a Json>)
    ensures
        deref_json(r) == arg_member(deref_json(parsed), key@),
{
    match parsed {
        Some(v) => v.get(key),
        None => None,
    }
}

/// The reply to a tool call that lacks the argument `key`.
fn missing_arg_exec(key: &str) -> (r: ToolAction)
    ensures
        r@ == missing_arg(key@),
{
    let mut v: Vec<char> = Vec::new();
    append_str(&mut v, "Error: '");
    append_str(&mut v, key);
    append_str(&mut v, "' argument is required.");
    ToolAction::Reply(string_of(&v))
}

/// What a call of the tool `name` comes to, given its argument text and what that text
/// parsed as.
pub fn plan_tool_with(name: &str, args: &str, parsed: Option<&Json>) -> (r: ToolAction)
    ensures
        r@ == tool_plan(name@, args@, deref_json(parsed)),
{
    let ghost p = deref_json(parsed);
    if str_eq(name, "tape.info") {
        ToolAction::TapeInfo
    } else if str_eq(name, "tape.reset") {
        ToolAction::Reply(string_from("Tape reset is only available via the ,tape.reset command."))
    } else if str_eq(name, "help") {
        ToolAction::Help
    } else if str_eq(name, "tools") {
        ToolAction::Tools
    } else if str_eq(name, "skills") {
        ToolAction::Skills
    } else if str_eq(name, "shell.exec") {
        match parsed {
            Some(v) => match v.get("command") {
                Some(c) => match c.as_str() {
                    Some(cmd) => ToolAction::Shell(string_from(cmd)),
                    None => ToolAction::Reply(string_from("Error: 'command' argument is required.")),
                },
                None => ToolAction::Reply(string_from("Error: 'command' argument is required.")),
            },
            None => {
                let t = trim_chars(&to_chars(args));
                if t.len() == 0 {
                    ToolAction::Reply(string_from("Error: no command provided."))
                } else {
                    ToolAction::Shell(string_of(&t))
                }
            },
        }
    } else if str_eq(name, "file.read") {
        let path = arg_text_exec(parsed, "path");
        if to_chars(path.as_str()).len() == 0 {
            missing_arg_exec("path")
        } else {
            ToolAction::FileRead(path)
        }
    } else if str_eq(name, "file.write") {
        let path = arg_text_exec(parsed, "path");
        let content = arg_text_exec(parsed, "content");
        if to_chars(path.as_str()).len() == 0 {
            missing_arg_exec("path")
        } else {
            ToolAction::FileWrite(path, content)
        }
    } else if str_eq(name, "file.list") {
        ToolAction::FileList(arg_text_exec(parsed, "path"))
    } else if str_eq(name, "file.search") {
        let query = arg_text_exec(parsed, "query");
        let path = arg_text_exec(parsed, "path");
        if to_chars(query.as_str()).len() == 0 {
            missing_arg_exec("query")
        } else {
            ToolAction::FileSearch(query, path)
        }
    } else if str_eq(name, "file.edit") {
        let path = arg_text_exec(parsed, "path");
        let old = arg_text_exec(parsed, "old");
        let new = arg_text_exec(parsed, "new");
        if to_chars(path.as_str()).len() == 0 {
            missing_arg_exec("path")
        } else if to_chars(old.as_str()).len() == 0 {
            missing_arg_exec("old")
        } else {
            let all = match arg_member_exec(parsed, "replace_all") {
                Some(x) => match x.as_bool() {
                    Some(b) => b,
                    None => false,
                },
                None => false,
            };
            ToolAction::FileEdit(path, old, new, all)
        }
    } else if str_eq(name, "web.fetch") {
        let url = arg_text_exec(parsed, "url");
        if to_chars(url.as_str()).len() == 0 {
            missing_arg_exec("url")
        } else {
            ToolAction::WebFetch(url)
        }
    } else if str_eq(name, "web.search") {
        let query = arg_text_exec(parsed, "query");
        if to_chars(query.as_str()).len() == 0 {
            missing_arg_exec("query")
        } else {
            ToolAction::WebSearch(query)
        }
    } else if str_eq(name, "schedule.add") {
        let message = arg_text_exec(parsed, "message");
        if to_chars(message.as_str()).len() == 0 {
            missing_arg_exec("message")
        } else {
            let after = match arg_member_exec(parsed, "after_seconds") {
                Some(x) => x.as_u64(),
                None => None,
            };
            let interval = match arg_member_exec(parsed, "interval_seconds") {
                Some(x) => x.as_u64(),
                None => None,
            };
            let mode = match arg_member_exec(parsed, "mode") {
                Some(x) => JobMode::from_arg(x.as_str()),
                None => JobMode::Reminder,
            };
            ToolAction::ScheduleAdd(message, after, interval, mode)
        }
    } else if str_eq(name, "schedule.list") {
        ToolAction::ScheduleList
    } else if str_eq(name, "schedule.remove") {
        let id = arg_text_exec(parsed, "job_id");
        if to_chars(id.as_str()).len() == 0 {
            missing_arg_exec("job_id")
        } else {
            ToolAction::ScheduleRemove(id)
        }
    } else {
        let n = to_chars(name);
        if starts_with_str(&n, "skill.") {
            proof {
                reveal_strlit("skill.");
            }
            ToolAction::SkillBody(string_of(&crate::text::slice_chars(&n, 6, n.len())))
        } else {
            let mut v: Vec<char> = Vec::new();
            append_str(&mut v, "Unknown tool: ");
            append_str(&mut v, name);
            ToolAction::Reply(string_of(&v))
        }
    }
}

/// What a call of the tool `name` with the argument text `args` comes to; the arguments
/// are parsed as JSON first.
pub fn plan_tool(name: &str, args: &str) -> (r: ToolAction)
    ensures
        r@ == tool_plan(name@, args@, json_text_parse(args@)),
{
    let parsed = parse_json(args);
    match &parsed {
        Some(v) => plan_tool_with(name, args, Some(v)),
        None => plan_tool_with(name, args, None),
    }
}

/// The reply of the `help` tool: a header, then `  ,name: description` for each tool.
pub open spec fn tool_help_text(tools: Seq<DescView>) -> Seq<char> {
    "Available commands:\n"@ + join(tools.map_values(|d: DescView| "  ,"@ + d.0 + ": "@ + d.1), "\n"@)
}

/// The reply of the `help` tool for the tools of a registry.
pub fn tool_help_reply(registry: &ToolRegistry) -> (r: String)
    ensures
        r@ == tool_help_text(registry@),
{
    let list = registry.list();
    let ghost l = registry@;
    let mut rows: Vec<String> = Vec::new();
    let mut i: usize = 0;
    while i < list.len()
        invariant
            i <= list.len(),
            ref_views(list@) == l,
            texts(rows@) == l.take(i as int).map_values(|d: DescView| "  ,"@ + d.0 + ": "@ + d.1),
        decreases list.len() - i,
    {
        let d = list[i];
        assert(l[i as int] == (d.name@, d.description@, d.source@));
        let mut v: Vec<char> = Vec::new();
        append_str(&mut v, "  ,");
        append_str(&mut v, d.name.as_str());
        append_str(&mut v, ": ");
        append_str(&mut v, d.description.as_str());
        let row = string_of(&v);
        let ghost before = texts(rows@);
        rows.push(row);
        assert(texts(rows@) =~= before.push(row@));
        assert(l.take(i + 1).map_values(|d: DescView| "  ,"@ + d.0 + ": "@ + d.1) =~= l.take(i as int).map_values(
            |d: DescView| "  ,"@ + d.0 + ": "@ + d.1,
        ).push(row@));
        i += 1;
    }
    assert(l.take(list.len() as int) =~= l);
    let body = join_strings(&rows, "\n");
    let mut out: Vec<char> = Vec::new();
    append_str(&mut out, "Available commands:\n");
    append_str(&mut out, body.as_str());
    string_of(&out)
}

/// The reply of the `tools` tool: the compact rows of the tools, one per line.
pub open spec fn tool_list_text(tools: Seq<DescView>) -> Seq<char> {
    if tools.len() == 0 {
        "No tools registered."@
    } else {
        join(compact_rows_of(tools), "\n"@)
    }
}

/// The reply of the `tools` tool for the tools of a registry.
pub fn tool_list_reply(registry: &ToolRegistry) -> (r: String)
    ensures
        r@ == tool_list_text(registry@),
{
    let rows = registry.compact_rows();
    if rows.len() == 0 {
        proof {
            assert(compact_rows_of(registry@).len() == 0);
        }
        string_from("No tools registered.")
    } else {
        join_strings(&rows, "\n")
    }
}

/// The row that lists a skill in the `skills` tool's reply.
pub open spec fn skill_tool_row(s: crate::router::SkillInfo) -> Seq<char> {
    "  "@ + s.name@ + " \u{2014} "@ + s.description@ + " ["@ + s.source@ + "]"@
}

/// The reply of the `skills` tool for the discovered skills.
pub open spec fn skill_list_text(skills: Seq<crate::router::SkillInfo>) -> Seq<char> {
    if skills.len() == 0 {
        "No skills discovered."@
    } else {
        join(skills.map_values(|s: crate::router::SkillInfo| skill_tool_row(s)), "\n"@)
    }
}

/// The reply of the `skills` tool.
pub fn skill_list_reply(skills: &Vec<crate::router::SkillInfo>) -> (r: String)
    ensures
        r@ == skill_list_text(skills@),
{
    if skills.len() == 0 {
        return string_from("No skills discovered.");
    }
    let mut rows: Vec<String> = Vec::new();
    let mut i: usize = 0;
    while i < skills.len()
        invariant
            i <= skills.len(),
            texts(rows@) == skills@.take(i as int).map_values(|s: crate::router::SkillInfo| skill_tool_row(s)),
        decreases skills.len() - i,
    {
        let sk = &skills[i];
        let mut v: Vec<char> = Vec::new();
        append_str(&mut v, "  ");
        append_str(&mut v, sk.name.as_str());
        append_str(&mut v, " \u{2014} ");
        append_str(&mut v, sk.description.as_str());
        append_str(&mut v, " [");
        append_str(&mut v, sk.source.as_str());
        append_str(&mut v, "]");
        let row = string_of(&v);
        let ghost before = texts(rows@);
        rows.push(row);
        assert(texts(rows@) =~= before.push(row@));
        assert(skills@.take(i + 1).map_values(|s: crate::router::SkillInfo| skill_tool_row(s)) =~= skills@.take(
            i as int,
        ).map_values(|s: crate::router::SkillInfo| skill_tool_row(s)).push(row@));
        i += 1;
    }
    assert(skills@.take(skills.len() as int) =~= skills@);
    join_strings(&rows, "\n")
}

/// The reply of the shell tool: the output when the command succeeded in time, else the
/// output wrapped with the failure's context.
pub open spec fn shell_tool_text(command: Seq<char>, result: crate::shell::ShellResult) -> Seq<char> {
    if result.exit_code == 0 && !result.timed_out {
        crate::shell::shell_output_text(result.stdout@, result.stderr@)
    } else {
        crate::shell::failure_context_text(
            command,
            result.exit_code as int,
            crate::shell::shell_output_text(result.stdout@, result.stderr@),
        )
    }
}

/// The reply of the shell tool for a command's result.
pub fn shell_tool_reply(command: &str, result: &crate::shell::ShellResult) -> (r: String)
    ensures
        r@ == shell_tool_text(command@, *result),
{
    if result.exit_code == 0 && !result.timed_out {
        crate::shell::format_shell_output(result)
    } else {
        crate::shell::wrap_failure_context(command, result)
    }
}

/// The reply of a skill tool: the skill's body, or a note that it was not found.
pub fn skill_body_reply(skill_name: &str, body: Option<String>) -> (r: String)
    ensures
        r@ == (match body {
            Some(b) => b@,
            None => "Skill not found: "@ + skill_name@,
        }),
{
    match body {
        Some(b) => b,
        None => {
            let mut v: Vec<char> = Vec::new();
            append_str(&mut v, "Skill not found: ");
            append_str(&mut v, skill_name);
            string_of(&v)
        },
    }
}

} // verus!

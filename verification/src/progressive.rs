//! Progressive tool view: compact tool descriptions first, full schemas for the tools the
//! model asks about with `$hint`s or uses.
use vstd::prelude::*;

use crate::api_types::ToolDefinition;
use crate::command::texts;
use crate::registry::{compact_row, compact_rows_of, definitions_of, ref_views, lemma_lookup_found, lookup, to_tool_definitions, tool_parameters, DescView, ToolRegistry};
use crate::text::{append_str, chars_eq, join, join_strings, str_eq, string_from, string_of, to_chars};
use crate::web::{lowercase, str_to_lowercase};

verus! {

/// Whether `c` may appear in a tool hint: an ASCII letter or digit, `_`, `.` or `-`.
pub open spec fn is_hint_char(c: char) -> bool {
    ('a' <= c <= 'z') || ('A' <= c <= 'Z') || ('0' <= c <= '9') || c == '_' || c == '.' || c
        == '-'
}

/// The end of the run of hint characters that starts at `j`.
pub open spec fn hint_end(s: Seq<char>, j: int) -> int
    decreases s.len() - j,
{
    if 0 <= j < s.len() && is_hint_char(s[j]) {
        hint_end(s, j + 1)
    } else {
        j
    }
}

proof fn lemma_hint_end_bounds(s: Seq<char>, j: int)
    requires
        0 <= j <= s.len(),
    ensures
        j <= hint_end(s, j) <= s.len(),
    decreases s.len() - j,
{
    if j < s.len() && is_hint_char(s[j]) {
        lemma_hint_end_bounds(s, j + 1);
    }
}

/// The hints of `s` from index `i` on: each `$` followed by hint characters names the
/// longest such run; the search goes on after it.
pub open spec fn hints_from(s: Seq<char>, i: int) -> Seq<Seq<char>>
    decreases s.len() - i,
{
    if 0 <= i < s.len() {
        if s[i] == '$' && i + 1 < s.len() && is_hint_char(s[i + 1]) {
            let e = hint_end(s, i + 1);
            if i + 1 < e <= s.len() {
                seq![s.subrange(i + 1, e)] + hints_from(s, e)
            } else {
                Seq::empty()
            }
        } else {
            hints_from(s, i + 1)
        }
    } else {
        Seq::empty()
    }
}

/// The tool names hinted in `s` as `$name`, in order: the captures of the pattern
/// `\$([A-Za-z0-9_.-]+)`.
pub open spec fn dollar_hints(s: Seq<char>) -> Seq<Seq<char>> {
    hints_from(s, 0)
}

/// The captures of `\$([A-Za-z0-9_.-]+)` in `text`, found with the `regex` crate.
#[verifier::external_body]
fn hint_captures(text: &str) -> (r: Vec<String>)
    ensures
        texts(r@) == dollar_hints(text@),
{
    let re = regex::Regex::new(r"\$([A-Za-z0-9_.-]+)").unwrap();
    re.captures_iter(text).map(|c| c[1].to_string()).collect()
}

/// The index of the first tool, from `k` on, whose name equals `h` when both are
/// lower-cased.
pub open spec fn ci_from(tools: Seq<DescView>, h: Seq<char>, k: int) -> Option<int>
    decreases tools.len() - k,
{
    if 0 <= k < tools.len() {
        if lowercase(tools[k].0) == lowercase(h) {
            Some(k)
        } else {
            ci_from(tools, h, k + 1)
        }
    } else {
        None
    }
}

proof fn lemma_ci_from_bounds(tools: Seq<DescView>, h: Seq<char>, k: int)
    requires
        0 <= k,
    ensures
        ci_from(tools, h, k) matches Some(j) ==> k <= j < tools.len(),
    decreases tools.len() - k,
{
    if k < tools.len() && lowercase(tools[k].0) != lowercase(h) {
        lemma_ci_from_bounds(tools, h, k + 1);
    }
}

/// The expanded set and the newly expanded hints after noting `hints` in order.
pub open spec fn hints_effect(tools: Seq<DescView>, exp: Set<Seq<char>>, hints: Seq<Seq<char>>) -> (
    Set<Seq<char>>,
    Seq<Seq<char>>,
)
    decreases hints.len(),
{
    if hints.len() == 0 {
        (exp, Seq::empty())
    } else {
        let (e0, new0) = hints_effect(tools, exp, hints.drop_last());
        let h = hints.last();
        match ci_from(tools, h, 0) {
            Some(k) => if !e0.contains(tools[k].0) {
                (e0.insert(tools[k].0), new0.push(h))
            } else {
                (e0, new0)
            },
            None => (e0, new0),
        }
    }
}

/// The tools of `tools` whose names are in `exp`, in order.
pub open spec fn selected(tools: Seq<DescView>, exp: Set<Seq<char>>) -> Seq<DescView>
    decreases tools.len(),
{
    if tools.len() == 0 {
        Seq::empty()
    } else {
        let r = selected(tools.drop_last(), exp);
        if exp.contains(tools.last().0) {
            r.push(tools.last())
        } else {
            r
        }
    }
}

/// The lines of the compact tool block.
pub open spec fn compact_lines(tools: Seq<DescView>) -> Seq<Seq<char>> {
    seq!["<tool_view>"@] + tools.map_values(|d: DescView| "  - "@ + compact_row(d)) + seq![
        "</tool_view>"@,
    ]
}

/// The text given for `name` in `params`: that of the first pair with that name, else
/// empty.
pub open spec fn text_for(params: Seq<(Seq<char>, Seq<char>)>, name: Seq<char>) -> Seq<char>
    decreases params.len(),
{
    if params.len() == 0 {
        Seq::empty()
    } else if params[0].0 == name {
        params[0].1
    } else {
        text_for(params.drop_first(), name)
    }
}

/// The models of name and text pairs.
pub open spec fn pair_views(v: Seq<(String, String)>) -> Seq<(Seq<char>, Seq<char>)> {
    v.map_values(|p: (String, String)| (p.0@, p.1@))
}

/// The lines that detail `tools`, each with its description and its parameter schema's
/// text from `params`.
pub open spec fn detail_lines(tools: Seq<DescView>, params: Seq<(Seq<char>, Seq<char>)>) -> Seq<
    Seq<char>,
>
    decreases tools.len(),
{
    if tools.len() == 0 {
        Seq::empty()
    } else {
        let d = tools.last();
        detail_lines(tools.drop_last(), params) + seq![
            "  <tool name=\""@ + d.0 + "\">"@,
            "    description: "@ + d.1,
            "    parameters: "@ + text_for(params, d.0),
            "  </tool>"@,
        ]
    }
}

/// The text given for `name` in `params` (see `text_for`).
fn text_for_exec(params: &Vec<(String, String)>, name: &str) -> (r: String)
    ensures
        r@ == text_for(pair_views(params@), name@),
{
    let ghost ps = pair_views(params@);
    let mut i: usize = 0;
    assert(ps.skip(0) =~= ps);
    while i < params.len()
        invariant
            i <= params.len(),
            ps == pair_views(params@),
            text_for(ps, name@) == text_for(ps.skip(i as int), name@),
        decreases params.len() - i,
    {
        assert(ps.skip(i as int)[0] == (params@[i as int].0@, params@[i as int].1@));
        if str_eq(params[i].0.as_str(), name) {
            return params[i].1.clone();
        }
        assert(ps.skip(i as int).drop_first() =~= ps.skip(i + 1));
        i += 1;
    }
    String::new()
}

/// Progressive tool view that starts compact and expands on demand.
pub struct ProgressiveToolView {
    registry: ToolRegistry,
    expanded: Vec<String>,
}

impl ProgressiveToolView {
    #[verifier::type_invariant]
    spec fn well_formed(self) -> bool {
        &&& texts(self.expanded@).no_duplicates()
        &&& forall|i: int|
            0 <= i < self.expanded@.len() ==> lookup(self.registry@, #[trigger] texts(
                self.expanded@,
            )[i]) is Some
    }

    /// The registered tools.
    pub closed spec fn tools(&self) -> Seq<DescView> {
        self.registry@
    }

    /// The names of the expanded tools.
    pub closed spec fn expanded_set(&self) -> Set<Seq<char>> {
        texts(self.expanded@).to_set()
    }

    /// Create a new progressive view over the given registry.
    pub fn new(registry: ToolRegistry) -> (r: Self)
        ensures
            r.tools() == registry@,
            r.expanded_set() == Set::<Seq<char>>::empty(),
    {
        let r = ProgressiveToolView { registry, expanded: Vec::new() };
        assert(texts(r.expanded@) =~= Seq::<Seq<char>>::empty());
        assert(r.expanded_set() =~= Set::<Seq<char>>::empty());
        r
    }

    /// Whether `name` is expanded.
    fn is_expanded(&self, name: &Vec<char>) -> (r: bool)
        ensures
            r == self.expanded_set().contains(name@),
    {
        let mut i: usize = 0;
        while i < self.expanded.len()
            invariant
                i <= self.expanded.len(),
                forall|j: int| 0 <= j < i ==> texts(self.expanded@)[j] != name@,
            decreases self.expanded.len() - i,
        {
            let e = to_chars(self.expanded[i].as_str());
            assert(texts(self.expanded@)[i as int] == self.expanded@[i as int]@);
            if chars_eq(&e, name) {
                assert(texts(self.expanded@).contains(name@));
                return true;
            }
            i += 1;
        }
        false
    }

    /// Adds a registered name that is not yet expanded.
    fn add_expanded(&mut self, name: String)
        requires
            lookup(old(self).tools(), name@) is Some,
            !old(self).expanded_set().contains(name@),
        ensures
            final(self).tools() == old(self).tools(),
            final(self).expanded_set() == old(self).expanded_set().insert(name@),
    {
        proof {
            use_type_invariant(&*self);
        }
        let ghost before = texts(self.expanded@);
        let ghost nv = name@;
        let mut exp = Vec::new();
        std::mem::swap(&mut exp, &mut self.expanded);
        exp.push(name);
        assert(texts(exp@) =~= before.push(nv));
        proof {
            before.lemma_push_to_set_commute(nv);
            assert(!before.contains(nv));
            assert forall|i: int, j: int|
                0 <= i < texts(exp@).len() && 0 <= j < texts(exp@).len() && i != j implies texts(
                exp@,
            )[i] != texts(exp@)[j] by {
                if i < before.len() && j < before.len() {
                } else if i == before.len() {
                    assert(texts(exp@)[j] == before[j]);
                } else {
                    assert(texts(exp@)[i] == before[i]);
                }
            }
            assert forall|i: int| 0 <= i < exp@.len() implies lookup(
                self.registry@,
                #[trigger] texts(exp@)[i],
            ) is Some by {
                if i < before.len() {
                    assert(texts(exp@)[i] == before[i]);
                }
            }
        }
        self.expanded = exp;
    }

    /// Try to expand a tool by hint name, ignoring case. Returns whether a matching tool
    /// was found and newly expanded.
    pub fn note_hint(&mut self, hint: &str) -> (r: bool)
        ensures
            final(self).tools() == old(self).tools(),
            match ci_from(old(self).tools(), hint@, 0) {
                Some(k) => r == !old(self).expanded_set().contains(old(self).tools()[k].0)
                    && final(self).expanded_set() == old(self).expanded_set().insert(
                    old(self).tools()[k].0,
                ),
                None => !r && final(self).expanded_set() == old(self).expanded_set(),
            },
    {
        let ghost tools = self.tools();
        let ghost exp0 = self.expanded_set();
        proof {
            lemma_ci_from_bounds(tools, hint@, 0);
        }
        let lowered = str_to_lowercase(hint);
        let normalized = to_chars(lowered.as_str());
        let list = self.registry.list();
        let mut i: usize = 0;
        assert(ci_from(tools, hint@, 0) == ci_from(tools, hint@, i as int));
        while i < list.len()
            invariant
                i <= list.len(),
                ref_views(list@) == tools,
                normalized@ == lowercase(hint@),
                ci_from(tools, hint@, 0) == ci_from(tools, hint@, i as int),
                self.tools() == tools,
                self.expanded_set() == exp0,
                tools == old(self).tools(),
                exp0 == old(self).expanded_set(),
            decreases list.len() - i,
        {
            let d = list[i];
            assert(d@ == tools[i as int]);
            let ln = str_to_lowercase(d.name.as_str());
            let lc = to_chars(ln.as_str());
            if chars_eq(&lc, &normalized) {
                let name = to_chars(d.name.as_str());
                if self.is_expanded(&name) {
                    assert(self.expanded_set().insert(tools[i as int].0) =~= self.expanded_set());
                    return false;
                } else {
                    proof {
                        lemma_lookup_found(tools, tools[i as int].0);
                    }
                    self.add_expanded(d.name.clone());
                    return true;
                }
            }
            i += 1;
        }
        false
    }

    /// Detect `$hint` patterns in text and expand matching tools. Returns the hints that
    /// newly expanded a tool.
    pub fn activate_hints(&mut self, text: &str) -> (r: Vec<String>)
        ensures
            final(self).tools() == old(self).tools(),
            (final(self).expanded_set(), texts(r@)) == hints_effect(
                old(self).tools(),
                old(self).expanded_set(),
                dollar_hints(text@),
            ),
    {
        let hints = hint_captures(text);
        let ghost hs = texts(hints@);
        let ghost tools = self.tools();
        let ghost exp0 = self.expanded_set();
        let mut newly: Vec<String> = Vec::new();
        let mut i: usize = 0;
        assert(hs.take(0) =~= Seq::<Seq<char>>::empty());
        assert(texts(newly@) =~= Seq::<Seq<char>>::empty());
        while i < hints.len()
            invariant
                i <= hints.len(),
                hs == texts(hints@),
                hs == dollar_hints(text@),
                self.tools() == tools,
                (self.expanded_set(), texts(newly@)) == hints_effect(tools, exp0, hs.take(i as int)),
            decreases hints.len() - i,
        {
            assert(hs.take(i + 1).drop_last() =~= hs.take(i as int));
            assert(hs.take(i + 1).last() == hints@[i as int]@);
            if self.note_hint(hints[i].as_str()) {
                let ghost before = texts(newly@);
                newly.push(hints[i].clone());
                assert(texts(newly@) =~= before.push(hints@[i as int]@));
            }
            i += 1;
        }
        assert(hs.take(hints.len() as int) =~= hs);
        newly
    }

    /// Mark a tool as selected, expanding it when it is registered.
    pub fn note_selected(&mut self, name: &str)
        ensures
            final(self).tools() == old(self).tools(),
            final(self).expanded_set() == if lookup(old(self).tools(), name@) is Some {
                old(self).expanded_set().insert(name@)
            } else {
                old(self).expanded_set()
            },
    {
        if self.registry.has(name) {
            let n = to_chars(name);
            if self.is_expanded(&n) {
                assert(self.expanded_set().insert(name@) =~= self.expanded_set());
            } else {
                self.add_expanded(string_from(name));
            }
        }
    }

    /// All registered tool names, in order.
    pub fn all_tools(&self) -> (r: Vec<String>)
        ensures
            texts(r@) == self.tools().map_values(|d: DescView| d.0),
    {
        let list = self.registry.list();
        let ghost tools = self.tools();
        let mut out: Vec<String> = Vec::new();
        let mut i: usize = 0;
        while i < list.len()
            invariant
                i <= list.len(),
                ref_views(list@) == tools,
                texts(out@) == tools.take(i as int).map_values(|d: DescView| d.0),
            decreases list.len() - i,
        {
            let d = list[i];
            assert(d@ == tools[i as int]);
            let nm = d.name.clone();
            let ghost before = texts(out@);
            out.push(nm);
            assert(texts(out@) =~= before.push(tools[i as int].0));
            assert(tools.take(i + 1).map_values(|d: DescView| d.0) =~= tools.take(i as int).map_values(
                |d: DescView| d.0,
            ).push(tools[i as int].0));
            i += 1;
        }
        assert(tools.take(list.len() as int) =~= tools);
        out
    }

    /// The compact tool descriptions block for the system prompt.
    pub fn compact_block(&self) -> (r: String)
        ensures
            r@ == join(compact_lines(self.tools()), "\n"@),
    {
        let rows = self.registry.compact_rows();
        let ghost tools = self.tools();
        assert(texts(rows@).len() == rows@.len());
        assert(compact_rows_of(tools).len() == tools.len());
        let mut lines: Vec<String> = Vec::new();
        lines.push(string_from("<tool_view>"));
        let mut i: usize = 0;
        assert(texts(lines@) =~= seq!["<tool_view>"@]);
        while i < rows.len()
            invariant
                i <= rows.len(),
                texts(rows@) == compact_rows_of(tools),
                rows@.len() == tools.len(),
                texts(lines@) == seq!["<tool_view>"@] + tools.take(i as int).map_values(
                    |d: DescView| "  - "@ + compact_row(d),
                ),
            decreases rows.len() - i,
        {
            let mut v: Vec<char> = Vec::new();
            append_str(&mut v, "  - ");
            append_str(&mut v, rows[i].as_str());
            assert(texts(rows@)[i as int] == rows@[i as int]@);
            assert(compact_rows_of(tools)[i as int] == compact_row(tools[i as int]));
            assert(rows@[i as int]@ == compact_row(tools[i as int]));
            let ghost before = texts(lines@);
            let line = string_of(&v);
            lines.push(line);
            assert(texts(lines@) =~= before.push(line@));
            assert(tools.take(i + 1).map_values(|d: DescView| "  - "@ + compact_row(d)) =~= tools.take(
                i as int,
            ).map_values(|d: DescView| "  - "@ + compact_row(d)).push(line@));
            i += 1;
        }
        assert(tools.take(rows.len() as int) =~= tools);
        let ghost mid = texts(lines@);
        lines.push(string_from("</tool_view>"));
        assert(texts(lines@) =~= compact_lines(tools));
        join_strings(&lines, "\n")
    }

    /// Tool definitions for the API call: all tools while none is expanded, otherwise
    /// only the expanded ones, in name order.
    pub fn tool_definitions(&self) -> (r: Vec<ToolDefinition>)
        ensures
            self.expanded_set().len() == 0 ==> definitions_of(r@, self.tools()),
            self.expanded_set().len() > 0 ==> definitions_of(
                r@,
                selected(self.tools(), self.expanded_set()),
            ),
    {
        proof {
            use_type_invariant(self);
            texts(self.expanded@).unique_seq_to_set();
        }
        if self.expanded.len() == 0 {
            return to_tool_definitions(&self.registry);
        }
        let list = self.registry.list();
        let ghost tools = self.tools();
        let ghost exp = self.expanded_set();
        let mut defs: Vec<ToolDefinition> = Vec::new();
        let mut i: usize = 0;
        while i < list.len()
            invariant
                i <= list.len(),
                ref_views(list@) == tools,
                exp == self.expanded_set(),
                definitions_of(defs@, selected(tools.take(i as int), exp)),
            decreases list.len() - i,
        {
            let d = list[i];
            assert(d@ == tools[i as int]);
            assert(tools.take(i + 1).drop_last() =~= tools.take(i as int));
            let name = to_chars(d.name.as_str());
            if self.is_expanded(&name) {
                let parameters = tool_parameters(d.name.as_str());
                defs.push(
                    ToolDefinition {
                        tool_type: string_from("function"),
                        function: crate::api_types::FunctionDefinition {
                            name: d.name.clone(),
                            description: d.description.clone(),
                            parameters,
                        },
                    },
                );
            }
            i += 1;
        }
        assert(tools.take(list.len() as int) =~= tools);
        defs
    }

    /// The full details of the expanded tools, in name order, with the text of each one's
    /// parameter schema taken from `params`; empty while none is expanded.
    pub fn expanded_block(&self, params: &Vec<(String, String)>) -> (r: String)
        ensures
            self.expanded_set().len() == 0 ==> r@.len() == 0,
            self.expanded_set().len() > 0 ==> r@ == join(
                seq!["<tool_details>"@] + detail_lines(
                    selected(self.tools(), self.expanded_set()),
                    pair_views(params@),
                ) + seq!["</tool_details>"@],
                "\n"@,
            ),
    {
        proof {
            use_type_invariant(self);
            texts(self.expanded@).unique_seq_to_set();
        }
        if self.expanded.len() == 0 {
            return String::new();
        }
        let list = self.registry.list();
        let ghost tools = self.tools();
        let ghost exp = self.expanded_set();
        let ghost ps = pair_views(params@);
        let mut lines: Vec<String> = Vec::new();
        lines.push(string_from("<tool_details>"));
        assert(texts(lines@) =~= seq!["<tool_details>"@] + detail_lines(selected(tools.take(0), exp), ps));
        let mut i: usize = 0;
        while i < list.len()
            invariant
                i <= list.len(),
                ref_views(list@) == tools,
                exp == self.expanded_set(),
                ps == pair_views(params@),
                texts(lines@) == seq!["<tool_details>"@] + detail_lines(selected(tools.take(i as int), exp), ps),
            decreases list.len() - i,
        {
            let d = list[i];
            assert(d@ == tools[i as int]);
            assert(tools.take(i + 1).drop_last() =~= tools.take(i as int));
            let name = to_chars(d.name.as_str());
            let ghost s = selected(tools.take(i as int), exp);
            assert(tools.take(i + 1).last() == tools[i as int]);
            if self.is_expanded(&name) {
                assert(selected(tools.take(i + 1), exp) == s.push(tools[i as int]));
                assert(s.push(tools[i as int]).drop_last() =~= s);
                assert(s.push(tools[i as int]).last() == tools[i as int]);
                let ghost before = texts(lines@);
                let mut a: Vec<char> = Vec::new();
                append_str(&mut a, "  <tool name=\"");
                append_str(&mut a, d.name.as_str());
                append_str(&mut a, "\">");
                let mut b: Vec<char> = Vec::new();
                append_str(&mut b, "    description: ");
                append_str(&mut b, d.description.as_str());
                let mut c: Vec<char> = Vec::new();
                append_str(&mut c, "    parameters: ");
                let pt = text_for_exec(params, d.name.as_str());
                append_str(&mut c, pt.as_str());
                lines.push(string_of(&a));
                lines.push(string_of(&b));
                lines.push(string_of(&c));
                lines.push(string_from("  </tool>"));
                assert(texts(lines@) =~= before + seq![a@, b@, c@, "  </tool>"@]);
                assert(detail_lines(s.push(tools[i as int]), ps) == detail_lines(s, ps) + seq![a@, b@, c@, "  </tool>"@]);
                assert(texts(lines@) =~= seq!["<tool_details>"@] + detail_lines(selected(tools.take(i + 1), exp), ps));
            } else {
                assert(selected(tools.take(i + 1), exp) == s);
            }
            i += 1;
        }
        assert(tools.take(list.len() as int) =~= tools);
        let ghost body = texts(lines@);
        lines.push(string_from("</tool_details>"));
        assert(texts(lines@) =~= seq!["<tool_details>"@] + detail_lines(selected(tools, exp), ps) + seq!["</tool_details>"@]);
        join_strings(&lines, "\n")
    }

    /// Number of currently expanded tools.
    pub fn expanded_count(&self) -> (r: usize)
        ensures
            r == self.expanded_set().len(),
    {
        proof {
            use_type_invariant(self);
            texts(self.expanded@).unique_seq_to_set();
        }
        self.expanded.len()
    }

    /// Clear the expanded state.
    pub fn reset(&mut self)
        ensures
            final(self).tools() == old(self).tools(),
            final(self).expanded_set() == Set::<Seq<char>>::empty(),
    {
        let mut empty: Vec<String> = Vec::new();
        std::mem::swap(&mut empty, &mut self.expanded);
        assert(texts(self.expanded@) =~= Seq::<Seq<char>>::empty());
        assert(self.expanded_set() =~= Set::<Seq<char>>::empty());
    }
}


/// Noting the same hint again expands nothing more: hints are idempotent.
pub proof fn law_repeated_hint_expands_once(tools: Seq<DescView>, exp: Set<Seq<char>>, h: Seq<char>)
    ensures
        hints_effect(tools, hints_effect(tools, exp, seq![h]).0, seq![h]) == (
            hints_effect(tools, exp, seq![h]).0,
            Seq::<Seq<char>>::empty(),
        ),
{
    reveal_with_fuel(hints_effect, 2);
    assert(seq![h].drop_last() =~= Seq::<Seq<char>>::empty());
    lemma_ci_from_bounds(tools, h, 0);
}

} // verus!

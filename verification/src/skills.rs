//! Skills: `SKILL.md` frontmatter, skill metadata, and skills offered as tools.
use vstd::prelude::*;

use crate::config::{map_get, VarMap};
use crate::registry::{
    lemma_text_lt_irreflexive, lemma_text_lt_total, lemma_text_lt_transitive, lookup, text_lt,
    text_lt_exec, DescView, ToolRegistry,
};
use crate::text::{
    append_str, char_vecs, chars_eq, slice_chars, split_chars, split_on, string_from, string_of,
    to_chars, trim, trim_chars,
};
use crate::web::{lowercase, str_to_lowercase};

verus! {

/// The index of the first `:` in `s`.
pub open spec fn first_colon(s: Seq<char>) -> Option<int> {
    if exists|i: int| 0 <= i < s.len() && s[i] == ':' {
        Some(choose|i: int| 0 <= i < s.len() && s[i] == ':' && forall|j: int| 0 <= j < i ==> s[j] != ':')
    } else {
        None
    }
}

/// The frontmatter entries of the given lines, up to a `---` line: each `key: value` line
/// sets the lower-cased, trimmed key (when not empty) to the trimmed value.
pub open spec fn frontmatter_from(lines: Seq<Seq<char>>, m: Map<Seq<char>, Seq<char>>) -> Map<
    Seq<char>,
    Seq<char>,
>
    decreases lines.len(),
{
    if lines.len() == 0 {
        m
    } else {
        let t = trim(lines[0]);
        if t == "---"@ {
            m
        } else {
            let m2 = match first_colon(t) {
                Some(i) => {
                    let key = lowercase(trim(t.subrange(0, i)));
                    if key.len() > 0 {
                        m.insert(key, trim(t.subrange(i + 1, t.len() as int)))
                    } else {
                        m
                    }
                },
                None => m,
            };
            frontmatter_from(lines.drop_first(), m2)
        }
    }
}

/// The frontmatter of a `SKILL.md` file: the `key: value` lines between a first line `---`
/// and the next `---`.
pub open spec fn frontmatter(content: Seq<char>) -> Map<Seq<char>, Seq<char>> {
    let lines = split_on(content, '\n');
    if trim(lines[0]) != "---"@ {
        Map::empty()
    } else {
        frontmatter_from(lines.drop_first(), Map::empty())
    }
}

/// Parse YAML-style frontmatter delimited by `---`: simple `key: value` pairs only.
pub fn parse_frontmatter(content: &str) -> (r: VarMap)
    ensures
        r@ == frontmatter(content@),
{
    let chars = to_chars(content);
    let lines = split_chars(&chars, '\n');
    let ghost ls = char_vecs(lines@);
    let mut map = VarMap::new();
    assert(ls[0] == lines@[0]@);
    let first = trim_chars(&lines[0]);
    let dashes = to_chars("---");
    if !chars_eq(&first, &dashes) {
        return map;
    }
    let mut i: usize = 1;
    assert(ls.drop_first() =~= ls.subrange(1, ls.len() as int));
    while i < lines.len()
        invariant
            1 <= i <= lines.len(),
            ls == char_vecs(lines@),
            dashes@ == "---"@,
            frontmatter(content@) == frontmatter_from(ls.subrange(i as int, ls.len() as int), map@),
        decreases lines.len() - i,
    {
        let ghost sub = ls.subrange(i as int, ls.len() as int);
        assert(sub[0] == lines@[i as int]@);
        assert(sub.drop_first() =~= ls.subrange(i + 1, ls.len() as int));
        let t = trim_chars(&lines[i]);
        if chars_eq(&t, &dashes) {
            return map;
        }
        let mut c: usize = 0;
        while c < t.len() && t[c] != ':'
            invariant
                c <= t.len(),
                forall|j: int| 0 <= j < c ==> t@[j] != ':',
            decreases t.len() - c,
        {
            c += 1;
        }
        if c < t.len() {
            proof {
                let w = choose|x: int|
                    0 <= x < t@.len() && t@[x] == ':' && forall|j: int| 0 <= j < x ==> t@[j] != ':';
                assert(0 <= c < t@.len() && t@[c as int] == ':' && forall|j: int|
                    0 <= j < c ==> t@[j] != ':');
                assert(w == c) by {
                    if w < c {
                        assert(t@[w] != ':');
                    }
                    if w > c {
                        assert(t@[c as int] != ':');
                    }
                }
            }
            let k0 = slice_chars(&t, 0, c);
            let k1 = trim_chars(&k0);
            let k1s = string_of(&k1);
            let key = str_to_lowercase(k1s.as_str());
            if !key.as_str().is_empty() {
                let v0 = slice_chars(&t, c + 1, t.len());
                let v1 = trim_chars(&v0);
                map.insert(key, string_of(&v1));
            }
        }
        i += 1;
    }
    assert(ls.subrange(i as int, ls.len() as int) =~= Seq::<Seq<char>>::empty());
    map
}

/// A discovered skill.
#[derive(Debug, Clone)]
pub struct SkillMetadata {
    pub name: String,
    pub description: String,
    pub location: String,
    pub source: String,
}

/// The name a skill goes by: its frontmatter `name`, else its directory's name, else
/// `unknown`.
pub open spec fn skill_name(fm: Map<Seq<char>, Seq<char>>, dir_name: Option<Seq<char>>) -> Seq<char> {
    match map_get(fm, "name"@) {
        Some(n) => n,
        None => match dir_name {
            Some(d) => d,
            None => "unknown"@,
        },
    }
}

/// The skill that a `SKILL.md` file describes, if its name is not blank.
pub open spec fn skill_of(content: Seq<char>, dir_name: Option<Seq<char>>) -> Option<
    (Seq<char>, Seq<char>),
> {
    let fm = frontmatter(content);
    let name = skill_name(fm, dir_name);
    if trim(name).len() == 0 {
        None
    } else {
        Some(
            (
                name,
                match map_get(fm, "description"@) {
                    Some(d) => d,
                    None => "No description provided."@,
                },
            ),
        )
    }
}

/// The skill that a `SKILL.md` file with `content`, in a directory named `dir_name`,
/// describes.
pub fn read_skill(content: &str, dir_name: Option<&str>, location: String, source: &str) -> (r:
    Option<SkillMetadata>)
    ensures
        match r {
            Some(s) => skill_of(
                content@,
                match dir_name {
                    Some(d) => Some(d@),
                    None => None,
                },
            ) == Some((s.name@, s.description@)) && s.location == location && s.source@ == source@,
            None => skill_of(
                content@,
                match dir_name {
                    Some(d) => Some(d@),
                    None => None,
                },
            ) is None,
        },
{
    let fm = parse_frontmatter(content);
    let name = match fm.get("name") {
        Some(n) => n.clone(),
        None => match dir_name {
            Some(d) => string_from(d),
            None => string_from("unknown"),
        },
    };
    let nc = to_chars(name.as_str());
    let nt = trim_chars(&nc);
    if nt.len() == 0 {
        return None;
    }
    let description = match fm.get("description") {
        Some(d) => d.clone(),
        None => string_from("No description provided."),
    };
    Some(SkillMetadata { name, description, location, source: string_from(source) })
}

/// The first skill whose name equals `name` when both are lower-cased.
pub open spec fn find_skill_index(skills: Seq<SkillMetadata>, name: Seq<char>, k: int) -> Option<int>
    decreases skills.len() - k,
{
    if 0 <= k < skills.len() {
        if lowercase(skills[k].name@) == lowercase(name) {
            Some(k)
        } else {
            find_skill_index(skills, name, k + 1)
        }
    } else {
        None
    }
}

/// The skill named `name`, ignoring case.
pub fn find_skill<'a>(skills: &'a Vec<SkillMetadata>, name: &str) -> (r: Option<&'a SkillMetadata>)
    ensures
        match find_skill_index(skills@, name@, 0) {
            Some(k) => 0 <= k < skills@.len() && r == Some(&skills@[k]),
            None => r is None,
        },
{
    let lowered = str_to_lowercase(name);
    let target = to_chars(lowered.as_str());
    let mut i: usize = 0;
    while i < skills.len()
        invariant
            i <= skills.len(),
            target@ == lowercase(name@),
            find_skill_index(skills@, name@, 0) == find_skill_index(skills@, name@, i as int),
        decreases skills.len() - i,
    {
        let ln = str_to_lowercase(skills[i].name.as_str());
        let lc = to_chars(ln.as_str());
        if chars_eq(&lc, &target) {
            return Some(&skills[i]);
        }
        i += 1;
    }
    None
}

/// The tool name under which a skill is offered.
pub open spec fn skill_tool_name(name: Seq<char>) -> Seq<char> {
    "skill."@ + name
}

/// The registry entry that registering `skills` in order leaves for the tool name `n`.
pub open spec fn skill_entry(skills: Seq<SkillMetadata>, n: Seq<char>) -> Option<DescView>
    decreases skills.len(),
{
    if skills.len() == 0 {
        None
    } else if skill_tool_name(skills.last().name@) == n {
        Some((n, skills.last().description@, skills.last().source@))
    } else {
        skill_entry(skills.drop_last(), n)
    }
}

/// Register discovered skills as tools named `skill.<name>`.
pub fn register_skills(registry: &mut ToolRegistry, skills: &Vec<SkillMetadata>)
    ensures
        forall|n: Seq<char>| #[trigger]
            lookup(final(registry)@, n) == match skill_entry(skills@, n) {
                Some(e) => Some(e),
                None => lookup(old(registry)@, n),
            },
{
    let mut i: usize = 0;
    assert(skills@.take(0) =~= Seq::<SkillMetadata>::empty());
    while i < skills.len()
        invariant
            i <= skills.len(),
            forall|n: Seq<char>| #[trigger]
                lookup(registry@, n) == match skill_entry(skills@.take(i as int), n) {
                    Some(e) => Some(e),
                    None => lookup(old(registry)@, n),
                },
        decreases skills.len() - i,
    {
        assert(skills@.take(i + 1).drop_last() =~= skills@.take(i as int));
        assert(skills@.take(i + 1).last() == skills@[i as int]);
        let mut v: Vec<char> = Vec::new();
        append_str(&mut v, "skill.");
        append_str(&mut v, skills[i].name.as_str());
        let tool_name = string_of(&v);
        registry.register(tool_name.as_str(), skills[i].description.as_str(), skills[i].source.as_str());
        i += 1;
    }
    assert(skills@.take(skills.len() as int) =~= skills@);
}

/// The key that orders skills and tells them apart: the lower-cased name.
pub open spec fn skill_key(s: SkillMetadata) -> Seq<char> {
    lowercase(s.name@)
}

/// Whether the skill at index `k` is the first of `found` with its key.
#[verifier::opaque]
pub open spec fn first_with_key(found: Seq<SkillMetadata>, k: int) -> bool {
    forall|j: int| 0 <= j < k ==> skill_key(#[trigger] found[j]) != skill_key(found[k])
}

/// Whether `out` lists skills by strictly increasing key.
#[verifier::opaque]
pub open spec fn keys_sorted(out: Seq<SkillMetadata>) -> bool {
    forall|i: int, j: int|
        0 <= i < j < out.len() ==> text_lt(skill_key(#[trigger] out[i]), skill_key(#[trigger] out[j]))
}

/// Whether each skill of `out` is, among the first `k` of `found`, the first with its key.
#[verifier::opaque]
pub open spec fn all_first(out: Seq<SkillMetadata>, found: Seq<SkillMetadata>, k: int) -> bool {
    forall|i: int|
        #![trigger out[i]]
        0 <= i < out.len() ==> exists|m: int|
            #![trigger found[m]]
            0 <= m < k && out[i] == found[m] && first_with_key(found, m)
}

/// Whether the key of each of the first `k` skills of `found` is the key of a skill of `out`.
#[verifier::opaque]
pub open spec fn all_kept(out: Seq<SkillMetadata>, found: Seq<SkillMetadata>, k: int) -> bool {
    forall|m: int|
        #![trigger found[m]]
        0 <= m < k ==> exists|i: int|
            #![trigger out[i]]
            0 <= i < out.len() && skill_key(out[i]) == skill_key(found[m])
}

/// A skill whose key is already kept changes nothing but the number of skills seen.
proof fn lemma_merge_duplicate(out: Seq<SkillMetadata>, orig: Seq<SkillMetadata>, k: int, p: int)
    requires
        0 <= k < orig.len(),
        0 <= p < out.len(),
        skill_key(out[p]) == skill_key(orig[k]),
        all_first(out, orig, k),
        all_kept(out, orig, k),
    ensures
        all_first(out, orig, k + 1),
        all_kept(out, orig, k + 1),
{
    assert(all_kept(out, orig, k + 1)) by {
        reveal(all_kept);
        assert forall|m: int| #![trigger orig[m]] 0 <= m < k + 1 implies exists|i: int|
            #![trigger out[i]] 0 <= i < out.len() && skill_key(out[i]) == skill_key(orig[m]) by {
            if m == k {
                assert(skill_key(out[p]) == skill_key(orig[m]));
            }
        }
    }
    assert(all_first(out, orig, k + 1)) by {
        reveal(all_first);
        assert forall|i: int| #![trigger out[i]] 0 <= i < out.len() implies exists|m: int|
            #![trigger orig[m]] 0 <= m < k + 1 && out[i] == orig[m] && first_with_key(orig, m) by {
            let m = choose|m: int| #![trigger orig[m]] 0 <= m < k && out[i] == orig[m] && first_with_key(orig, m);
        }
    }
}

/// No kept skill has a key that lies strictly between the keys around position `p`.
proof fn lemma_merge_key_absent(out: Seq<SkillMetadata>, ks: Seq<char>, p: int)
    requires
        0 <= p <= out.len(),
        keys_sorted(out),
        forall|q: int| 0 <= q < p ==> text_lt(skill_key(#[trigger] out[q]), ks),
        p < out.len() ==> text_lt(ks, skill_key(out[p])),
    ensures
        forall|i: int| 0 <= i < out.len() ==> skill_key(#[trigger] out[i]) != ks,
{
    reveal(keys_sorted);
    assert forall|i: int| 0 <= i < out.len() implies skill_key(#[trigger] out[i]) != ks by {
        lemma_text_lt_irreflexive(ks);
        if i > p {
            assert(text_lt(skill_key(out[p]), skill_key(out[i])));
            lemma_text_lt_transitive(ks, skill_key(out[p]), skill_key(out[i]));
        }
    }
}

/// Inserting a key where it belongs keeps the keys sorted.
proof fn lemma_merge_sorted(out: Seq<SkillMetadata>, s: SkillMetadata, p: int)
    requires
        0 <= p <= out.len(),
        keys_sorted(out),
        forall|q: int| 0 <= q < p ==> text_lt(skill_key(#[trigger] out[q]), skill_key(s)),
        p < out.len() ==> text_lt(skill_key(s), skill_key(out[p])),
    ensures
        keys_sorted(out.insert(p, s)),
{
    reveal(keys_sorted);
    let ks = skill_key(s);
    let new_out = out.insert(p, s);
    assert forall|i: int, j: int| 0 <= i < j < new_out.len() implies text_lt(
        skill_key(#[trigger] new_out[i]),
        skill_key(#[trigger] new_out[j]),
    ) by {
        if j < p {
            assert(new_out[i] == out[i] && new_out[j] == out[j]);
        } else if j == p {
            assert(new_out[i] == out[i] && new_out[j] == s);
        } else if i < p {
            assert(new_out[i] == out[i] && new_out[j] == out[j - 1]);
            if j - 1 > p {
                assert(text_lt(skill_key(out[p]), skill_key(out[j - 1])));
                lemma_text_lt_transitive(ks, skill_key(out[p]), skill_key(out[j - 1]));
            }
            lemma_text_lt_transitive(skill_key(out[i]), ks, skill_key(out[j - 1]));
        } else if i == p {
            assert(new_out[i] == s && new_out[j] == out[j - 1]);
            if j - 1 > p {
                assert(text_lt(skill_key(out[p]), skill_key(out[j - 1])));
                lemma_text_lt_transitive(ks, skill_key(out[p]), skill_key(out[j - 1]));
            }
        } else {
            assert(new_out[i] == out[i - 1] && new_out[j] == out[j - 1]);
        }
    }
}

/// A skill with a new key, inserted where its key belongs, keeps the list merged.
proof fn lemma_merge_insert(out: Seq<SkillMetadata>, orig: Seq<SkillMetadata>, k: int, p: int)
    requires
        0 <= k < orig.len(),
        0 <= p <= out.len(),
        keys_sorted(out),
        all_first(out, orig, k),
        all_kept(out, orig, k),
        forall|q: int| 0 <= q < p ==> text_lt(skill_key(#[trigger] out[q]), skill_key(orig[k])),
        p < out.len() ==> text_lt(skill_key(orig[k]), skill_key(out[p])),
    ensures
        keys_sorted(out.insert(p, orig[k])),
        all_first(out.insert(p, orig[k]), orig, k + 1),
        all_kept(out.insert(p, orig[k]), orig, k + 1),
{
    let s = orig[k];
    let ks = skill_key(s);
    let new_out = out.insert(p, s);
    lemma_merge_key_absent(out, ks, p);
    lemma_merge_sorted(out, s, p);
    assert(first_with_key(orig, k)) by {
        reveal(first_with_key);
        reveal(all_kept);
        assert forall|j: int| 0 <= j < k implies skill_key(#[trigger] orig[j]) != ks by {
            let i = choose|i: int| #![trigger out[i]] 0 <= i < out.len() && skill_key(out[i]) == skill_key(orig[j]);
        }
    }
    assert(all_first(new_out, orig, k + 1)) by {
        reveal(all_first);
        assert forall|i: int| #![trigger new_out[i]] 0 <= i < new_out.len() implies exists|m: int|
            #![trigger orig[m]] 0 <= m < k + 1 && new_out[i] == orig[m] && first_with_key(orig, m) by {
            if i < p {
                assert(new_out[i] == out[i]);
                let m = choose|m: int| #![trigger orig[m]] 0 <= m < k && out[i] == orig[m] && first_with_key(orig, m);
            } else if i == p {
                assert(new_out[i] == orig[k]);
            } else {
                assert(new_out[i] == out[i - 1]);
                let m = choose|m: int| #![trigger orig[m]] 0 <= m < k && out[i - 1] == orig[m] && first_with_key(orig, m);
            }
        }
    }
    assert(all_kept(new_out, orig, k + 1)) by {
        reveal(all_kept);
        assert forall|m: int| #![trigger orig[m]] 0 <= m < k + 1 implies exists|i: int|
            #![trigger new_out[i]] 0 <= i < new_out.len() && skill_key(new_out[i]) == skill_key(orig[m]) by {
            if m == k {
                assert(new_out[p] == orig[k]);
            } else {
                let i = choose|i: int| #![trigger out[i]] 0 <= i < out.len() && skill_key(out[i]) == skill_key(orig[m]);
                if i < p {
                    assert(new_out[i] == out[i]);
                } else {
                    assert(new_out[i + 1] == out[i]);
                }
            }
        }
    }
}

/// The skills found in the skill directories, in the order of the directories, made into
/// the list that is offered: one skill per name ignoring case, the first found winning,
/// ordered by that lower-cased name.
pub fn merge_skills(found: Vec<SkillMetadata>) -> (r: Vec<SkillMetadata>)
    ensures
        keys_sorted(r@),
        all_first(r@, found@, found@.len() as int),
        all_kept(r@, found@, found@.len() as int),
{
    let ghost orig = found@;
    let n = found.len();
    let mut rest = found;
    let mut out: Vec<SkillMetadata> = Vec::new();
    let mut keys: Vec<Vec<char>> = Vec::new();
    let mut k: usize = 0;
    proof {
        reveal(keys_sorted);
        reveal(all_first);
        reveal(all_kept);
        assert(orig.skip(0) =~= orig);
    }
    while k < n
        invariant
            n == orig.len(),
            k <= n,
            rest@ == orig.skip(k as int),
            keys@.len() == out@.len(),
            forall|i: int| 0 <= i < keys@.len() ==> (#[trigger] keys@[i])@ == skill_key(out@[i]),
            keys_sorted(out@),
            all_first(out@, orig, k as int),
            all_kept(out@, orig, k as int),
        decreases n - k,
    {
        assert(rest@.len() > 0);
        let s = rest.remove(0);
        assert(s == orig[k as int]);
        assert(rest@ =~= orig.skip(k + 1));
        let ln = str_to_lowercase(s.name.as_str());
        let ks = to_chars(ln.as_str());
        let mut p: usize = 0;
        while p < keys.len() && text_lt_exec(&keys[p], &ks)
            invariant
                p <= keys@.len(),
                forall|q: int| 0 <= q < p ==> text_lt((#[trigger] keys@[q])@, ks@),
            decreases keys@.len() - p,
        {
            p += 1;
        }
        let dup = p < keys.len() && chars_eq(&keys[p], &ks);
        if dup {
            proof {
                lemma_merge_duplicate(out@, orig, k as int, p as int);
            }
        } else {
            proof {
                if p < keys@.len() {
                    lemma_text_lt_total(keys@[p as int]@, ks@);
                }
                assert forall|q: int| 0 <= q < p implies text_lt(skill_key(#[trigger] out@[q]), skill_key(orig[k as int])) by {
                    assert(keys@[q]@ == skill_key(out@[q]));
                }
                lemma_merge_insert(out@, orig, k as int, p as int);
            }
            let ghost old_keys = keys@;
            let ghost old_out = out@;
            out.insert(p, s);
            keys.insert(p, ks);
            proof {
                assert forall|i: int| 0 <= i < keys@.len() implies (#[trigger] keys@[i])@ == skill_key(out@[i]) by {
                    if i < p {
                        assert(keys@[i] == old_keys[i] && out@[i] == old_out[i]);
                    } else if i > p {
                        assert(keys@[i] == old_keys[i - 1] && out@[i] == old_out[i - 1]);
                    }
                }
            }
        }
        k += 1;
    }
    out
}

} // verus!

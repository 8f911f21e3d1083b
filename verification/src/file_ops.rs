//! File tools: keeping paths inside the workspace, and the text work of the file tools.
//! Reading and writing the files themselves is done around this module.
use vstd::prelude::*;

use crate::text::{append_chars, append_str, char_vecs, decimal, decimal_chars, find_seq, join, str_eq, first_match, lemma_first_match_bounds, occurs_at, slice_chars, split_chars, split_on, string_from, string_of, to_chars, trim, trim_chars};

verus! {

/// A component of a Unix path: the root, `.`, `..`, or a name.
pub enum Comp {
    Root,
    Cur,
    Parent,
    Normal(Seq<char>),
}

/// The component a non-empty segment other than `.` stands for.
pub open spec fn seg_comp(seg: Seq<char>) -> Comp {
    if seg == ".."@ {
        Comp::Parent
    } else {
        Comp::Normal(seg)
    }
}

/// The components of the segments: empty segments and `.` are skipped.
pub open spec fn seg_comps(segs: Seq<Seq<char>>) -> Seq<Comp>
    decreases segs.len(),
{
    if segs.len() == 0 {
        Seq::empty()
    } else {
        let rest = seg_comps(segs.drop_last());
        let s = segs.last();
        if s.len() == 0 || s == "."@ {
            rest
        } else {
            rest.push(seg_comp(s))
        }
    }
}

/// The components of a path, as `std::path::Path::components` gives them on Unix: the
/// root for a leading `/`, a `.` only at the start of a relative path, then one
/// component per name or `..`; repeated and trailing slashes are ignored.
pub open spec fn path_components(p: Seq<char>) -> Seq<Comp> {
    let segs = split_on(p, '/');
    if p.len() > 0 && p[0] == '/' {
        seq![Comp::Root] + seg_comps(segs.drop_first())
    } else if segs[0] == "."@ {
        seq![Comp::Cur] + seg_comps(segs.drop_first())
    } else {
        seg_comps(segs)
    }
}

/// The components left after resolving `.` and `..` without looking at the disk: `.` is
/// dropped and `..` drops the component before it, if any.
pub open spec fn normalized(cs: Seq<Comp>) -> Seq<Comp>
    decreases cs.len(),
{
    if cs.len() == 0 {
        Seq::empty()
    } else {
        let r = normalized(cs.drop_last());
        match cs.last() {
            Comp::Parent => if r.len() > 0 {
                r.drop_last()
            } else {
                r
            },
            Comp::Cur => r,
            c => r.push(c),
        }
    }
}

/// The text of a component.
pub open spec fn comp_text(c: Comp) -> Seq<char> {
    match c {
        Comp::Root => "/"@,
        Comp::Cur => "."@,
        Comp::Parent => ".."@,
        Comp::Normal(n) => n,
    }
}

/// The path that components make, as a `PathBuf` collected from them: a name after a
/// component that does not end in `/` is preceded by one.
pub open spec fn rendered(cs: Seq<Comp>) -> Seq<char>
    decreases cs.len(),
{
    if cs.len() == 0 {
        Seq::empty()
    } else {
        let r = rendered(cs.drop_last());
        if r.len() == 0 || r.last() == '/' {
            r + comp_text(cs.last())
        } else {
            r + "/"@ + comp_text(cs.last())
        }
    }
}

/// A path with `.` and `..` resolved lexically.
pub open spec fn normalized_path(p: Seq<char>) -> Seq<char> {
    rendered(normalized(path_components(p)))
}

/// Whether the components of `base` begin the components of `p`, as
/// `std::path::Path::starts_with` decides.
pub open spec fn path_starts_with(p: Seq<char>, base: Seq<char>) -> bool {
    let a = path_components(p);
    let b = path_components(base);
    b.len() <= a.len() && a.subrange(0, b.len() as int) == b
}

/// The path a request names before it is resolved: the trimmed request itself when it is
/// absolute, else the request joined to the workspace; nothing for a blank request.
pub open spec fn candidate_of(workspace: Seq<char>, requested: Seq<char>) -> Option<Seq<char>> {
    let r = trim(requested);
    if r.len() == 0 {
        None
    } else if r[0] == '/' {
        Some(r)
    } else if workspace.len() == 0 || workspace.last() == '/' {
        Some(workspace + r)
    } else {
        Some(workspace + "/"@ + r)
    }
}

/// A path component as the library holds it.
pub enum PathComp {
    Root,
    Cur,
    Parent,
    Normal(Vec<char>),
}

/// The model of a component.
pub open spec fn comp_view(c: PathComp) -> Comp {
    match c {
        PathComp::Root => Comp::Root,
        PathComp::Cur => Comp::Cur,
        PathComp::Parent => Comp::Parent,
        PathComp::Normal(n) => Comp::Normal(n@),
    }
}

/// The models of components.
pub open spec fn comp_views(v: Seq<PathComp>) -> Seq<Comp> {
    v.map_values(|c: PathComp| comp_view(c))
}

/// A copy of a component.
fn copy_comp(c: &PathComp) -> (r: PathComp)
    ensures
        comp_view(r) == comp_view(*c),
{
    match c {
        PathComp::Root => PathComp::Root,
        PathComp::Cur => PathComp::Cur,
        PathComp::Parent => PathComp::Parent,
        PathComp::Normal(n) => PathComp::Normal(n.clone()),
    }
}

/// Whether `v` is `.`.
fn is_dot(v: &Vec<char>) -> (r: bool)
    ensures
        r == (v@ == "."@),
{
    proof {
        reveal_strlit(".");
        if v.len() == 1 && v[0] == '.' {
            assert(v@ =~= "."@);
        }
    }
    v.len() == 1 && v[0] == '.'
}

/// The components of the segments from index `from` on.
fn seg_comps_exec(segs: &Vec<Vec<char>>, from: usize) -> (r: Vec<PathComp>)
    requires
        from <= segs.len(),
    ensures
        comp_views(r@) == seg_comps(char_vecs(segs@).subrange(from as int, segs@.len() as int)),
{
    let ghost all = char_vecs(segs@).subrange(from as int, segs@.len() as int);
    let mut out: Vec<PathComp> = Vec::new();
    let mut i: usize = from;
    assert(all.take(0) =~= Seq::<Seq<char>>::empty());
    while i < segs.len()
        invariant
            from <= i <= segs.len(),
            all == char_vecs(segs@).subrange(from as int, segs@.len() as int),
            comp_views(out@) == seg_comps(all.take(i - from)),
        decreases segs.len() - i,
    {
        assert(all.take(i + 1 - from).drop_last() =~= all.take(i - from));
        assert(all.take(i + 1 - from).last() == segs@[i as int]@);
        let s = &segs[i];
        proof {
            reveal_strlit("..");
        }
        if s.len() > 0 && !is_dot(s) {
            let c = if s.len() == 2 && s[0] == '.' && s[1] == '.' {
                assert(s@ =~= ".."@);
                PathComp::Parent
            } else {
                assert(s@ != ".."@);
                PathComp::Normal(s.clone())
            };
            let ghost before = comp_views(out@);
            out.push(c);
            assert(comp_views(out@) =~= before.push(comp_view(c)));
        }
        i += 1;
    }
    assert(all.take(segs.len() - from) =~= all);
    out
}

/// The components of a path.
pub fn path_components_exec(p: &Vec<char>) -> (r: Vec<PathComp>)
    ensures
        comp_views(r@) == path_components(p@),
{
    let segs = split_chars(p, '/');
    let ghost sv = char_vecs(segs@);
    assert(sv.drop_first() =~= sv.subrange(1, sv.len() as int));
    assert(sv =~= sv.subrange(0, sv.len() as int));
    if p.len() > 0 && p[0] == '/' {
        let rest = seg_comps_exec(&segs, 1);
        let mut out: Vec<PathComp> = Vec::new();
        out.push(PathComp::Root);
        let mut i: usize = 0;
        while i < rest.len()
            invariant
                i <= rest.len(),
                comp_views(out@) == seq![Comp::Root] + comp_views(rest@).take(i as int),
            decreases rest.len() - i,
        {
            let c = copy_comp(&rest[i]);
            let ghost before = comp_views(out@);
            out.push(c);
            assert(comp_views(out@) =~= before.push(comp_view(c)));
            assert(comp_views(rest@).take(i + 1) =~= comp_views(rest@).take(i as int).push(comp_view(rest@[i as int])));
            i += 1;
        }
        assert(comp_views(rest@).take(rest.len() as int) =~= comp_views(rest@));
        out
    } else if is_dot(&segs[0]) {
        assert(sv[0] == segs@[0]@);
        let rest = seg_comps_exec(&segs, 1);
        let mut out: Vec<PathComp> = Vec::new();
        out.push(PathComp::Cur);
        let mut i: usize = 0;
        while i < rest.len()
            invariant
                i <= rest.len(),
                comp_views(out@) == seq![Comp::Cur] + comp_views(rest@).take(i as int),
            decreases rest.len() - i,
        {
            let c = copy_comp(&rest[i]);
            let ghost before = comp_views(out@);
            out.push(c);
            assert(comp_views(out@) =~= before.push(comp_view(c)));
            assert(comp_views(rest@).take(i + 1) =~= comp_views(rest@).take(i as int).push(comp_view(rest@[i as int])));
            i += 1;
        }
        assert(comp_views(rest@).take(rest.len() as int) =~= comp_views(rest@));
        out
    } else {
        assert(sv[0] == segs@[0]@);
        seg_comps_exec(&segs, 0)
    }
}

/// The components left after resolving `.` and `..`.
fn normalize_exec(cs: &Vec<PathComp>) -> (r: Vec<PathComp>)
    ensures
        comp_views(r@) == normalized(comp_views(cs@)),
{
    let ghost all = comp_views(cs@);
    let mut out: Vec<PathComp> = Vec::new();
    let mut i: usize = 0;
    while i < cs.len()
        invariant
            i <= cs.len(),
            all == comp_views(cs@),
            comp_views(out@) == normalized(all.take(i as int)),
        decreases cs.len() - i,
    {
        assert(all.take(i + 1).drop_last() =~= all.take(i as int));
        assert(all.take(i + 1).last() == comp_view(cs@[i as int]));
        let ghost before = comp_views(out@);
        match &cs[i] {
            PathComp::Parent => {
                if out.len() > 0 {
                    out.pop();
                    assert(comp_views(out@) =~= before.drop_last());
                }
            },
            PathComp::Cur => {},
            c => {
                let d = copy_comp(c);
                out.push(d);
                assert(comp_views(out@) =~= before.push(comp_view(d)));
            },
        }
        i += 1;
    }
    assert(all.take(cs.len() as int) =~= all);
    out
}

/// The path that components make.
fn render_exec(cs: &Vec<PathComp>) -> (r: Vec<char>)
    ensures
        r@ == rendered(comp_views(cs@)),
{
    let ghost all = comp_views(cs@);
    let mut out: Vec<char> = Vec::new();
    let mut i: usize = 0;
    while i < cs.len()
        invariant
            i <= cs.len(),
            all == comp_views(cs@),
            out@ == rendered(all.take(i as int)),
        decreases cs.len() - i,
    {
        assert(all.take(i + 1).drop_last() =~= all.take(i as int));
        assert(all.take(i + 1).last() == comp_view(cs@[i as int]));
        if out.len() > 0 && out[out.len() - 1] != '/' {
            out.push('/');
        }
        match &cs[i] {
            PathComp::Root => append_str(&mut out, "/"),
            PathComp::Cur => append_str(&mut out, "."),
            PathComp::Parent => append_str(&mut out, ".."),
            PathComp::Normal(n) => append_chars(&mut out, n),
        }
        proof {
            reveal_strlit("/");
        }
        i += 1;
    }
    assert(all.take(cs.len() as int) =~= all);
    out
}

/// Resolve `.` and `..` in a path without touching the filesystem.
pub fn normalize_path(path: &str) -> (r: String)
    ensures
        r@ == normalized_path(path@),
{
    let p = to_chars(path);
    let cs = path_components_exec(&p);
    let n = normalize_exec(&cs);
    let out = render_exec(&n);
    string_of(&out)
}

/// Whether two components are the same.
fn comp_eq(a: &PathComp, b: &PathComp) -> (r: bool)
    ensures
        r == (comp_view(*a) == comp_view(*b)),
{
    match (a, b) {
        (PathComp::Root, PathComp::Root) => true,
        (PathComp::Cur, PathComp::Cur) => true,
        (PathComp::Parent, PathComp::Parent) => true,
        (PathComp::Normal(x), PathComp::Normal(y)) => crate::text::chars_eq(x, y),
        _ => false,
    }
}

/// Whether the components of `base` begin those of `path`.
pub fn path_starts_with_exec(path: &str, base: &str) -> (r: bool)
    ensures
        r == path_starts_with(path@, base@),
{
    let a = path_components_exec(&to_chars(path));
    let b = path_components_exec(&to_chars(base));
    if b.len() > a.len() {
        return false;
    }
    let ghost av = comp_views(a@);
    let ghost bv = comp_views(b@);
    let mut i: usize = 0;
    while i < b.len()
        invariant
            i <= b.len() <= a.len(),
            av == comp_views(a@),
            bv == comp_views(b@),
            av == path_components(path@),
            bv == path_components(base@),
            forall|j: int| 0 <= j < i ==> av[j] == bv[j],
        decreases b.len() - i,
    {
        assert(av[i as int] == comp_view(a@[i as int]));
        assert(bv[i as int] == comp_view(b@[i as int]));
        if !comp_eq(&a[i], &b[i]) {
            assert(av[i as int] == comp_view(a@[i as int]));
            assert(bv[i as int] == comp_view(b@[i as int]));
            assert(av.subrange(0, bv.len() as int)[i as int] != bv[i as int]);
            return false;
        }
        i += 1;
    }
    assert(av.subrange(0, bv.len() as int) =~= bv);
    true
}

/// The path a request names before it is resolved; `None` for a blank request.
pub fn candidate_path(workspace: &str, requested: &str) -> (r: Option<String>)
    ensures
        crate::config::opt_text(r) == candidate_of(workspace@, requested@),
{
    let req = trim_chars(&to_chars(requested));
    if req.len() == 0 {
        return None;
    }
    if req[0] == '/' {
        return Some(string_of(&req));
    }
    let mut out = to_chars(workspace);
    if out.len() == 0 || out[out.len() - 1] == '/' {
        append_chars(&mut out, &req);
    } else {
        out.push('/');
        append_chars(&mut out, &req);
        proof {
            reveal_strlit("/");
        }
        assert(out@ =~= workspace@ + "/"@ + req@);
    }
    Some(string_of(&out))
}

/// The path a candidate resolves to: its canonical form when it exists on disk (found
/// outside this module), else its lexical normal form; the path counts only when it lies
/// within the workspace.
pub open spec fn resolved_of(workspace: Seq<char>, candidate: Seq<char>, existing: Option<Seq<char>>) -> Option<Seq<char>> {
    let resolved = match existing {
        Some(c) => c,
        None => normalized_path(candidate),
    };
    if path_starts_with(resolved, workspace) {
        Some(resolved)
    } else {
        None
    }
}

/// Resolve a candidate path, refusing one that escapes the workspace. `existing` is the
/// canonical form of the candidate when it exists on disk.
pub fn resolve_candidate(workspace: &str, candidate: &str, existing: Option<&str>) -> (r: Option<String>)
    ensures
        crate::config::opt_text(r) == resolved_of(
            workspace@,
            candidate@,
            match existing {
                Some(c) => Some(c@),
                None => None,
            },
        ),
{
    let resolved = match existing {
        Some(c) => string_from(c),
        None => normalize_path(candidate),
    };
    if path_starts_with_exec(resolved.as_str(), workspace) {
        Some(resolved)
    } else {
        None
    }
}

/// The reply of a file tool whose path escapes the workspace.
pub fn access_denied(file_path: &str) -> (r: String)
    ensures
        r@ == "Access denied: path escapes workspace: "@ + file_path@,
{
    let mut v: Vec<char> = Vec::new();
    append_str(&mut v, "Access denied: path escapes workspace: ");
    append_str(&mut v, file_path);
    string_of(&v)
}


/// Resolving `.` and `..` leaves neither: only the root and names remain.
pub proof fn law_normalized_has_no_dots(cs: Seq<Comp>)
    ensures
        forall|i: int|
            0 <= i < normalized(cs).len() ==> !(#[trigger] normalized(cs)[i] is Cur) && !(normalized(cs)[i] is Parent),
    decreases cs.len(),
{
    if cs.len() > 0 {
        law_normalized_has_no_dots(cs.drop_last());
        let r = normalized(cs.drop_last());
        match cs.last() {
            Comp::Parent => {
                if r.len() > 0 {
                    assert forall|i: int| 0 <= i < r.drop_last().len() implies !(#[trigger] r.drop_last()[i] is Cur)
                        && !(r.drop_last()[i] is Parent) by {
                        assert(r.drop_last()[i] == r[i]);
                    }
                }
            },
            Comp::Cur => {},
            c => {
                assert forall|i: int| 0 <= i < r.push(c).len() implies !(#[trigger] r.push(c)[i] is Cur) && !(r.push(
                    c,
                )[i] is Parent) by {
                    if i < r.len() {
                        assert(r.push(c)[i] == r[i]);
                    }
                }
            },
        }
    }
}

/// Workspace sandboxing: a path that a file tool resolves lies within the workspace.
pub proof fn law_resolved_path_within_workspace(
    workspace: Seq<char>,
    candidate: Seq<char>,
    existing: Option<Seq<char>>,
)
    ensures
        resolved_of(workspace, candidate, existing) matches Some(p) ==> path_starts_with(p, workspace),
{
}

/// The number of occurrences of `p` in `s` from index `from` on, counted left to right
/// without overlap, as `str::matches` counts them.
pub open spec fn matches_from(s: Seq<char>, p: Seq<char>, from: int) -> nat
    recommends
        p.len() > 0,
    decreases s.len() + 1 - from,
{
    if p.len() == 0 {
        0
    } else {
        match first_match(s, p, from) {
            Some(k) => if from <= k && k + p.len() <= s.len() {
                1 + matches_from(s, p, k + p.len())
            } else {
                0
            },
            None => 0,
        }
    }
}

/// `s` from index `from` on with occurrences of `p` replaced by `q`, left to right
/// without overlap: only the first when `all` is false, as `str::replacen` with one
/// replacement does, and every one when it is true, as `str::replace` does.
pub open spec fn replaced_from(s: Seq<char>, p: Seq<char>, q: Seq<char>, from: int, all: bool) -> Seq<char>
    recommends
        p.len() > 0,
    decreases s.len() + 1 - from,
{
    if p.len() == 0 || from < 0 || from > s.len() {
        Seq::empty()
    } else {
        match first_match(s, p, from) {
            Some(k) => if from <= k && k + p.len() <= s.len() {
                s.subrange(from, k) + q + if all {
                    replaced_from(s, p, q, k + p.len(), all)
                } else {
                    s.subrange(k + p.len(), s.len() as int)
                }
            } else {
                Seq::empty()
            },
            None => s.subrange(from, s.len() as int),
        }
    }
}

/// What an edit of a file's text comes to: an error when `old` is empty or does not occur;
/// else the new text and the number of occurrences replaced (all of them, or the first).
pub open spec fn edit_outcome(text: Seq<char>, old: Seq<char>, new: Seq<char>, all: bool, file_path: Seq<char>) -> Result<
    (Seq<char>, nat),
    Seq<char>,
> {
    if old.len() == 0 {
        Err("Error: 'old' text cannot be empty."@)
    } else if matches_from(text, old, 0) == 0 {
        Err("Error: old text not found in "@ + file_path)
    } else {
        Ok((replaced_from(text, old, new, 0, all), if all {
            matches_from(text, old, 0)
        } else {
            1
        }))
    }
}

/// Counts the occurrences of `p` in `s`, left to right without overlap.
fn count_matches(s: &Vec<char>, p: &Vec<char>) -> (r: usize)
    requires
        p.len() > 0,
    ensures
        r == matches_from(s@, p@, 0),
{
    let mut count: usize = 0;
    let mut from: usize = 0;
    while from <= s.len()
        invariant
            p.len() > 0,
            from <= s.len() + 1,
            count + matches_from(s@, p@, from as int) == matches_from(s@, p@, 0),
            count <= from,
        decreases s.len() + 1 - from,
    {
        proof {
            lemma_first_match_bounds(s@, p@, from as int);
        }
        match find_seq(s, p, from) {
            Some(k) => {
                count = count + 1;
                from = k + p.len();
            },
            None => {
                return count;
            },
        }
    }
    proof {
        assert(matches_from(s@, p@, from as int) == 0);
    }
    count
}

/// Replaces occurrences of `p` in `s` by `q`: the first, or all of them.
fn replace_chars(s: &Vec<char>, p: &Vec<char>, q: &Vec<char>, all: bool) -> (r: Vec<char>)
    requires
        p.len() > 0,
    ensures
        r@ == replaced_from(s@, p@, q@, 0, all),
{
    let mut out: Vec<char> = Vec::new();
    let mut from: usize = 0;
    loop
        invariant
            p.len() > 0,
            from <= s.len(),
            out@ + replaced_from(s@, p@, q@, from as int, all) == replaced_from(s@, p@, q@, 0, all),
        decreases s.len() + 1 - from,
    {
        proof {
            lemma_first_match_bounds(s@, p@, from as int);
        }
        match find_seq(s, p, from) {
            Some(k) => {
                let head = slice_chars(s, from, k);
                let ghost before = out@;
                append_chars(&mut out, &head);
                append_chars(&mut out, q);
                if all {
                    assert(before + replaced_from(s@, p@, q@, from as int, all) =~= out@ + replaced_from(
                        s@,
                        p@,
                        q@,
                        (k + p.len()) as int,
                        all,
                    ));
                    from = k + p.len();
                } else {
                    let tail = slice_chars(s, k + p.len(), s.len());
                    append_chars(&mut out, &tail);
                    assert(out@ =~= before + replaced_from(s@, p@, q@, from as int, all));
                    assert(out@ =~= replaced_from(s@, p@, q@, 0, all));
                    return out;
                }
            },
            None => {
                let tail = slice_chars(s, from, s.len());
                let ghost before = out@;
                append_chars(&mut out, &tail);
                assert(out@ =~= before + replaced_from(s@, p@, q@, from as int, all));
                return out;
            },
        }
    }
}

/// Edit a file's text: replace `old` by `new`, the first occurrence or all of them; the
/// error text when `old` is empty or not found in the file.
pub fn plan_edit(text: &str, old: &str, new: &str, replace_all: bool, file_path: &str) -> (r: Result<
    (String, usize),
    String,
>)
    ensures
        match r {
            Ok((t, n)) => edit_outcome(text@, old@, new@, replace_all, file_path@) == Ok::<_, Seq<char>>((t@, n as nat)),
            Err(e) => edit_outcome(text@, old@, new@, replace_all, file_path@) == Err::<(Seq<char>, nat), _>(e@),
        },
{
    let p = to_chars(old);
    if p.len() == 0 {
        return Err(string_from("Error: 'old' text cannot be empty."));
    }
    let s = to_chars(text);
    let count = count_matches(&s, &p);
    if count == 0 {
        let mut v: Vec<char> = Vec::new();
        append_str(&mut v, "Error: old text not found in ");
        append_str(&mut v, file_path);
        return Err(string_of(&v));
    }
    let q = to_chars(new);
    let updated = replace_chars(&s, &p, &q, replace_all);
    Ok((string_of(&updated), if replace_all {
        count
    } else {
        1
    }))
}

/// The reply of a successful edit.
pub fn edit_reply(display: &str, replaced: usize) -> (r: String)
    ensures
        r@ == "Updated "@ + display@ + ": "@ + decimal(replaced as nat) + " occurrence(s) replaced"@,
{
    let mut v: Vec<char> = Vec::new();
    append_str(&mut v, "Updated ");
    append_str(&mut v, display);
    append_str(&mut v, ": ");
    let d = decimal_chars(replaced as u64);
    append_chars(&mut v, &d);
    append_str(&mut v, " occurrence(s) replaced");
    string_of(&v)
}

/// Whether a line matches a search: its lower-case form holds the lower-cased query.
pub open spec fn line_matches(line: Seq<char>, query_lower: Seq<char>) -> bool {
    crate::text::contains(crate::web::lowercase(line), query_lower)
}

/// How a matching line is shown: trimmed, and cut to 117 bytes at a character boundary
/// with `...` after it when it is longer than 120 bytes.
pub open spec fn shown_line(line: Seq<char>) -> Seq<char> {
    let t = trim(line);
    if crate::utils::utf8_len(t) > 120 {
        t.take(crate::utils::fit(t, 117)) + "..."@
    } else {
        t
    }
}

/// The row of a matching line: `  path:number: line`.
pub open spec fn search_row(rel_path: Seq<char>, number: nat, line: Seq<char>) -> Seq<char> {
    "  "@ + rel_path + ":"@ + decimal(number) + ": "@ + shown_line(line)
}

/// The rows for the matching lines of a file's content, numbered from 1, until there are
/// `max` results in all (`have` of them found before this file).
pub open spec fn search_rows(rel_path: Seq<char>, lines: Seq<Seq<char>>, query_lower: Seq<char>, have: nat, max: nat) -> Seq<
    Seq<char>,
>
    decreases lines.len(),
{
    if lines.len() == 0 {
        Seq::empty()
    } else {
        let r = search_rows(rel_path, lines.drop_last(), query_lower, have, max);
        if have + r.len() < max && line_matches(lines.last(), query_lower) {
            r.push(search_row(rel_path, lines.len(), lines.last()))
        } else {
            r
        }
    }
}

/// The row of a line, if it matches.
fn search_line(rel_path: &str, number: usize, line: &str, query_lower: &Vec<char>) -> (r: Option<String>)
    ensures
        match r {
            Some(row) => line_matches(line@, query_lower@) && row@ == search_row(rel_path@, number as nat, line@),
            None => !line_matches(line@, query_lower@),
        },
{
    let lower = crate::web::str_to_lowercase(line);
    let lv = to_chars(lower.as_str());
    match find_seq(&lv, query_lower, 0) {
        None => {
            proof {
                if crate::text::contains(lv@, query_lower@) {
                    let i = choose|i: int| occurs_at(lv@, query_lower@, i);
                    lemma_first_match_finds(lv@, query_lower@, 0, i);
                }
            }
            None
        },
        Some(_) => {
            let tv = trim_chars(&to_chars(line));
            let t = string_of(&tv);
            let (_, fits) = crate::utils::fit_count(&tv, 120);
            let mut v: Vec<char> = Vec::new();
            append_str(&mut v, "  ");
            append_str(&mut v, rel_path);
            append_str(&mut v, ":");
            let d = decimal_chars(number as u64);
            append_chars(&mut v, &d);
            append_str(&mut v, ": ");
            if fits {
                append_chars(&mut v, &tv);
            } else {
                let cut = crate::utils::safe_truncate(t.as_str(), 117);
                proof {
                    lemma_fit_of_cut(tv@, cut@, 117);
                }
                append_str(&mut v, cut);
                append_str(&mut v, "...");
            }
            Some(string_of(&v))
        },
    }
}

/// A search from `from` finds something when `p` occurs at a later index.
pub(crate) proof fn lemma_first_match_finds(s: Seq<char>, p: Seq<char>, from: int, i: int)
    requires
        0 <= from <= i,
        occurs_at(s, p, i),
    ensures
        first_match(s, p, from) is Some,
    decreases i - from,
{
    if from < i && !occurs_at(s, p, from) {
        lemma_first_match_finds(s, p, from + 1, i);
    }
}

/// Adds the rows for the matching lines of a file's content to `results`, stopping once
/// there are `max` results.
pub fn search_content(rel_path: &str, content: &str, query_lower: &str, results: &mut Vec<String>, max: usize)
    ensures
        crate::command::texts(final(results)@) == crate::command::texts(old(results)@) + search_rows(
            rel_path@,
            crate::router::text_lines(content@),
            query_lower@,
            old(results)@.len() as nat,
            max as nat,
        ),
{
    let lines = crate::router::lines_of(content);
    let ghost ls = crate::command::texts(lines@);
    let ghost have = results@.len() as nat;
    let ghost start = crate::command::texts(results@);
    let q = to_chars(query_lower);
    let mut i: usize = 0;
    assert(ls.take(0) =~= Seq::<Seq<char>>::empty());
    assert(start + Seq::<Seq<char>>::empty() =~= start);
    while i < lines.len()
        invariant
            i <= lines.len(),
            ls == crate::command::texts(lines@),
            ls == crate::router::text_lines(content@),
            q@ == query_lower@,
            have == start.len(),
            crate::command::texts(results@) == start + search_rows(rel_path@, ls.take(i as int), query_lower@, have, max as nat),
        decreases lines.len() - i,
    {
        assert(ls.take(i + 1).drop_last() =~= ls.take(i as int));
        assert(ls.take(i + 1).last() == lines@[i as int]@);
        let ghost r = search_rows(rel_path@, ls.take(i as int), query_lower@, have, max as nat);
        if results.len() < max {
            match search_line(rel_path, i + 1, lines[i].as_str(), &q) {
                Some(row) => {
                    let ghost before = crate::command::texts(results@);
                    results.push(row);
                    assert(crate::command::texts(results@) =~= before.push(row@));
                    assert(crate::command::texts(results@) =~= start + r.push(row@));
                },
                None => {},
            }
        }
        i += 1;
    }
    assert(ls.take(lines.len() as int) =~= ls);
}

/// Adds the rows for the lines of a file's content that hold `query`, compared in lower
/// case, to `results`, stopping once there are `max` results.
pub fn search_file_content(rel_path: &str, content: &str, query: &str, results: &mut Vec<String>, max: usize)
    ensures
        crate::command::texts(final(results)@) == crate::command::texts(old(results)@) + search_rows(
            rel_path@,
            crate::router::text_lines(content@),
            crate::web::lowercase(query@),
            old(results)@.len() as nat,
            max as nat,
        ),
{
    let query_lower = crate::web::str_to_lowercase(query);
    search_content(rel_path, content, query_lower.as_str(), results, max);
}

/// The reply of a search, given the query and the rows found: a note when there are none,
/// else their count, the rows, and a note when the results were capped at 50.
pub open spec fn search_reply_text(query: Seq<char>, rows: Seq<Seq<char>>) -> Seq<char> {
    if rows.len() == 0 {
        "No matches found for: "@ + query
    } else {
        decimal(rows.len()) + " match(es) for \""@ + query + "\":\n"@ + join(rows, "\n"@) + if rows.len() >= 50 {
            "\n\n[... capped at 50 results]"@
        } else {
            ""@
        }
    }
}

/// The reply of a search.
pub fn search_reply(query: &str, rows: &Vec<String>) -> (r: String)
    ensures
        r@ == search_reply_text(query@, crate::command::texts(rows@)),
{
    proof {
        reveal_strlit("");
    }
    let mut v: Vec<char> = Vec::new();
    if rows.len() == 0 {
        append_str(&mut v, "No matches found for: ");
        append_str(&mut v, query);
        return string_of(&v);
    }
    let d = decimal_chars(rows.len() as u64);
    append_chars(&mut v, &d);
    append_str(&mut v, " match(es) for \"");
    append_str(&mut v, query);
    append_str(&mut v, "\":\n");
    let body = crate::text::join_strings(rows, "\n");
    append_str(&mut v, body.as_str());
    if rows.len() >= 50 {
        append_str(&mut v, "\n\n[... capped at 50 results]");
    }
    string_of(&v)
}

/// The error for a search with a blank query.
pub fn search_query_error(query: &str) -> (r: Option<String>)
    ensures
        crate::config::opt_text(r) == (if trim(query@).len() == 0 {
            Some("Error: query cannot be empty."@)
        } else {
            None::<Seq<char>>
        }),
{
    if trim_chars(&to_chars(query)).len() == 0 {
        Some(string_from("Error: query cannot be empty."))
    } else {
        None
    }
}

/// The file extensions that a search skips as likely binary.
pub open spec fn binary_exts() -> Seq<Seq<char>> {
    seq![
        "png"@, "jpg"@, "jpeg"@, "gif"@, "ico"@, "woff"@, "woff2"@, "ttf"@, "eot"@, "zip"@, "tar"@, "gz"@,
        "bz2"@, "xz"@, "pdf"@, "exe"@, "dll"@, "so"@, "dylib"@, "o"@, "a"@, "class"@, "jar"@, "pyc"@, "wasm"@,
    ]
}

/// The directories that a search does not enter, besides hidden ones.
pub open spec fn skipped_dirs() -> Seq<Seq<char>> {
    seq![
        ".git"@, ".crabclaw"@, "target"@, "node_modules"@, ".agent"@, "__pycache__"@, ".venv"@, "dist"@,
        "build"@,
    ]
}

/// Whether `x` is one of `names`.
fn one_of(x: &str, names: &[&str]) -> (r: bool)
    ensures
        r == exists|i: int| 0 <= i < names@.len() && #[trigger] names@[i]@ == x@,
{
    let mut i: usize = 0;
    while i < names.len()
        invariant
            i <= names.len(),
            forall|k: int| 0 <= k < i ==> #[trigger] names@[k]@ != x@,
        decreases names.len() - i,
    {
        if str_eq(names[i], x) {
            return true;
        }
        i += 1;
    }
    false
}

/// Whether a search skips a file with extension `ext` as likely binary.
pub fn is_binary_ext(ext: &str) -> (r: bool)
    ensures
        r == binary_exts().contains(ext@),
{
    let names: [&str; 25] = [
        "png", "jpg", "jpeg", "gif", "ico", "woff", "woff2", "ttf", "eot", "zip", "tar", "gz", "bz2", "xz",
        "pdf", "exe", "dll", "so", "dylib", "o", "a", "class", "jar", "pyc", "wasm",
    ];
    let r = one_of(ext, &names);
    proof {
        assert(names@.map_values(|n: &str| n@) =~= binary_exts());
        if r {
            let i = choose|i: int| 0 <= i < names@.len() && #[trigger] names@[i]@ == ext@;
            assert(binary_exts()[i] == ext@);
        } else if binary_exts().contains(ext@) {
            let i = choose|i: int| 0 <= i < binary_exts().len() && binary_exts()[i] == ext@;
            assert(names@[i]@ == ext@);
        }
    }
    r
}

/// Whether a search skips a directory entry: a hidden directory, or one of the build and
/// tool directories.
pub fn skips_dir(name: &str, is_dir: bool) -> (r: bool)
    ensures
        r == (is_dir && (crate::text::starts_with(name@, "."@) || skipped_dirs().contains(name@))),
{
    if !is_dir {
        return false;
    }
    let n = to_chars(name);
    if crate::text::starts_with_str(&n, ".") {
        return true;
    }
    let names: [&str; 9] = [".git", ".crabclaw", "target", "node_modules", ".agent", "__pycache__", ".venv", "dist", "build"];
    let r = one_of(name, &names);
    proof {
        assert(names@.map_values(|n: &str| n@) =~= skipped_dirs());
        if r {
            let i = choose|i: int| 0 <= i < names@.len() && #[trigger] names@[i]@ == name@;
            assert(skipped_dirs()[i] == name@);
        } else if skipped_dirs().contains(name@) {
            let i = choose|i: int| 0 <= i < skipped_dirs().len() && skipped_dirs()[i] == name@;
            assert(names@[i]@ == name@);
        }
    }
    r
}

/// A problem with a path that a file tool reports.
pub enum PathProblem {
    FileNotFound,
    NotAFile,
    DirectoryNotFound,
    NotADirectory,
    PathNotFound,
}

/// The reply that reports a problem with a path.
pub open spec fn problem_text(p: PathProblem, path: Seq<char>) -> Seq<char> {
    match p {
        PathProblem::FileNotFound => "File not found: "@ + path,
        PathProblem::NotAFile => "Not a file: "@ + path,
        PathProblem::DirectoryNotFound => "Directory not found: "@ + path,
        PathProblem::NotADirectory => "Not a directory: "@ + path,
        PathProblem::PathNotFound => "Path not found: "@ + path,
    }
}

/// The reply that reports a problem with a path.
pub fn problem_reply(p: PathProblem, path: &str) -> (r: String)
    ensures
        r@ == problem_text(p, path@),
{
    let mut v: Vec<char> = Vec::new();
    match p {
        PathProblem::FileNotFound => append_str(&mut v, "File not found: "),
        PathProblem::NotAFile => append_str(&mut v, "Not a file: "),
        PathProblem::DirectoryNotFound => append_str(&mut v, "Directory not found: "),
        PathProblem::NotADirectory => append_str(&mut v, "Not a directory: "),
        PathProblem::PathNotFound => append_str(&mut v, "Path not found: "),
    }
    append_str(&mut v, path);
    string_of(&v)
}

/// The reply of reading a file: its content, cut at a character boundary to 50,000 bytes
/// with a note of the sizes (as `str::len` gives them) when it is longer.
pub open spec fn read_text(content: Seq<char>) -> Seq<char> {
    if crate::utils::utf8_len(content) <= 50000 {
        content
    } else {
        let t = content.take(crate::utils::fit(content, 50000));
        t + "\n\n[... truncated, showing first "@ + decimal((crate::utils::utf8_len(t) as usize) as nat) + " of "@
            + decimal((crate::utils::utf8_len(content) as usize) as nat) + " bytes]"@
    }
}

/// The reply of reading a file with the given content.
pub fn read_reply(content: &str) -> (r: String)
    ensures
        r@ == read_text(content@),
{
    let cv = to_chars(content);
    let (_, fits) = crate::utils::fit_count(&cv, 50000);
    if fits {
        return string_from(content);
    }
    let t = crate::utils::safe_truncate(content, 50000);
    proof {
        lemma_fit_of_cut(cv@, t@, 50000);
    }
    let mut v = to_chars(t);
    append_str(&mut v, "\n\n[... truncated, showing first ");
    let a = decimal_chars(t.len() as u64);
    append_chars(&mut v, &a);
    append_str(&mut v, " of ");
    let b = decimal_chars(content.len() as u64);
    append_chars(&mut v, &b);
    append_str(&mut v, " bytes]");
    string_of(&v)
}

/// The cut that `safe_truncate` makes of a text that does not fit is the prefix that
/// `fit` counts.
proof fn lemma_fit_of_cut(t: Seq<char>, cut: Seq<char>, max: nat)
    requires
        crate::utils::utf8_len(t) > max,
        cut.len() < t.len(),
        cut == t.take(cut.len() as int),
        crate::utils::utf8_len(cut) <= max,
        crate::utils::utf8_len(t.take(cut.len() as int + 1)) > max,
    ensures
        cut == t.take(crate::utils::fit(t, max)),
{
    crate::utils::lemma_fit_is_longest(t, max, cut.len() as int);
}

/// The reply of writing `content` to the file shown as `display`.
pub fn write_reply(content: &str, display: &str) -> (r: String)
    ensures
        r@ == "Written "@ + decimal((crate::utils::utf8_len(content@) as usize) as nat) + " bytes to "@ + display@,
{
    let mut v: Vec<char> = Vec::new();
    append_str(&mut v, "Written ");
    let d = decimal_chars(content.len() as u64);
    append_chars(&mut v, &d);
    append_str(&mut v, " bytes to ");
    append_str(&mut v, display);
    string_of(&v)
}

/// The row that lists a directory entry: a directory with a trailing slash, a file with
/// its size.
pub open spec fn dir_row(name: Seq<char>, is_dir: bool, size: u64) -> Seq<char> {
    if is_dir {
        "  "@ + name + "/"@
    } else {
        "  "@ + name + "  ("@ + decimal(size as nat) + " bytes)"@
    }
}

/// The row that lists a directory entry.
pub fn dir_entry_row(name: &str, is_dir: bool, size: u64) -> (r: String)
    ensures
        r@ == dir_row(name@, is_dir, size),
{
    let mut v: Vec<char> = Vec::new();
    append_str(&mut v, "  ");
    append_str(&mut v, name);
    if is_dir {
        append_str(&mut v, "/");
    } else {
        append_str(&mut v, "  (");
        let d = decimal_chars(size);
        append_chars(&mut v, &d);
        append_str(&mut v, " bytes)");
    }
    string_of(&v)
}

/// The listing of a directory: its rows in order, one per line; a note when it is empty.
pub fn directory_listing(rows: Vec<String>) -> (r: String)
    ensures
        rows@.len() == 0 ==> r@ == "(empty directory)"@,
        rows@.len() > 0 ==> exists|sorted: Seq<Seq<char>>|
            crate::schedule::texts_sorted(sorted) && sorted.to_multiset() == crate::command::texts(rows@).to_multiset()
                && r@ == join(sorted, "\n"@),
{
    if rows.len() == 0 {
        return string_from("(empty directory)");
    }
    let out = crate::schedule::sort_texts(rows);
    crate::text::join_strings(&out, "\n")
}

} // verus!

//! Runtime configuration resolved from CLI flags, the environment and `.env.local`.
use vstd::prelude::*;

use crate::command::{first_eq_index, texts};
use crate::error::CrabClawError;
use crate::text::{append_str, chars_eq, char_vecs, split_chars, split_on, starts_with, starts_with_str, string_of, to_chars, trim, trim_chars};
use vstd::string::StrSliceExecFns;

verus! {

/// The model of an optional string.
pub open spec fn opt_text(o: Option<String>) -> Option<Seq<char>> {
    match o {
        Some(s) => Some(s@),
        None => None,
    }
}

/// The value that the last entry for `k` gives, as a map filled in order gives it.
pub open spec fn lookup_last(e: Seq<(Seq<char>, Seq<char>)>, k: Seq<char>) -> Option<Seq<char>>
    decreases e.len(),
{
    if e.len() == 0 {
        None
    } else if e.last().0 == k {
        Some(e.last().1)
    } else {
        lookup_last(e.drop_last(), k)
    }
}

/// The value of `k` in `m`.
pub open spec fn map_get(m: Map<Seq<char>, Seq<char>>, k: Seq<char>) -> Option<Seq<char>> {
    if m.dom().contains(k) {
        Some(m[k])
    } else {
        None
    }
}

/// A map from variable names to values, such as the process environment or the
/// variables of a dotenv file.
#[derive(Debug, Clone)]
pub struct VarMap {
    entries: Vec<(String, String)>,
}

impl View for VarMap {
    type V = Map<Seq<char>, Seq<char>>;

    closed spec fn view(&self) -> Map<Seq<char>, Seq<char>> {
        let e = crate::command::text_pairs(self.entries@);
        Map::new(|k: Seq<char>| lookup_last(e, k) is Some, |k: Seq<char>| lookup_last(e, k).unwrap())
    }
}

impl VarMap {
    /// An empty map.
    pub fn new() -> (r: Self)
        ensures
            r@ == Map::<Seq<char>, Seq<char>>::empty(),
    {
        let r = VarMap { entries: Vec::new() };
        assert(r@ =~= Map::<Seq<char>, Seq<char>>::empty());
        r
    }

    /// Sets `key` to `value`, replacing any earlier value.
    pub fn insert(&mut self, key: String, value: String)
        ensures
            final(self)@ == old(self)@.insert(key@, value@),
    {
        let ghost kv = (key@, value@);
        let ghost before = crate::command::text_pairs(self.entries@);
        self.entries.push((key, value));
        let ghost after = crate::command::text_pairs(self.entries@);
        assert(after =~= before.push(kv));
        assert(after.drop_last() =~= before);
        assert forall|k: Seq<char>| #[trigger] lookup_last(after, k) == (if k == kv.0 {
            Some(kv.1)
        } else {
            lookup_last(before, k)
        }) by {}
        assert(self@ =~= old(self)@.insert(kv.0, kv.1));
    }

    /// The value of `key`.
    pub fn get(&self, key: &str) -> (r: Option<&String>)
        ensures
            match r {
                Some(v) => self@.dom().contains(key@) && self@[key@] == v@,
                None => !self@.dom().contains(key@),
            },
    {
        let k = to_chars(key);
        let ghost e = crate::command::text_pairs(self.entries@);
        let mut i = self.entries.len();
        assert(e.take(i as int) =~= e);
        while i > 0
            invariant
                i <= self.entries.len(),
                k@ == key@,
                e == crate::command::text_pairs(self.entries@),
                lookup_last(e, k@) == lookup_last(e.take(i as int), k@),
            decreases i,
        {
            let ki = to_chars(self.entries[i - 1].0.as_str());
            assert(e.take(i as int).last() == e[i - 1]);
            if chars_eq(&ki, &k) {
                return Some(&self.entries[i - 1].1);
            }
            assert(e.take(i as int).drop_last() =~= e.take(i - 1));
            i -= 1;
        }
        None
    }

    /// Whether `key` has a value.
    pub fn contains_key(&self, key: &str) -> (r: bool)
        ensures
            r == self@.dom().contains(key@),
    {
        self.get(key).is_some()
    }
}

/// Configuration overrides given on the command line.
#[derive(Debug, Clone)]
pub struct CliConfigOverrides {
    pub api_key: Option<String>,
    pub api_base: Option<String>,
    pub model: Option<String>,
    pub system_prompt: Option<String>,
}

impl Default for CliConfigOverrides {
    fn default() -> (r: Self)
        ensures
            r.api_key is None,
            r.api_base is None,
            r.model is None,
            r.system_prompt is None,
    {
        CliConfigOverrides { api_key: None, api_base: None, model: None, system_prompt: None }
    }
}

/// The resolved runtime configuration.
#[derive(Debug, Clone)]
pub struct AppConfig {
    pub profile: String,
    pub api_key: String,
    pub api_base: String,
    pub model: String,
    pub system_prompt: Option<String>,
    pub telegram_token: Option<String>,
    pub telegram_allow_from: Vec<String>,
    pub telegram_allow_chats: Vec<String>,
    pub telegram_proxy: Option<String>,
}

impl AppConfig {
    /// Whether the Telegram channel is configured.
    pub fn telegram_enabled(&self) -> (r: bool)
        ensures
            r == self.telegram_token is Some,
    {
        self.telegram_token.is_some()
    }
}

/// The first candidate that holds something besides whitespace, trimmed.
pub open spec fn first_present_value(vals: Seq<Option<Seq<char>>>) -> Option<Seq<char>>
    decreases vals.len(),
{
    if vals.len() == 0 {
        None
    } else {
        match vals[0] {
            Some(v) => if trim(v).len() > 0 {
                Some(trim(v))
            } else {
                first_present_value(vals.drop_first())
            },
            None => first_present_value(vals.drop_first()),
        }
    }
}

/// The model of a list of optional string references.
pub open spec fn opt_refs(v: Seq<Option<&String>>) -> Seq<Option<Seq<char>>> {
    v.map_values(|o: Option<&String>| match o {
        Some(s) => Some(s@),
        None => None,
    })
}

/// The first candidate that holds something besides whitespace, trimmed.
pub fn first_present(values: &Vec<Option<&String>>) -> (r: Option<String>)
    ensures
        opt_text(r) == first_present_value(opt_refs(values@)),
{
    let ghost vs = opt_refs(values@);
    let mut i: usize = 0;
    assert(vs.subrange(0, vs.len() as int) =~= vs);
    while i < values.len()
        invariant
            i <= values.len(),
            vs == opt_refs(values@),
            first_present_value(vs) == first_present_value(vs.subrange(i as int, vs.len() as int)),
        decreases values.len() - i,
    {
        let ghost sub = vs.subrange(i as int, vs.len() as int);
        assert(sub[0] == vs[i as int]);
        assert(sub.drop_first() =~= vs.subrange(i + 1, vs.len() as int));
        match values[i] {
            Some(v) => {
                let c = to_chars(v.as_str());
                let t = trim_chars(&c);
                if t.len() > 0 {
                    return Some(string_of(&t));
                }
            },
            None => {},
        }
        i += 1;
    }
    None
}

/// Whether `c` is an ASCII letter or digit.
pub open spec fn is_ascii_alnum(c: char) -> bool {
    ('a' <= c <= 'z') || ('A' <= c <= 'Z') || ('0' <= c <= '9')
}

/// The upper-case form of an ASCII letter; other characters stay.
pub open spec fn ascii_upper(c: char) -> char {
    if 'a' <= c <= 'z' {
        ((c as u32) - 32) as char
    } else {
        c
    }
}

/// The profile name as it appears in variable names: ASCII letters and digits upper-cased,
/// everything else `_`, and `DEFAULT` for an empty name.
pub open spec fn profile_token(p: Seq<char>) -> Seq<char> {
    if p.len() == 0 {
        "DEFAULT"@
    } else {
        p.map_values(|c: char| if is_ascii_alnum(c) { ascii_upper(c) } else { '_' })
    }
}

/// The profile name as it appears in variable names.
pub fn normalize_profile_token(profile: &str) -> (r: String)
    ensures
        r@ == profile_token(profile@),
{
    let chars = to_chars(profile);
    if chars.len() == 0 {
        return crate::text::string_from("DEFAULT");
    }
    let mut out: Vec<char> = Vec::new();
    let mut i: usize = 0;
    while i < chars.len()
        invariant
            i <= chars.len(),
            chars@ == profile@,
            out@ == profile@.take(i as int).map_values(
                |c: char| if is_ascii_alnum(c) { ascii_upper(c) } else { '_' },
            ),
        decreases chars.len() - i,
    {
        let ch = chars[i];
        let mapped = if ('a' <= ch && ch <= 'z') {
            ((ch as u32) - 32) as u8 as char
        } else if ('A' <= ch && ch <= 'Z') || ('0' <= ch && ch <= '9') {
            ch
        } else {
            '_'
        };
        out.push(mapped);
        assert(profile@.take(i + 1) =~= profile@.take(i as int).push(ch));
        i += 1;
    }
    assert(profile@.take(chars.len() as int) =~= profile@);
    string_of(&out)
}

/// `value` without one pair of matching surrounding double or single quotes.
pub open spec fn unquoted(v: Seq<char>) -> Seq<char> {
    if v.len() >= 2 && ((v[0] == '"' && v.last() == '"') || (v[0] == '\'' && v.last() == '\'')) {
        v.subrange(1, v.len() - 1)
    } else {
        v
    }
}

/// Remove one pair of matching surrounding quotes.
pub fn strip_quotes<'a>(value: &'a str) -> (r: &'a str)
    ensures
        r@ == unquoted(value@),
{
    let n = value.unicode_len();
    if n >= 2 {
        let first = value.get_char(0);
        let last = value.get_char(n - 1);
        if (first == '"' && last == '"') || (first == '\'' && last == '\'') {
            return value.substring_char(1, n - 1);
        }
    }
    value
}

/// The variable that one line of a dotenv file sets: blank lines and `#` comments set
/// none; an `export ` prefix is allowed; the key is trimmed and must not be empty; the
/// value is trimmed and unquoted.
pub open spec fn dotenv_entry(line: Seq<char>) -> Option<(Seq<char>, Seq<char>)> {
    let t = trim(line);
    if t.len() == 0 || t[0] == '#' {
        None
    } else {
        let body = if starts_with(t, "export "@) {
            t.subrange(7, t.len() as int)
        } else {
            t
        };
        match first_eq_index(body) {
            None => None,
            Some(p) => {
                let key = trim(body.subrange(0, p));
                if key.len() == 0 {
                    None
                } else {
                    Some((key, unquoted(trim(body.subrange(p + 1, body.len() as int)))))
                }
            },
        }
    }
}

/// The variables that the given lines set, later lines overriding earlier ones.
pub open spec fn dotenv_vars(lines: Seq<Seq<char>>) -> Map<Seq<char>, Seq<char>>
    decreases lines.len(),
{
    if lines.len() == 0 {
        Map::empty()
    } else {
        let m = dotenv_vars(lines.drop_last());
        match dotenv_entry(lines.last()) {
            Some(kv) => m.insert(kv.0, kv.1),
            None => m,
        }
    }
}

/// Reads one dotenv line.
fn dotenv_line(line: &Vec<char>) -> (r: Option<(String, String)>)
    ensures
        match r {
            Some(kv) => dotenv_entry(line@) == Some((kv.0@, kv.1@)),
            None => dotenv_entry(line@) is None,
        },
{
    let t = trim_chars(line);
    if t.len() == 0 || t[0] == '#' {
        return None;
    }
    let body = if starts_with_str(&t, "export ") {
        proof {
            reveal_strlit("export ");
        }
        crate::text::slice_chars(&t, 7, t.len())
    } else {
        t
    };
    let mut p: usize = 0;
    while p < body.len() && body[p] != '='
        invariant
            p <= body.len(),
            forall|j: int| 0 <= j < p ==> body@[j] != '=',
        decreases body.len() - p,
    {
        p += 1;
    }
    if p == body.len() {
        return None;
    }
    proof {
        let c = choose|k: int|
            0 <= k < body@.len() && body@[k] == '=' && forall|j: int| 0 <= j < k ==> body@[j] != '=';
        assert(0 <= p < body@.len() && body@[p as int] == '=' && forall|j: int|
            0 <= j < p ==> body@[j] != '=');
        assert(c == p) by {
            if c < p {
                assert(body@[c] != '=');
            }
            if c > p {
                assert(body@[p as int] != '=');
            }
        }
    }
    let k0 = crate::text::slice_chars(&body, 0, p);
    let key = trim_chars(&k0);
    if key.len() == 0 {
        return None;
    }
    let v0 = crate::text::slice_chars(&body, p + 1, body.len());
    let v1 = trim_chars(&v0);
    let v1s = string_of(&v1);
    let v2 = strip_quotes(v1s.as_str());
    Some((string_of(&key), crate::text::string_from(v2)))
}

/// The variables of a dotenv file.
pub fn parse_dotenv(content: &str) -> (r: VarMap)
    ensures
        r@ == dotenv_vars(split_on(content@, '\n')),
{
    let chars = to_chars(content);
    let lines = split_chars(&chars, '\n');
    let ghost ls = char_vecs(lines@);
    let mut map = VarMap::new();
    let mut i: usize = 0;
    while i < lines.len()
        invariant
            i <= lines.len(),
            ls == char_vecs(lines@),
            map@ == dotenv_vars(ls.take(i as int)),
        decreases lines.len() - i,
    {
        assert(ls.take(i + 1).drop_last() =~= ls.take(i as int));
        assert(ls.take(i + 1).last() == lines@[i as int]@);
        match dotenv_line(&lines[i]) {
            Some(kv) => {
                map.insert(kv.0, kv.1);
            },
            None => {},
        }
        i += 1;
    }
    assert(ls.take(lines.len() as int) =~= ls);
    map
}

/// The allow-list items of a comma-separated value: trimmed, empty ones dropped.
pub open spec fn list_items(segs: Seq<Seq<char>>) -> Seq<Seq<char>>
    decreases segs.len(),
{
    if segs.len() == 0 {
        Seq::empty()
    } else {
        let r = list_items(segs.drop_last());
        if trim(segs.last()).len() > 0 {
            r.push(trim(segs.last()))
        } else {
            r
        }
    }
}

/// The items of a comma-separated list.
fn comma_list(s: Option<String>) -> (r: Vec<String>)
    ensures
        texts(r@) == match s {
            Some(v) => list_items(split_on(v@, ',')),
            None => Seq::empty(),
        },
{
    let mut out: Vec<String> = Vec::new();
    match s {
        None => {
            assert(texts(out@) =~= Seq::<Seq<char>>::empty());
        },
        Some(v) => {
            let chars = to_chars(v.as_str());
            let segs = split_chars(&chars, ',');
            let ghost ss = char_vecs(segs@);
            let mut i: usize = 0;
            assert(texts(out@) =~= list_items(ss.take(0)));
            while i < segs.len()
                invariant
                    i <= segs.len(),
                    ss == char_vecs(segs@),
                    texts(out@) == list_items(ss.take(i as int)),
                decreases segs.len() - i,
            {
                assert(ss.take(i + 1).drop_last() =~= ss.take(i as int));
                assert(ss.take(i + 1).last() == segs@[i as int]@);
                let t = trim_chars(&segs[i]);
                if t.len() > 0 {
                    let ghost before = out@;
                    let ts = string_of(&t);
                    out.push(ts);
                    assert(texts(out@) =~= texts(before).push(t@));
                }
                i += 1;
            }
            assert(ss.take(segs.len() as int) =~= ss);
        },
    }
    out
}

/// The name of a profile-specific variable.
pub open spec fn profiled_key(token: Seq<char>, base: Seq<char>) -> Seq<char> {
    "CRABCLAW_PROFILE_"@ + token + "_"@ + base
}

fn profiled_key_exec(token: &String, base: &str) -> (r: String)
    ensures
        r@ == profiled_key(token@, base@),
{
    let mut v: Vec<char> = Vec::new();
    append_str(&mut v, "CRABCLAW_PROFILE_");
    append_str(&mut v, token.as_str());
    append_str(&mut v, "_");
    append_str(&mut v, base);
    string_of(&v)
}

/// The profile that a run uses: the given name, or `default`, trimmed.
pub open spec fn profile_of(profile: Option<Seq<char>>) -> Seq<char> {
    trim(
        match profile {
            Some(p) => p,
            None => "default"@,
        },
    )
}

/// The candidates for a setting with a profile-specific variable, in order of precedence:
/// the CLI value, the profiled then plain environment variable, the profiled then plain
/// dotenv variable.
pub open spec fn profiled_candidates(
    cli: Option<Seq<char>>,
    env: Map<Seq<char>, Seq<char>>,
    dotenv: Map<Seq<char>, Seq<char>>,
    token: Seq<char>,
    base: Seq<char>,
) -> Seq<Option<Seq<char>>> {
    seq![
        cli,
        map_get(env, profiled_key(token, base)),
        map_get(env, base),
        map_get(dotenv, profiled_key(token, base)),
        map_get(dotenv, base),
    ]
}

/// The candidates for a setting without a profile-specific variable: the environment
/// variable, then the dotenv variable.
pub open spec fn plain_candidates(
    env: Map<Seq<char>, Seq<char>>,
    dotenv: Map<Seq<char>, Seq<char>>,
    base: Seq<char>,
) -> Seq<Option<Seq<char>>> {
    seq![map_get(env, base), map_get(dotenv, base)]
}

/// The configured API key, if any source gives one.
pub open spec fn resolved_api_key(
    profile: Option<Seq<char>>,
    cli: CliConfigOverrides,
    env: Map<Seq<char>, Seq<char>>,
    dotenv: Map<Seq<char>, Seq<char>>,
) -> Option<Seq<char>> {
    first_present_value(
        profiled_candidates(
            opt_text(cli.api_key),
            env,
            dotenv,
            profile_token(profile_of(profile)),
            "OPENCLAW_API_KEY"@,
        ),
    )
}

/// A setting with a profile-specific variable and a default.
pub open spec fn resolved_with_default(
    cli: Option<Seq<char>>,
    env: Map<Seq<char>, Seq<char>>,
    dotenv: Map<Seq<char>, Seq<char>>,
    token: Seq<char>,
    base: Seq<char>,
    default: Seq<char>,
) -> Seq<char> {
    match first_present_value(profiled_candidates(cli, env, dotenv, token, base)) {
        Some(v) => v,
        None => default,
    }
}

/// Whether `c` is the configuration that the given sources resolve to.
pub open spec fn resolves_to(
    c: AppConfig,
    profile: Option<Seq<char>>,
    cli: CliConfigOverrides,
    env: Map<Seq<char>, Seq<char>>,
    dotenv: Map<Seq<char>, Seq<char>>,
) -> bool {
    let token = profile_token(profile_of(profile));
    &&& c.profile@ == profile_of(profile)
    &&& Some(c.api_key@) == resolved_api_key(profile, cli, env, dotenv)
    &&& c.api_base@ == resolved_with_default(
        opt_text(cli.api_base),
        env,
        dotenv,
        token,
        "OPENCLAW_BASE_URL"@,
        "https://api.example.com"@,
    )
    &&& c.model@ == resolved_with_default(
        opt_text(cli.model),
        env,
        dotenv,
        token,
        "CRABCLAW_MODEL"@,
        "openclaw/default"@,
    )
    &&& opt_text(c.system_prompt) == first_present_value(
        seq![opt_text(cli.system_prompt)] + plain_candidates(env, dotenv, "CRABCLAW_SYSTEM_PROMPT"@),
    )
    &&& opt_text(c.telegram_token) == first_present_value(
        plain_candidates(env, dotenv, "BUB_TELEGRAM_TOKEN"@),
    )
    &&& texts(c.telegram_allow_from@) == match first_present_value(
        plain_candidates(env, dotenv, "BUB_TELEGRAM_ALLOW_FROM"@),
    ) {
        Some(v) => list_items(split_on(v, ',')),
        None => Seq::empty(),
    }
    &&& texts(c.telegram_allow_chats@) == match first_present_value(
        plain_candidates(env, dotenv, "BUB_TELEGRAM_ALLOW_CHATS"@),
    ) {
        Some(v) => list_items(split_on(v, ',')),
        None => Seq::empty(),
    }
    &&& opt_text(c.telegram_proxy) == first_present_value(
        plain_candidates(env, dotenv, "BUB_TELEGRAM_PROXY"@),
    )
}

/// The optional value of `key` in `m`, as a candidate.
fn candidate<'a>(m: &'a VarMap, key: &str) -> (r: Option<&'a String>)
    ensures
        match r {
            Some(v) => map_get(m@, key@) == Some(v@),
            None => map_get(m@, key@) is None,
        },
{
    m.get(key)
}

/// A setting with a profile-specific variable, resolved by precedence.
fn resolve_profiled(
    cli: &Option<String>,
    env_vars: &VarMap,
    dotenv_vars: &VarMap,
    token: &String,
    base: &str,
) -> (r: Option<String>)
    ensures
        opt_text(r) == first_present_value(
            profiled_candidates(opt_text(*cli), env_vars@, dotenv_vars@, token@, base@),
        ),
{
    let pk = profiled_key_exec(token, base);
    let values = vec![
        cli.as_ref(),
        candidate(env_vars, pk.as_str()),
        candidate(env_vars, base),
        candidate(dotenv_vars, pk.as_str()),
        candidate(dotenv_vars, base),
    ];
    assert(opt_refs(values@) =~= profiled_candidates(
        opt_text(*cli),
        env_vars@,
        dotenv_vars@,
        token@,
        base@,
    ));
    first_present(&values)
}

/// A setting read from the environment, then the dotenv file.
fn resolve_plain(env_vars: &VarMap, dotenv_vars: &VarMap, base: &str) -> (r: Option<String>)
    ensures
        opt_text(r) == first_present_value(plain_candidates(env_vars@, dotenv_vars@, base@)),
{
    let values = vec![candidate(env_vars, base), candidate(dotenv_vars, base)];
    assert(opt_refs(values@) =~= plain_candidates(env_vars@, dotenv_vars@, base@));
    first_present(&values)
}

/// Resolve the configuration with deterministic precedence: CLI flags, then profiled
/// environment variables, plain environment variables, profiled dotenv variables, plain
/// dotenv variables, and built-in defaults. The API key has no default.
pub fn resolve_config(
    profile: Option<&str>,
    cli_overrides: &CliConfigOverrides,
    env_vars: &VarMap,
    dotenv_vars: &VarMap,
) -> (r: Result<AppConfig, CrabClawError>)
    ensures
        match r {
            Ok(c) => resolves_to(
                c,
                match profile {
                    Some(p) => Some(p@),
                    None => None,
                },
                *cli_overrides,
                env_vars@,
                dotenv_vars@,
            ),
            Err(e) => resolved_api_key(
                match profile {
                    Some(p) => Some(p@),
                    None => None,
                },
                *cli_overrides,
                env_vars@,
                dotenv_vars@,
            ) is None && e == CrabClawError::Config(e->Config_0) && e->Config_0@
                == "missing OPENCLAW_API_KEY"@,
        },
{
    let ghost pv = match profile {
        Some(p) => Some(p@),
        None => None,
    };
    let raw = match profile {
        Some(p) => to_chars(p),
        None => to_chars("default"),
    };
    let name_chars = trim_chars(&raw);
    let profile_name = string_of(&name_chars);
    let token = normalize_profile_token(profile_name.as_str());
    assert(profile_name@ == profile_of(pv));
    let api_key = match resolve_profiled(
        &cli_overrides.api_key,
        env_vars,
        dotenv_vars,
        &token,
        "OPENCLAW_API_KEY",
    ) {
        Some(k) => k,
        None => {
            return Err(CrabClawError::Config(crate::text::string_from("missing OPENCLAW_API_KEY")));
        },
    };
    let api_base = match resolve_profiled(
        &cli_overrides.api_base,
        env_vars,
        dotenv_vars,
        &token,
        "OPENCLAW_BASE_URL",
    ) {
        Some(v) => v,
        None => crate::text::string_from("https://api.example.com"),
    };
    let model = match resolve_profiled(
        &cli_overrides.model,
        env_vars,
        dotenv_vars,
        &token,
        "CRABCLAW_MODEL",
    ) {
        Some(v) => v,
        None => crate::text::string_from("openclaw/default"),
    };
    let system_prompt = {
        let values = vec![
            cli_overrides.system_prompt.as_ref(),
            candidate(env_vars, "CRABCLAW_SYSTEM_PROMPT"),
            candidate(dotenv_vars, "CRABCLAW_SYSTEM_PROMPT"),
        ];
        assert(opt_refs(values@) =~= seq![opt_text(cli_overrides.system_prompt)] + plain_candidates(
            env_vars@,
            dotenv_vars@,
            "CRABCLAW_SYSTEM_PROMPT"@,
        ));
        first_present(&values)
    };
    let telegram_token = resolve_plain(env_vars, dotenv_vars, "BUB_TELEGRAM_TOKEN");
    let allow_from = resolve_plain(env_vars, dotenv_vars, "BUB_TELEGRAM_ALLOW_FROM");
    let telegram_allow_from = comma_list(allow_from);
    let allow_chats = resolve_plain(env_vars, dotenv_vars, "BUB_TELEGRAM_ALLOW_CHATS");
    let telegram_allow_chats = comma_list(allow_chats);
    let telegram_proxy = resolve_plain(env_vars, dotenv_vars, "BUB_TELEGRAM_PROXY");
    Ok(
        AppConfig {
            profile: profile_name,
            api_key,
            api_base,
            model,
            system_prompt,
            telegram_token,
            telegram_allow_from,
            telegram_allow_chats,
            telegram_proxy,
        },
    )
}


/// Precedence of settings: a non-blank value given on the command line wins over every
/// other source.
pub proof fn law_cli_value_wins(
    cli: Seq<char>,
    env: Map<Seq<char>, Seq<char>>,
    dotenv: Map<Seq<char>, Seq<char>>,
    token: Seq<char>,
    base: Seq<char>,
    default: Seq<char>,
)
    requires
        trim(cli).len() > 0,
    ensures
        resolved_with_default(Some(cli), env, dotenv, token, base, default) == trim(cli),
{
}

/// Precedence of settings: without a command-line value, the profile's own environment
/// variable wins over the plain one and over the dotenv file.
pub proof fn law_profile_env_beats_plain(
    env: Map<Seq<char>, Seq<char>>,
    dotenv: Map<Seq<char>, Seq<char>>,
    token: Seq<char>,
    base: Seq<char>,
    default: Seq<char>,
)
    requires
        env.dom().contains(profiled_key(token, base)),
        trim(env[profiled_key(token, base)]).len() > 0,
    ensures
        resolved_with_default(None, env, dotenv, token, base, default) == trim(env[profiled_key(token, base)]),
{
    reveal_with_fuel(first_present_value, 3);
    let c = profiled_candidates(None, env, dotenv, token, base);
    assert(c.drop_first()[0] == map_get(env, profiled_key(token, base)));
}

/// Precedence of settings: an environment variable wins over the dotenv file.
pub proof fn law_env_beats_dotenv(
    env: Map<Seq<char>, Seq<char>>,
    dotenv: Map<Seq<char>, Seq<char>>,
    token: Seq<char>,
    base: Seq<char>,
    default: Seq<char>,
)
    requires
        !env.dom().contains(profiled_key(token, base)),
        env.dom().contains(base),
        trim(env[base]).len() > 0,
    ensures
        resolved_with_default(None, env, dotenv, token, base, default) == trim(env[base]),
{
    reveal_with_fuel(first_present_value, 4);
    let c = profiled_candidates(None, env, dotenv, token, base);
    assert(c.drop_first()[0] is None);
    assert(c.drop_first().drop_first()[0] == map_get(env, base));
}

/// Precedence of settings: the built-in default applies when no source gives a value.
pub proof fn law_default_when_unset(
    env: Map<Seq<char>, Seq<char>>,
    dotenv: Map<Seq<char>, Seq<char>>,
    token: Seq<char>,
    base: Seq<char>,
    default: Seq<char>,
)
    requires
        !env.dom().contains(profiled_key(token, base)),
        !env.dom().contains(base),
        !dotenv.dom().contains(profiled_key(token, base)),
        !dotenv.dom().contains(base),
    ensures
        resolved_with_default(None, env, dotenv, token, base, default) == default,
{
    reveal_with_fuel(first_present_value, 7);
    let c = profiled_candidates(None, env, dotenv, token, base);
    assert(c.drop_first().drop_first().drop_first().drop_first().drop_first().len() == 0);
}

} // verus!

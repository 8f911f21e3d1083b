//! The tape: an append-only log of a session, with anchors that mark its boundaries.
//! This module keeps the entries and decides what is appended; writing them to the
//! session's file is done around it.
use vstd::prelude::*;

use crate::config::opt_text;
use crate::json::{field, text_of, Json};
use crate::text::{
    append_chars, append_str, contains, decimal, decimal_chars, find_seq, join, join_strings,
    occurs_at, slice_chars, str_eq, string_from, string_of, to_chars,
};

verus! {

/// A single entry of the tape.
#[derive(Debug)]
pub struct TapeEntry {
    pub id: u64,
    pub kind: String,
    pub payload: Json,
    pub timestamp: String,
}

/// The model of an entry: id, kind, payload and time stamp.
pub type EntryView = (u64, Seq<char>, Json, Seq<char>);

/// The model of an entry.
pub open spec fn entry_view(e: TapeEntry) -> EntryView {
    (e.id, e.kind@, e.payload, e.timestamp@)
}

/// The models of entries.
pub open spec fn entry_views(es: Seq<TapeEntry>) -> Seq<EntryView> {
    es.map_values(|e: TapeEntry| entry_view(e))
}

/// Summary information about the tape.
#[derive(Debug)]
pub struct TapeInfo {
    pub name: String,
    pub entries: usize,
    pub anchors: usize,
    pub last_anchor: Option<String>,
    pub entries_since_last_anchor: usize,
}

/// The model of a summary: name, number of entries, number of anchors, the name of the
/// last anchor, and the number of entries after it.
pub type InfoView = (Seq<char>, nat, nat, Option<Seq<char>>, nat);

impl View for TapeInfo {
    type V = InfoView;

    open spec fn view(&self) -> InfoView {
        (
            self.name@,
            self.entries as nat,
            self.anchors as nat,
            opt_text(self.last_anchor),
            self.entries_since_last_anchor as nat,
        )
    }
}

/// Whether an entry is an anchor.
pub open spec fn is_anchor(e: EntryView) -> bool {
    e.1 == "anchor"@
}

/// The number of anchors among entries.
pub open spec fn anchors_in(es: Seq<EntryView>) -> nat
    decreases es.len(),
{
    if es.len() == 0 {
        0
    } else {
        anchors_in(es.drop_last()) + if is_anchor(es.last()) {
            1nat
        } else {
            0nat
        }
    }
}

/// The last anchor among entries.
pub open spec fn last_anchor_in(es: Seq<EntryView>) -> Option<EntryView>
    decreases es.len(),
{
    if es.len() == 0 {
        None
    } else if is_anchor(es.last()) {
        Some(es.last())
    } else {
        last_anchor_in(es.drop_last())
    }
}

/// The number of entries whose id is greater than `id`.
pub open spec fn later_than(es: Seq<EntryView>, id: u64) -> nat
    decreases es.len(),
{
    if es.len() == 0 {
        0
    } else {
        later_than(es.drop_last(), id) + if es.last().0 > id {
            1nat
        } else {
            0nat
        }
    }
}

/// The summary of a tape named `name` with the entries `es`: the last anchor's name is
/// the `name` of its payload when that is a string; the entries after it are those with
/// a greater id, or all of them when there is no anchor.
pub open spec fn info_of(name: Seq<char>, es: Seq<EntryView>) -> InfoView {
    (
        name,
        es.len(),
        anchors_in(es),
        match last_anchor_in(es) {
            Some(a) => text_of(field(a.2, "name"@)),
            None => None,
        },
        match last_anchor_in(es) {
            Some(a) => later_than(es, a.0),
            None => es.len(),
        },
    )
}

/// The position just after the last anchor among entries; 0 when there is none.
pub open spec fn since_last_anchor(es: Seq<EntryView>) -> int
    decreases es.len(),
{
    if es.len() == 0 {
        0
    } else if is_anchor(es.last()) {
        es.len() as int
    } else {
        since_last_anchor(es.drop_last())
    }
}

/// The id the next entry gets after the entries `es` were read: one past the last id, or
/// 1 for an empty tape.
pub open spec fn next_id_after(es: Seq<EntryView>) -> int {
    if es.len() == 0 {
        1
    } else {
        es.last().0 + 1
    }
}

/// An append-only log of a session's events and messages.
pub struct TapeStore {
    name: String,
    entries: Vec<TapeEntry>,
    next_id: u64,
}

impl View for TapeStore {
    type V = (Seq<char>, Seq<EntryView>, u64);

    closed spec fn view(&self) -> (Seq<char>, Seq<EntryView>, u64) {
        (self.name@, entry_views(self.entries@), self.next_id)
    }
}

impl TapeStore {
    /// A tape named `name` holding the entries read back from its file.
    pub fn open_with(name: &str, entries: Vec<TapeEntry>) -> (r: TapeStore)
        requires
            entries@.len() > 0 ==> entries@.last().id < u64::MAX,
        ensures
            r@.0 == name@,
            r@.1 == entry_views(entries@),
            r@.2 == next_id_after(entry_views(entries@)),
    {
        let next_id: u64 = if entries.len() == 0 {
            1
        } else {
            entries[entries.len() - 1].id + 1
        };
        TapeStore { name: string_from(name), entries, next_id }
    }

    /// The tape's name.
    pub fn name(&self) -> (r: &str)
        ensures
            r@ == self@.0,
    {
        self.name.as_str()
    }

    /// All entries, in order.
    pub fn entries(&self) -> (r: &Vec<TapeEntry>)
        ensures
            entry_views(r@) == self@.1,
    {
        &self.entries
    }

    /// The entry that appending an event would add: the next id, the kind, the payload
    /// and the time stamp.
    pub fn next_entry(&self, kind: &str, payload: Json, timestamp: &str) -> (r: TapeEntry)
        ensures
            entry_view(r) == (self@.2, kind@, payload, timestamp@),
    {
        TapeEntry { id: self.next_id, kind: string_from(kind), payload, timestamp: string_from(timestamp) }
    }

    /// Records an entry that was written out; the next id follows its id.
    pub fn commit(&mut self, entry: TapeEntry)
        requires
            entry.id < u64::MAX,
        ensures
            final(self)@.0 == old(self)@.0,
            final(self)@.1 == old(self)@.1.push(entry_view(entry)),
            final(self)@.2 == entry.id + 1,
    {
        self.next_id = entry.id + 1;
        let ghost before = entry_views(self.entries@);
        self.entries.push(entry);
        assert(entry_views(self.entries@) =~= before.push(entry_view(entry)));
    }

    /// Empties the tape; ids start again from 1.
    pub fn clear(&mut self)
        ensures
            final(self)@.0 == old(self)@.0,
            final(self)@.1 == Seq::<EntryView>::empty(),
            final(self)@.2 == 1,
    {
        self.entries = Vec::new();
        self.next_id = 1;
        assert(entry_views(self.entries@) =~= Seq::<EntryView>::empty());
    }

    /// Whether the tape holds an anchor; a tape without one gets the bootstrap anchor.
    pub fn has_anchor(&self) -> (r: bool)
        ensures
            r == (anchors_in(self@.1) > 0),
    {
        let ghost es = entry_views(self.entries@);
        let mut i: usize = 0;
        while i < self.entries.len()
            invariant
                i <= self.entries.len(),
                es == entry_views(self.entries@),
                anchors_in(es.take(i as int)) == 0,
            decreases self.entries.len() - i,
        {
            assert(es.take(i + 1).drop_last() =~= es.take(i as int));
            if str_eq(self.entries[i].kind.as_str(), "anchor") {
                proof {
                    lemma_anchor_counted(es, i as int);
                }
                return true;
            }
            i += 1;
        }
        assert(es.take(self.entries.len() as int) =~= es);
        false
    }

    /// Where the entries since the last anchor begin: just after that anchor, or at the
    /// start when there is none.
    pub fn since_last_anchor_start(&self) -> (r: usize)
        ensures
            r == since_last_anchor(self@.1),
            r <= self@.1.len(),
    {
        let ghost es = entry_views(self.entries@);
        let mut i: usize = self.entries.len();
        assert(es.take(i as int) =~= es);
        while i > 0
            invariant
                i <= self.entries.len(),
                es == entry_views(self.entries@),
                since_last_anchor(es) == since_last_anchor(es.take(i as int)),
            decreases i,
        {
            assert(es.take(i as int).drop_last() =~= es.take(i - 1));
            assert(es.take(i as int).last() == entry_view(self.entries@[i - 1]));
            if str_eq(self.entries[i - 1].kind.as_str(), "anchor") {
                return i;
            }
            i -= 1;
        }
        0
    }

    /// Summary information about the tape.
    pub fn info(&self) -> (r: TapeInfo)
        ensures
            r@ == info_of(self@.0, self@.1),
    {
        let ghost es = entry_views(self.entries@);
        let mut anchors: usize = 0;
        let mut last: Option<usize> = None;
        let mut i: usize = 0;
        while i < self.entries.len()
            invariant
                i <= self.entries.len(),
                es == entry_views(self.entries@),
                anchors == anchors_in(es.take(i as int)),
                anchors <= i,
                match last {
                    Some(k) => k < i && last_anchor_in(es.take(i as int)) == Some(es[k as int]),
                    None => last_anchor_in(es.take(i as int)) is None,
                },
            decreases self.entries.len() - i,
        {
            assert(es.take(i + 1).drop_last() =~= es.take(i as int));
            assert(es.take(i + 1).last() == es[i as int]);
            if str_eq(self.entries[i].kind.as_str(), "anchor") {
                anchors = anchors + 1;
                last = Some(i);
            }
            i += 1;
        }
        assert(es.take(self.entries.len() as int) =~= es);
        let (last_anchor, since): (Option<String>, usize) = match last {
            Some(k) => {
                let a = &self.entries[k];
                let name = match a.payload.get("name") {
                    Some(n) => match n.as_str() {
                        Some(t) => Some(string_from(t)),
                        None => None,
                    },
                    None => None,
                };
                let mut count: usize = 0;
                let mut j: usize = 0;
                while j < self.entries.len()
                    invariant
                        j <= self.entries.len(),
                        es == entry_views(self.entries@),
                        count == later_than(es.take(j as int), a.id),
                        count <= j,
                    decreases self.entries.len() - j,
                {
                    assert(es.take(j + 1).drop_last() =~= es.take(j as int));
                    if self.entries[j].id > a.id {
                        count = count + 1;
                    }
                    j += 1;
                }
                assert(es.take(self.entries.len() as int) =~= es);
                (name, count)
            },
            None => (None, self.entries.len()),
        };
        TapeInfo {
            name: string_from(self.name.as_str()),
            entries: self.entries.len(),
            anchors,
            last_anchor,
            entries_since_last_anchor: since,
        }
    }
}

/// An anchor in a prefix is counted in the whole.
proof fn lemma_anchor_counted(es: Seq<EntryView>, i: int)
    requires
        0 <= i < es.len(),
        is_anchor(es[i]),
    ensures
        anchors_in(es) > 0,
    decreases es.len(),
{
    if es.len() > i + 1 {
        assert(es.drop_last()[i] == es[i]);
        lemma_anchor_counted(es.drop_last(), i);
    }
}

/// Whether `j` is the object with exactly the string members `k1` and `k2`, in order.
pub open spec fn is_text_pair(j: Json, k1: Seq<char>, v1: Seq<char>, k2: Seq<char>, v2: Seq<char>) -> bool {
    j matches Json::Object(fs) && fs@.len() == 2 && fs@[0].0@ == k1 && (fs@[0].1 matches Json::Str(a) && a@
        == v1) && fs@[1].0@ == k2 && (fs@[1].1 matches Json::Str(b) && b@ == v2)
}

/// The payload of a message entry: `{"role": role, "content": content}`.
pub fn message_payload(role: &str, content: &str) -> (r: Json)
    ensures
        is_text_pair(r, "role"@, role@, "content"@, content@),
{
    let mut fs: Vec<(String, Json)> = Vec::new();
    fs.push((string_from("role"), Json::Str(string_from(role))));
    fs.push((string_from("content"), Json::Str(string_from(content))));
    Json::Object(fs)
}

/// The payload of an anchor entry: `{"name": name, "state": state}`.
pub fn anchor_payload(name: &str, state: Json) -> (r: Json)
    ensures
        r matches Json::Object(fs) && fs@.len() == 2 && fs@[0].0@ == "name"@ && (fs@[0].1 matches Json::Str(n)
            && n@ == name@) && fs@[1].0@ == "state"@ && fs@[1].1 == state,
{
    let mut fs: Vec<(String, Json)> = Vec::new();
    fs.push((string_from("name"), Json::Str(string_from(name))));
    fs.push((string_from("state"), state));
    Json::Object(fs)
}

/// The state of the bootstrap anchor `session/start`: `{"owner": "human"}`.
pub fn bootstrap_state() -> (r: Json)
    ensures
        r matches Json::Object(fs) && fs@.len() == 1 && fs@[0].0@ == "owner"@ && (fs@[0].1 matches Json::Str(
            o,
        ) && o@ == "human"@),
{
    let mut fs: Vec<(String, Json)> = Vec::new();
    fs.push((string_from("owner"), Json::Str(string_from("human"))));
    Json::Object(fs)
}

/// The state of a handoff anchor: `{"owner": "human", "type": "handoff", "entries_before":
/// n, "previous_anchor": name or null}`.
pub fn handoff_state(entries_before: usize, previous_anchor: Option<String>) -> (r: Json)
    ensures
        r matches Json::Object(fs) && fs@.len() == 4
            && fs@[0].0@ == "owner"@ && (fs@[0].1 matches Json::Str(o) && o@ == "human"@)
            && fs@[1].0@ == "type"@ && (fs@[1].1 matches Json::Str(k) && k@ == "handoff"@)
            && fs@[2].0@ == "entries_before"@ && fs@[2].1 == Json::Number(Some(entries_before as u64))
            && fs@[3].0@ == "previous_anchor"@ && match previous_anchor {
                Some(a) => fs@[3].1 matches Json::Str(s) && s@ == a@,
                None => fs@[3].1 == Json::Null,
            },
{
    let mut fs: Vec<(String, Json)> = Vec::new();
    fs.push((string_from("owner"), Json::Str(string_from("human"))));
    fs.push((string_from("type"), Json::Str(string_from("handoff"))));
    fs.push((string_from("entries_before"), Json::Number(Some(entries_before as u64))));
    let prev = match previous_anchor {
        Some(a) => Json::Str(a),
        None => Json::Null,
    };
    fs.push((string_from("previous_anchor"), prev));
    Json::Object(fs)
}

/// The reply of the `tape.info` tool.
pub open spec fn tape_info_text(info: InfoView) -> Seq<char> {
    "Tape: "@ + info.0 + "\nEntries: "@ + decimal(info.1) + "\nAnchors: "@ + decimal(info.2) + "\nLast anchor: "@
        + match info.3 {
        Some(a) => a,
        None => "none"@,
    }
}

/// The reply of the `tape.info` tool for a summary.
pub fn tape_info_reply(info: &TapeInfo) -> (r: String)
    ensures
        r@ == tape_info_text(info@),
{
    let mut v: Vec<char> = Vec::new();
    append_str(&mut v, "Tape: ");
    append_str(&mut v, info.name.as_str());
    append_str(&mut v, "\nEntries: ");
    let e = decimal_chars(info.entries as u64);
    append_chars(&mut v, &e);
    append_str(&mut v, "\nAnchors: ");
    let a = decimal_chars(info.anchors as u64);
    append_chars(&mut v, &a);
    append_str(&mut v, "\nLast anchor: ");
    match &info.last_anchor {
        Some(l) => append_str(&mut v, l.as_str()),
        None => append_str(&mut v, "none"),
    }
    string_of(&v)
}


/// The summary's counts never exceed the number of entries.
pub proof fn law_info_counts_bounded(name: Seq<char>, es: Seq<EntryView>)
    ensures
        info_of(name, es).2 <= es.len(),
        info_of(name, es).4 <= es.len(),
    decreases es.len(),
{
    lemma_anchors_bounded(es);
    match last_anchor_in(es) {
        Some(a) => lemma_later_bounded(es, a.0),
        None => {},
    }
}

proof fn lemma_anchors_bounded(es: Seq<EntryView>)
    ensures
        anchors_in(es) <= es.len(),
    decreases es.len(),
{
    if es.len() > 0 {
        lemma_anchors_bounded(es.drop_last());
    }
}

proof fn lemma_later_bounded(es: Seq<EntryView>, id: u64)
    ensures
        later_than(es, id) <= es.len(),
    decreases es.len(),
{
    if es.len() > 0 {
        lemma_later_bounded(es.drop_last(), id);
    }
}

/// After an anchor is appended the tape has an anchor, so the bootstrap anchor is added
/// at most once; and that anchor is the last one.
pub proof fn law_appended_anchor_is_last(es: Seq<EntryView>, e: EntryView)
    requires
        is_anchor(e),
    ensures
        anchors_in(es.push(e)) == anchors_in(es) + 1,
        anchors_in(es.push(e)) > 0,
        last_anchor_in(es.push(e)) == Some(e),
{
    assert(es.push(e).drop_last() =~= es);
}

/// Appending an entry that is not an anchor keeps the last anchor, and counts one more
/// entry after it when its id is greater.
pub proof fn law_appended_entry_after_anchor(es: Seq<EntryView>, e: EntryView)
    requires
        !is_anchor(e),
    ensures
        anchors_in(es.push(e)) == anchors_in(es),
        last_anchor_in(es.push(e)) == last_anchor_in(es),
        last_anchor_in(es) matches Some(a) ==> later_than(es.push(e), a.0) == later_than(es, a.0) + (if e.0 > a.0 {
            1nat
        } else {
            0nat
        }),
{
    assert(es.push(e).drop_last() =~= es);
}

/// The context starts right after the last anchor: no entry from there on is an anchor,
/// and the entry just before it, when there is one, is an anchor.
pub proof fn law_context_starts_after_last_anchor(es: Seq<EntryView>)
    ensures
        0 <= since_last_anchor(es) <= es.len(),
        forall|i: int| since_last_anchor(es) <= i < es.len() ==> #[trigger] es[i].1 != "anchor"@,
        since_last_anchor(es) > 0 ==> es[since_last_anchor(es) - 1].1 == "anchor"@,
    decreases es.len(),
{
    if es.len() > 0 && !is_anchor(es.last()) {
        law_context_starts_after_last_anchor(es.drop_last());
        assert forall|i: int| since_last_anchor(es) <= i < es.len() implies #[trigger] es[i].1
            != "anchor"@ by {
            if i < es.len() - 1 {
                assert(es[i] == es.drop_last()[i]);
            }
        }
        if since_last_anchor(es) > 0 {
            assert(es[since_last_anchor(es) - 1] == es.drop_last()[since_last_anchor(es) - 1]);
        }
    }
}

/// Appending an anchor empties the context: it starts after the new anchor, whatever came
/// before.
pub proof fn law_anchor_resets_context(es: Seq<EntryView>, e: EntryView)
    requires
        e.1 == "anchor"@,
    ensures
        since_last_anchor(es.push(e)) == es.len() + 1,
{
    law_context_starts_after_last_anchor(es.push(e));
    assert(es.push(e)[es.len() as int] == e);
}

/// The name an anchor is listed under: the `name` string of its payload, else `unnamed`.
pub open spec fn anchor_name(e: EntryView) -> Seq<char> {
    match text_of(field(e.2, "name"@)) {
        Some(n) => n,
        None => "unnamed"@,
    }
}

/// The row that lists an anchor: its id, time stamp and name.
pub open spec fn anchor_row(e: EntryView) -> Seq<char> {
    "  #"@ + decimal(e.0 as nat) + " ["@ + e.3 + "] "@ + anchor_name(e)
}

/// The rows of the anchors among entries, in order.
pub open spec fn anchor_rows(es: Seq<EntryView>) -> Seq<Seq<char>>
    decreases es.len(),
{
    if es.len() == 0 {
        Seq::empty()
    } else if is_anchor(es.last()) {
        anchor_rows(es.drop_last()).push(anchor_row(es.last()))
    } else {
        anchor_rows(es.drop_last())
    }
}

/// The listing of the anchors among entries, with their number; a note when there is none.
pub open spec fn anchor_listing_text(es: Seq<EntryView>) -> Seq<char> {
    let rows = anchor_rows(es);
    if rows.len() == 0 {
        "No anchors in tape."@
    } else {
        "Anchors ("@ + decimal(rows.len()) + "):\n"@ + join(rows, "\n"@)
    }
}

/// What of a payload's JSON text a search result shows: its first 80 characters.
pub open spec fn preview(text: Seq<char>) -> Seq<char> {
    if text.len() <= 80 {
        text
    } else {
        text.take(80)
    }
}

/// The row of an entry found by a search, given the JSON text of its payload.
pub open spec fn search_hit_row(e: EntryView, payload_text: Seq<char>) -> Seq<char> {
    "  ["@ + e.3 + "] "@ + e.1 + " #"@ + decimal(e.0 as nat) + ": "@ + preview(payload_text)
}

/// Whether a search for `query` finds an entry whose payload's JSON text is
/// `payload_text`: the query occurs in it, ignoring case.
pub open spec fn payload_matches_text(payload_text: Seq<char>, query: Seq<char>) -> bool {
    contains(crate::web::lowercase(payload_text), crate::web::lowercase(query))
}

/// The reply of a search for `query` with the rows of the entries it found.
pub open spec fn search_listing_text(query: Seq<char>, rows: Seq<Seq<char>>) -> Seq<char> {
    if rows.len() == 0 {
        "No entries matching '"@ + query + "'."@
    } else {
        "Found "@ + decimal(rows.len()) + " match(es) for '"@ + query + "':\n"@ + join(rows, "\n"@)
    }
}

/// Whether a search for `query` finds an entry whose payload's JSON text is `payload_text`.
pub fn payload_matches(payload_text: &str, query: &str) -> (r: bool)
    ensures
        r == payload_matches_text(payload_text@, query@),
{
    let lt = crate::web::str_to_lowercase(payload_text);
    let lq = crate::web::str_to_lowercase(query);
    let tv = to_chars(lt.as_str());
    let qv = to_chars(lq.as_str());
    match find_seq(&tv, &qv, 0) {
        Some(_) => true,
        None => {
            proof {
                if contains(tv@, qv@) {
                    let i = choose|i: int| occurs_at(tv@, qv@, i);
                    crate::file_ops::lemma_first_match_finds(tv@, qv@, 0, i);
                }
            }
            false
        },
    }
}

/// The row of an entry found by a search, given the JSON text of its payload.
pub fn search_hit(entry: &TapeEntry, payload_text: &str) -> (r: String)
    ensures
        r@ == search_hit_row(entry_view(*entry), payload_text@),
{
    let mut v: Vec<char> = Vec::new();
    append_str(&mut v, "  [");
    append_str(&mut v, entry.timestamp.as_str());
    append_str(&mut v, "] ");
    append_str(&mut v, entry.kind.as_str());
    append_str(&mut v, " #");
    let d = decimal_chars(entry.id);
    append_chars(&mut v, &d);
    append_str(&mut v, ": ");
    let p = to_chars(payload_text);
    let n: usize = if p.len() <= 80 {
        p.len()
    } else {
        80
    };
    let shown = slice_chars(&p, 0, n);
    assert(shown@ =~= preview(payload_text@));
    append_chars(&mut v, &shown);
    string_of(&v)
}

/// The reply of a search for `query` with the rows of the entries it found.
pub fn search_listing(query: &str, rows: &Vec<String>) -> (r: String)
    ensures
        r@ == search_listing_text(query@, crate::command::texts(rows@)),
{
    let mut v: Vec<char> = Vec::new();
    if rows.len() == 0 {
        append_str(&mut v, "No entries matching '");
        append_str(&mut v, query);
        append_str(&mut v, "'.");
        return string_of(&v);
    }
    append_str(&mut v, "Found ");
    let d = decimal_chars(rows.len() as u64);
    append_chars(&mut v, &d);
    append_str(&mut v, " match(es) for '");
    append_str(&mut v, query);
    append_str(&mut v, "':\n");
    let body = join_strings(rows, "\n");
    append_str(&mut v, body.as_str());
    string_of(&v)
}

impl TapeStore {
    /// The listing of the tape's anchors (see `anchor_listing_text`).
    pub fn anchor_listing(&self) -> (r: String)
        ensures
            r@ == anchor_listing_text(self@.1),
    {
        let ghost es = entry_views(self.entries@);
        let mut rows: Vec<String> = Vec::new();
        let mut i: usize = 0;
        while i < self.entries.len()
            invariant
                i <= self.entries.len(),
                es == entry_views(self.entries@),
                crate::command::texts(rows@) == anchor_rows(es.take(i as int)),
            decreases self.entries.len() - i,
        {
            assert(es.take(i + 1).drop_last() =~= es.take(i as int));
            assert(es.take(i + 1).last() == es[i as int]);
            let e = &self.entries[i];
            if str_eq(e.kind.as_str(), "anchor") {
                let mut v: Vec<char> = Vec::new();
                append_str(&mut v, "  #");
                let d = decimal_chars(e.id);
                append_chars(&mut v, &d);
                append_str(&mut v, " [");
                append_str(&mut v, e.timestamp.as_str());
                append_str(&mut v, "] ");
                match crate::json::str_field(&e.payload, "name") {
                    Some(n) => append_str(&mut v, n.as_str()),
                    None => append_str(&mut v, "unnamed"),
                }
                let ghost before = crate::command::texts(rows@);
                rows.push(string_of(&v));
                assert(crate::command::texts(rows@) =~= before.push(v@));
            }
            i += 1;
        }
        assert(es.take(self.entries.len() as int) =~= es);
        let mut out: Vec<char> = Vec::new();
        if rows.len() == 0 {
            append_str(&mut out, "No anchors in tape.");
        } else {
            append_str(&mut out, "Anchors (");
            let d = decimal_chars(rows.len() as u64);
            append_chars(&mut out, &d);
            append_str(&mut out, "):\n");
            let body = join_strings(&rows, "\n");
            append_str(&mut out, body.as_str());
        }
        string_of(&out)
    }
}

} // verus!

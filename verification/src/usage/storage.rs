//! Usage records of a project: run counts and last run times, and the most
//! used commands.
use crate::script::discovery::ScriptType;
use crate::script::parser::{function_views, FunctionView, ScriptFunction};
use crate::ui::pty_runner::ExecutionStatus;
use crate::sort::{item_views, lemma_stable_sort, sort_stable, stable_sort, SortKey};
use crate::text::{chars_eq, push_char, to_chars};
use vstd::prelude::*;
use vstd::std_specs::hash::DefaultHasherAdditionalSpecFns;
use vstd::string::StringSliceAdditionalSpecFns;
use std::hash::Hasher;

verus! {

/// How many frequently used commands are shown.
pub const MAX_FREQUENT_COMMANDS: usize = 5;

/// The category that lists the frequently used commands.
pub const FREQUENTLY_USED_CATEGORY: &'static str = "⭐ Frequently Used";

/// A point in time: seconds since the Unix epoch and nanoseconds within
/// the second.
#[derive(Debug, Clone, Copy, PartialEq, Eq, Structural)]
pub struct Timestamp {
    pub secs: i64,
    pub nanos: u32,
}

/// How often one command was run.
#[derive(Debug, Clone)]
pub struct UsageEntry {
    pub function_name: String,
    pub script_type: ScriptType,
    pub category: String,
    /// Number of runs.
    pub count: u64,
    /// When it was last run.
    pub last_used: Timestamp,
}

/// The plain-value form of a [`UsageEntry`].
pub struct UsageEntryView {
    pub function_name: Seq<char>,
    pub script_type: ScriptType,
    pub category: Seq<char>,
    pub count: u64,
    pub last_used: Timestamp,
}

impl View for UsageEntry {
    type V = UsageEntryView;

    open spec fn view(&self) -> UsageEntryView {
        UsageEntryView {
            function_name: self.function_name@,
            script_type: self.script_type,
            category: self.category@,
            count: self.count,
            last_used: self.last_used,
        }
    }
}

impl UsageEntry {
    pub fn copy(&self) -> (r: UsageEntry)
        ensures
            r@ == self@,
    {
        UsageEntry {
            function_name: self.function_name.clone(),
            script_type: self.script_type,
            category: self.category.clone(),
            count: self.count,
            last_used: self.last_used,
        }
    }
}

impl SortKey for UsageEntry {
    /// More runs first.
    open spec fn key_lt(a: UsageEntryView, b: UsageEntryView) -> bool {
        a.count > b.count
    }

    proof fn lemma_key_lt_trans(a: UsageEntryView, b: UsageEntryView, c: UsageEntryView) {
    }

    proof fn lemma_key_lt_irrefl(a: UsageEntryView) {
    }

    fn exec_key_lt(&self, other: &Self) -> (r: bool) {
        self.count > other.count
    }
}

/// The usage records of one project, one entry per command name.
#[derive(Debug, Clone)]
pub struct ProjectUsage {
    pub project_path: String,
    pub entries: Vec<UsageEntry>,
}

pub open spec fn entry_views(v: Seq<UsageEntry>) -> Seq<UsageEntryView> {
    v.map_values(|e: UsageEntry| e@)
}

/// No command name has two entries.
pub open spec fn names_distinct(es: Seq<UsageEntryView>) -> bool {
    forall|i: int, j: int| 0 <= i < j < es.len() ==> es[i].function_name != es[j].function_name
}

/// The index of the entry for `name` (the length if there is none).
pub open spec fn entry_index(es: Seq<UsageEntryView>, name: Seq<char>, i: int) -> int
    decreases es.len() - i,
{
    if 0 <= i < es.len() && es[i].function_name != name {
        entry_index(es, name, i + 1)
    } else {
        i
    }
}

/// The records after a run of `name` at time `now`: its count goes up by
/// one (from zero for a new command, added at the end), and its kind,
/// category and last run time are set.
pub open spec fn recorded(es: Seq<UsageEntryView>, name: Seq<char>, t: ScriptType, category: Seq<char>, now: Timestamp) -> Seq<UsageEntryView> {
    let k = entry_index(es, name, 0);
    if k < es.len() {
        es.update(
            k,
            UsageEntryView { function_name: name, script_type: t, category: category, count: (es[k].count + 1) as u64, last_used: now },
        )
    } else {
        es.push(UsageEntryView { function_name: name, script_type: t, category: category, count: 1, last_used: now })
    }
}

/// The `limit` most run commands, most runs first (those with equal counts
/// in the order they were first recorded).
pub open spec fn frequent(es: Seq<UsageEntryView>, limit: int) -> Seq<UsageEntryView> {
    let s = stable_sort::<UsageEntry>(es);
    if limit < s.len() {
        s.take(limit)
    } else {
        s
    }
}

proof fn lemma_entry_index(es: Seq<UsageEntryView>, name: Seq<char>, i: int)
    requires
        0 <= i <= es.len(),
    ensures
        i <= entry_index(es, name, i) <= es.len(),
        forall|k: int| i <= k < entry_index(es, name, i) ==> es[k].function_name != name,
        entry_index(es, name, i) < es.len() ==> es[entry_index(es, name, i)].function_name == name,
    decreases es.len() - i,
{
    if i < es.len() && es[i].function_name != name {
        lemma_entry_index(es, name, i + 1);
    }
}

fn text_eq(a: &str, b: &str) -> (r: bool)
    ensures
        r == (a@ == b@),
{
    let x = to_chars(a);
    let y = to_chars(b);
    chars_eq(x.as_slice(), y.as_slice())
}

impl ProjectUsage {
    /// No records yet.
    pub fn new(project_path: String) -> (r: ProjectUsage)
        ensures
            r.project_path@ == project_path@,
            r.entries@.len() == 0,
    {
        ProjectUsage { project_path, entries: Vec::new() }
    }

    fn find(&self, name: &str) -> (r: usize)
        ensures
            r == entry_index(entry_views(self.entries@), name@, 0),
    {
        let ghost es = entry_views(self.entries@);
        let mut i: usize = 0;
        while i < self.entries.len() && !text_eq(self.entries[i].function_name.as_str(), name)
            invariant
                i <= self.entries@.len(),
                es == entry_views(self.entries@),
                entry_index(es, name@, 0) == entry_index(es, name@, i as int),
            decreases self.entries.len() - i,
        {
            assert(es[i as int] == self.entries@[i as int]@);
            i = i + 1;
        }
        proof {
            if i < self.entries@.len() {
                assert(es[i as int] == self.entries@[i as int]@);
            }
        }
        i
    }

    /// Whether a run of `function_name` can be counted: its count, when it
    /// has an entry, is below the largest `u64`.
    pub fn can_record(&self, function_name: &str) -> (r: bool)
        ensures
            r == (entry_index(entry_views(self.entries@), function_name@, 0) < self.entries@.len()
                ==> entry_views(self.entries@)[entry_index(entry_views(self.entries@), function_name@, 0)].count
                < u64::MAX),
    {
        let ghost es = entry_views(self.entries@);
        proof {
            lemma_entry_index(es, function_name@, 0);
        }
        let k = self.find(function_name);
        if k < self.entries.len() {
            assert(es[k as int] == self.entries@[k as int]@);
            self.entries[k].count < u64::MAX
        } else {
            true
        }
    }

    /// Records a run of `function_name` at time `now`.
    pub fn record_usage_at(&mut self, function_name: &str, script_type: ScriptType, category: &str, now: Timestamp)
        requires
            entry_index(entry_views(old(self).entries@), function_name@, 0) < old(self).entries@.len() ==> entry_views(
                old(self).entries@,
            )[entry_index(entry_views(old(self).entries@), function_name@, 0)].count < u64::MAX,
        ensures
            final(self).project_path@ == old(self).project_path@,
            entry_views(final(self).entries@) == recorded(
                entry_views(old(self).entries@),
                function_name@,
                script_type,
                category@,
                now,
            ),
    {
        let ghost es = entry_views(self.entries@);
        proof {
            lemma_entry_index(es, function_name@, 0);
        }
        let k = self.find(function_name);
        if k < self.entries.len() {
            let count = self.entries[k].count;
            assert(es[k as int] == self.entries@[k as int]@);
            let e = UsageEntry {
                function_name: String::from_str(function_name),
                script_type,
                category: String::from_str(category),
                count: count + 1,
                last_used: now,
            };
            self.entries.set(k, e);
            assert(entry_views(self.entries@) =~= recorded(es, function_name@, script_type, category@, now));
        } else {
            let e = UsageEntry {
                function_name: String::from_str(function_name),
                script_type,
                category: String::from_str(category),
                count: 1,
                last_used: now,
            };
            self.entries.push(e);
            assert(entry_views(self.entries@) =~= recorded(es, function_name@, script_type, category@, now));
        }
    }

    /// Counts a run of `function_name` that finished at time `now`: only a
    /// run that succeeded is recorded; says whether it was.
    pub fn record_finished_run(
        &mut self,
        function_name: &str,
        script_type: ScriptType,
        category: &str,
        status: ExecutionStatus,
        now: Timestamp,
    ) -> (counted: bool)
        requires
            status == ExecutionStatus::Succeeded ==> (entry_index(entry_views(old(self).entries@), function_name@, 0)
                < old(self).entries@.len() ==> entry_views(old(self).entries@)[entry_index(
                entry_views(old(self).entries@),
                function_name@,
                0,
            )].count < u64::MAX),
        ensures
            counted == (status == ExecutionStatus::Succeeded),
            final(self).project_path@ == old(self).project_path@,
            counted ==> entry_views(final(self).entries@) == recorded(
                    entry_views(old(self).entries@),
                    function_name@,
                    script_type,
                    category@,
                    now,
                ),
            !counted ==> entry_views(final(self).entries@) == entry_views(old(self).entries@),
    {
        if status == ExecutionStatus::Succeeded {
            self.record_usage_at(function_name, script_type, category, now);
            true
        } else {
            false
        }
    }

    /// The `limit` most run commands, most runs first.
    pub fn get_frequent(&self, limit: usize) -> (r: Vec<UsageEntry>)
        ensures
            entry_views(r@) == frequent(entry_views(self.entries@), limit as int),
    {
        let mut copies: Vec<UsageEntry> = Vec::new();
        let mut i: usize = 0;
        while i < self.entries.len()
            invariant
                i <= self.entries@.len(),
                entry_views(copies@) == entry_views(self.entries@).take(i as int),
            decreases self.entries.len() - i,
        {
            let ghost before = entry_views(copies@);
            copies.push(self.entries[i].copy());
            assert(entry_views(copies@) =~= before.push(self.entries@[i as int]@));
            assert(entry_views(self.entries@).take(i + 1) =~= entry_views(self.entries@).take(i as int).push(
                self.entries@[i as int]@,
            ));
            i = i + 1;
        }
        assert(entry_views(self.entries@).take(self.entries@.len() as int) =~= entry_views(self.entries@));
        let mut sorted = sort_stable(copies);
        assert(item_views::<UsageEntry>(sorted@) =~= entry_views(sorted@));
        assert(item_views::<UsageEntry>(copies@) =~= entry_views(copies@));
        if limit < sorted.len() {
            sorted.truncate(limit);
            assert(entry_views(sorted@) =~= frequent(entry_views(self.entries@), limit as int));
        }
        sorted
    }
}

/// Recording a run keeps one entry per command name, and the command's
/// count is one more than before (one for a new command).
pub proof fn lemma_recorded(es: Seq<UsageEntryView>, name: Seq<char>, t: ScriptType, category: Seq<char>, now: Timestamp)
    requires
        names_distinct(es),
        entry_index(es, name, 0) < es.len() ==> es[entry_index(es, name, 0)].count < u64::MAX,
    ensures
        names_distinct(recorded(es, name, t, category, now)),
        ({
            let r = recorded(es, name, t, category, now);
            let k = entry_index(r, name, 0);
            &&& k < r.len()
            &&& r[k].count == if entry_index(es, name, 0) < es.len() {
                es[entry_index(es, name, 0)].count + 1
            } else {
                1
            }
        }),
{
    lemma_entry_index(es, name, 0);
    let r = recorded(es, name, t, category, now);
    let k0 = entry_index(es, name, 0);
    lemma_entry_index(r, name, 0);
    if k0 < es.len() {
        assert(r[k0].function_name == name);
        if entry_index(r, name, 0) < k0 {
            assert(r[entry_index(r, name, 0)] == es[entry_index(r, name, 0)]);
        }
    } else {
        assert(r[es.len() as int].function_name == name);
        if entry_index(r, name, 0) < es.len() {
            assert(r[entry_index(r, name, 0)] == es[entry_index(r, name, 0)]);
        }
    }
}

/// The frequently used commands are the most run ones, most runs first:
/// `limit` of them (all when there are fewer), each a recorded entry, and
/// no command left out run more often than one that is listed.
pub proof fn lemma_frequent(es: Seq<UsageEntryView>, limit: int)
    requires
        0 <= limit,
    ensures
        frequent(es, limit).len() == if limit < es.len() {
            limit
        } else {
            es.len() as int
        },
        forall|i: int, j: int|
            0 <= i < j < frequent(es, limit).len() ==> frequent(es, limit)[i].count >= frequent(es, limit)[j].count,
        forall|i: int| 0 <= i < frequent(es, limit).len() ==> es.contains(#[trigger] frequent(es, limit)[i]),
        forall|i: int, k: int|
            0 <= i < frequent(es, limit).len() <= k < es.len() ==> (#[trigger] stable_sort::<UsageEntry>(
                es,
            )[k]).count <= (#[trigger] frequent(es, limit)[i]).count,
{
    broadcast use vstd::seq_lib::group_to_multiset_ensures;

    let s = stable_sort::<UsageEntry>(es);
    lemma_stable_sort::<UsageEntry>(es);
    let f = frequent(es, limit);
    assert forall|i: int, j: int| 0 <= i < j < f.len() implies f[i].count >= f[j].count by {
        assert(f[i] == s[i] && f[j] == s[j]);
        assert(!UsageEntry::key_lt(s[j], s[i]));
    }
    assert forall|i: int| 0 <= i < f.len() implies es.contains(#[trigger] f[i]) by {
        assert(f[i] == s[i]);
        assert(s.contains(s[i]));
        assert(s.to_multiset().count(s[i]) > 0);
        assert(es.to_multiset().count(s[i]) > 0);
    }
    assert forall|i: int, k: int| 0 <= i < f.len() <= k < es.len() implies (#[trigger] s[k]).count <= (
    #[trigger] f[i]).count by {
        assert(f[i] == s[i]);
        assert(!UsageEntry::key_lt(s[k], s[i]));
    }
}

/// The hash of a project path from which its usage file is named: std's
/// default hasher fed the path's bytes and the `0xff` that ends a `str`,
/// then finished. std leaves the hasher's algorithm unspecified, so the
/// value is stated over what vstd names `spec_finish`.
pub fn simple_hash(s: &str) -> (h: u64)
    ensures
        h == std::collections::hash_map::DefaultHasher::spec_finish(seq![s.spec_bytes(), seq![0xffu8]]),
{
    let mut hasher = std::collections::hash_map::DefaultHasher::new();
    hasher.write(s.as_bytes());
    let end: Vec<u8> = vec![0xffu8];
    hasher.write(end.as_slice());
    assert(end@ =~= seq![0xffu8]);
    assert(hasher@ =~= seq![s.spec_bytes(), seq![0xffu8]]);
    hasher.finish()
}

/// The lowercase hexadecimal digit for `d` (below 16).
pub open spec fn hex_char(d: nat) -> char {
    if d < 10 {
        (d + 48) as char
    } else {
        (d + 87) as char
    }
}

/// The last `n` hexadecimal digits of `h`, with leading zeros.
pub open spec fn hex_digits(h: nat, n: nat) -> Seq<char>
    decreases n,
{
    if n == 0 {
        Seq::empty()
    } else {
        hex_digits(h / 16, (n - 1) as nat).push(hex_char(h % 16))
    }
}

fn hex_char_exec(d: u64) -> (r: char)
    requires
        d < 16,
    ensures
        r == hex_char(d as nat),
{
    let b = d as u8;
    if b < 10 {
        (b + 48) as char
    } else {
        (b + 87) as char
    }
}

/// The name of a project's usage file: the hash as 16 lowercase hexadecimal
/// digits, then `.json`.
pub fn usage_file_name(hash: u64) -> (r: String)
    ensures
        r@ == hex_digits(hash as nat, 16) + ".json"@,
{
    let mut digits: Vec<char> = Vec::new();
    let mut v = hash;
    let mut i: u64 = 0;
    while i < 16
        invariant
            i <= 16,
            hex_digits(hash as nat, 16) == hex_digits(v as nat, (16 - i) as nat) + digits@,
        decreases 16 - i,
    {
        let d = hex_char_exec(v % 16);
        let ghost old_digits = digits@;
        digits.insert(0, d);
        assert(hex_digits(v as nat, (16 - i) as nat) == hex_digits((v / 16) as nat, (16 - i - 1) as nat).push(
            hex_char((v % 16) as nat),
        ));
        assert(hex_digits((v / 16) as nat, (16 - i - 1) as nat).push(hex_char((v % 16) as nat)) + old_digits
            =~= hex_digits((v / 16) as nat, (16 - i - 1) as nat) + digits@);
        v = v / 16;
        i = i + 1;
    }
    assert(hex_digits(v as nat, 0) =~= Seq::<char>::empty());
    assert(digits@ =~= hex_digits(hash as nat, 16));
    let mut r = crate::text::from_chars(digits.as_slice());
    r.append(".json");
    r
}

/// The name of the usage file of the project at `project_path`: the hash
/// of the path as 16 lowercase hexadecimal digits, then `.json`.
pub fn project_usage_file_name(project_path: &str) -> (r: String)
    ensures
        r@ == hex_digits(
            std::collections::hash_map::DefaultHasher::spec_finish(
                seq![project_path.spec_bytes(), seq![0xffu8]],
            ) as nat,
            16,
        ) + ".json"@,
{
    let h = simple_hash(project_path);
    usage_file_name(h)
}

/// The first item named `name` of kind `t` among `fs` (from index `i`).
pub open spec fn item_for(fs: Seq<FunctionView>, name: Seq<char>, t: ScriptType, i: int) -> Option<FunctionView>
    decreases fs.len() - i,
{
    if 0 <= i < fs.len() {
        if fs[i].name == name && fs[i].script_type == t {
            Some(fs[i])
        } else {
            item_for(fs, name, t, i + 1)
        }
    } else {
        None
    }
}

/// The items that the first `n` usage entries stand for, in order; an
/// entry whose item is gone stands for nothing.
pub open spec fn items_for(es: Seq<UsageEntryView>, fs: Seq<FunctionView>, n: int) -> Seq<FunctionView>
    decreases n,
{
    if n <= 0 || n > es.len() {
        Seq::empty()
    } else {
        match item_for(fs, es[n - 1].function_name, es[n - 1].script_type, 0) {
            Some(f) => items_for(es, fs, n - 1).push(f),
            None => items_for(es, fs, n - 1),
        }
    }
}

fn find_item(fs: &[ScriptFunction], name: &str, t: ScriptType) -> (r: Option<ScriptFunction>)
    ensures
        match (r, item_for(function_views(fs@), name@, t, 0)) {
            (Some(f), Some(g)) => f@ == g,
            (None, None) => true,
            _ => false,
        },
{
    let ghost fv = function_views(fs@);
    let mut i: usize = 0;
    while i < fs.len()
        invariant
            i <= fs@.len(),
            fv == function_views(fs@),
            item_for(fv, name@, t, 0) == item_for(fv, name@, t, i as int),
        decreases fs.len() - i,
    {
        assert(fv[i as int] == fs@[i as int]@);
        if fs[i].script_type == t && text_eq(fs[i].name.as_str(), name) {
            return Some(fs[i].copy());
        }
        i = i + 1;
    }
    None
}

/// The items of the frequently used entries, in the entries' order, each
/// the first item with the entry's name and kind (entries whose item is no
/// longer found are left out).
pub fn frequent_functions(entries: &[UsageEntry], functions: &[ScriptFunction]) -> (r: Vec<ScriptFunction>)
    ensures
        function_views(r@) == items_for(entry_views(entries@), function_views(functions@), entries@.len() as int),
{
    let ghost ev = entry_views(entries@);
    let ghost fv = function_views(functions@);
    let mut r: Vec<ScriptFunction> = Vec::new();
    let mut i: usize = 0;
    while i < entries.len()
        invariant
            i <= entries@.len(),
            ev == entry_views(entries@),
            fv == function_views(functions@),
            function_views(r@) == items_for(ev, fv, i as int),
        decreases entries.len() - i,
    {
        assert(ev[i as int] == entries@[i as int]@);
        match find_item(functions, entries[i].function_name.as_str(), entries[i].script_type) {
            Some(f) => {
                let ghost before = function_views(r@);
                r.push(f);
                assert(function_views(r@) =~= before.push(r@[before.len() as int]@));
            },
            None => {},
        }
        i = i + 1;
    }
    r
}

} // verus!


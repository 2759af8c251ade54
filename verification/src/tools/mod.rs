//! Tool results, per-tool execution metrics and the registry that decides
//! whether a named tool may run and records how each run went.
use vstd::prelude::*;
use vstd::utf8::{decode_utf8, encode_utf8, is_char_boundary};
use crate::llm::byte_count;
use crate::text::{chars_eq, decimal, decimal_chars, push_all, push_str, string_from, to_chars, trim, trim_exec};

pub mod analyze;
pub mod document;
pub mod generate;
pub mod refactor;
pub mod test;

verus! {

broadcast use vstd::utf8::encode_utf8_decode_utf8;

/// Permission level for tool execution.
#[derive(Debug, Clone, Copy, PartialEq, Eq, Structural)]
pub enum PermissionLevel {
    /// Tool can be executed freely
    Free,
    /// Tool requires user confirmation
    RequiresConfirmation,
    /// Tool is disabled
    Disabled,
}

/// Execution counters of one tool.
#[derive(Debug, Clone, Copy)]
pub struct ToolMetrics {
    pub executions: u64,
    pub successes: u64,
    pub failures: u64,
    pub total_duration_ms: u64,
}

impl ToolMetrics {
    /// Every execution counted is either a success or a failure.
    pub open spec fn consistent(self) -> bool {
        self.executions == self.successes + self.failures
    }

    pub open spec fn spec_zero() -> ToolMetrics {
        ToolMetrics { executions: 0, successes: 0, failures: 0, total_duration_ms: 0 }
    }

    /// Whether one more run of `duration_ms` can be counted without a counter overflowing.
    pub open spec fn can_record(self, success: bool, duration_ms: u64) -> bool {
        &&& self.executions < u64::MAX
        &&& success ==> self.successes < u64::MAX
        &&& !success ==> self.failures < u64::MAX
        &&& self.total_duration_ms + duration_ms <= u64::MAX
    }

    pub fn new() -> (m: ToolMetrics)
        ensures
            m == ToolMetrics::spec_zero(),
    {
        ToolMetrics { executions: 0, successes: 0, failures: 0, total_duration_ms: 0 }
    }

    /// Counts one execution that took `duration_ms` milliseconds.
    pub fn record(&mut self, success: bool, duration_ms: u64)
        requires
            old(self).can_record(success, duration_ms),
        ensures
            final(self).executions == old(self).executions + 1,
            final(self).successes == old(self).successes + (if success {
                1int
            } else {
                0
            }),
            final(self).failures == old(self).failures + (if success {
                0int
            } else {
                1
            }),
            final(self).total_duration_ms == old(self).total_duration_ms + duration_ms,
            *final(self) == recorded(*old(self), success, duration_ms),
            old(self).consistent() ==> final(self).consistent(),
    {
        self.executions = self.executions + 1;
        if success {
            self.successes = self.successes + 1;
        } else {
            self.failures = self.failures + 1;
        }
        self.total_duration_ms = self.total_duration_ms + duration_ms;
    }

    /// Mean duration in whole milliseconds, 0 before the first execution.
    pub fn avg_duration_ms(&self) -> (a: u64)
        ensures
            self.executions == 0 ==> a == 0,
            self.executions > 0 ==> a == self.total_duration_ms / self.executions,
    {
        if self.executions == 0 {
            0
        } else {
            self.total_duration_ms / self.executions
        }
    }
}

impl Default for ToolMetrics {
    fn default() -> (m: ToolMetrics)
        ensures
            m == ToolMetrics::spec_zero(),
    {
        ToolMetrics::new()
    }
}

/// Metadata pairs read as a map: a later pair for the same key shadows an earlier one.
pub open spec fn metadata_map(md: Seq<(String, String)>) -> Map<Seq<char>, Seq<char>>
    decreases md.len(),
{
    if md.len() == 0 {
        Map::empty()
    } else {
        metadata_map(md.drop_last()).insert(md.last().0@, md.last().1@)
    }
}

/// No key occurs twice among the metadata pairs.
pub open spec fn distinct_keys(md: Seq<(String, String)>) -> bool {
    forall|i: int, j: int| 0 <= i < md.len() && 0 <= j < md.len() && i != j ==> md[i].0@ != md[j].0@
}

/// Setting the value of the last pair with a key, in place, sets that key in the map.
pub proof fn lemma_metadata_update_last(md: Seq<(String, String)>, j: int, p: (String, String))
    requires
        0 <= j < md.len(),
        md[j].0@ == p.0@,
        forall|i: int| j < i < md.len() ==> md[i].0@ != p.0@,
    ensures
        metadata_map(md.update(j, p)) == metadata_map(md).insert(p.0@, p.1@),
    decreases md.len(),
{
    let u = md.update(j, p);
    let d = md.drop_last();
    if j == md.len() - 1 {
        assert(u.drop_last() =~= d);
        assert(metadata_map(u) =~= metadata_map(md).insert(p.0@, p.1@));
    } else {
        assert(u.drop_last() =~= d.update(j, p));
        assert forall|i: int| j < i < d.len() implies d[i].0@ != p.0@ by {
            assert(d[i] == md[i]);
        }
        lemma_metadata_update_last(d, j, p);
        assert(md.last().0@ != p.0@);
        assert(u.last() == md.last());
        assert(metadata_map(u) =~= metadata_map(md).insert(p.0@, p.1@));
    }
}

/// What a tool run produced.
#[derive(Debug)]
pub struct ToolResult {
    pub success: bool,
    pub output: String,
    pub error: Option<String>,
    pub metadata: Vec<(String, String)>,
    pub duration_ms: Option<u64>,
}

fn clone_option_string(s: &Option<String>) -> (r: Option<String>)
    ensures
        r == *s,
{
    match s {
        Some(x) => Some(x.clone()),
        None => None,
    }
}

fn clone_pairs(md: &Vec<(String, String)>) -> (r: Vec<(String, String)>)
    ensures
        r@ == md@,
{
    let mut r: Vec<(String, String)> = Vec::new();
    let mut k: usize = 0;
    while k < md.len()
        invariant
            k <= md@.len(),
            r@ == md@.take(k as int),
        decreases md@.len() - k,
    {
        let (a, b) = &md[k];
        r.push((a.clone(), b.clone()));
        k = k + 1;
        assert(r@ =~= md@.take(k as int));
    }
    assert(md@.take(k as int) =~= md@);
    r
}

impl ToolResult {
    /// Same fields, the metadata compared by contents.
    pub open spec fn same_as(self, other: ToolResult) -> bool {
        &&& self.success == other.success
        &&& self.output == other.output
        &&& self.error == other.error
        &&& self.metadata@ == other.metadata@
        &&& self.duration_ms == other.duration_ms
    }
}

impl Clone for ToolResult {
    fn clone(&self) -> (r: Self)
        ensures
            r.same_as(*self),
    {
        ToolResult {
            success: self.success,
            output: self.output.clone(),
            error: clone_option_string(&self.error),
            metadata: clone_pairs(&self.metadata),
            duration_ms: self.duration_ms,
        }
    }
}

/// The suffix `truncated` appends: `...`, a newline and the full byte count.
pub open spec fn truncation_note(total: nat) -> Seq<char> {
    "...\n[Output truncated - "@ + decimal(total) + " chars total]"@
}

/// The text `formatted_output` shows for a result.
pub open spec fn formatted(r: ToolResult) -> Seq<char> {
    let body = if r.success {
        "✓ Success\n"@ + r.output@
    } else {
        "✗ Error\n"@ + match r.error {
            Some(e) => e@,
            None => Seq::empty(),
        }
    };
    match r.duration_ms {
        Some(d) => body + "\n("@ + decimal(d as nat) + "ms)"@,
        None => body,
    }
}

impl ToolResult {
    pub fn success(output: &str) -> (r: ToolResult)
        ensures
            r.success,
            r.output@ == output@,
            r.error is None,
            r.metadata@.len() == 0,
            r.duration_ms is None,
    {
        ToolResult {
            success: true,
            output: String::from_str(output),
            error: None,
            metadata: Vec::new(),
            duration_ms: None,
        }
    }

    pub fn success_with_duration(output: &str, duration_ms: u64) -> (r: ToolResult)
        ensures
            r.success,
            r.output@ == output@,
            r.error is None,
            r.metadata@.len() == 0,
            r.duration_ms == Some(duration_ms),
    {
        ToolResult {
            success: true,
            output: String::from_str(output),
            error: None,
            metadata: Vec::new(),
            duration_ms: Some(duration_ms),
        }
    }

    pub fn error(error: &str) -> (r: ToolResult)
        ensures
            !r.success,
            r.output@.len() == 0,
            r.error matches Some(e) && e@ == error@,
            r.metadata@.len() == 0,
            r.duration_ms is None,
    {
        ToolResult {
            success: false,
            output: String::new(),
            error: Some(String::from_str(error)),
            metadata: Vec::new(),
            duration_ms: None,
        }
    }

    /// Sets one metadata entry: the value of the key is replaced in place when
    /// the key is there (its last pair, the only one when no key repeats);
    /// otherwise the pair is appended. The other fields are kept.
    pub fn with_metadata(self, key: &str, value: &str) -> (r: ToolResult)
        ensures
            metadata_map(r.metadata@) == metadata_map(self.metadata@).insert(key@, value@),
            distinct_keys(self.metadata@) ==> distinct_keys(r.metadata@),
            (forall|i: int| 0 <= i < self.metadata@.len() ==> self.metadata@[i].0@ != key@) ==> {
                &&& r.metadata@.len() == self.metadata@.len() + 1
                &&& r.metadata@.drop_last() == self.metadata@
                &&& r.metadata@.last().0@ == key@
                &&& r.metadata@.last().1@ == value@
            },
            (exists|i: int| 0 <= i < self.metadata@.len() && self.metadata@[i].0@ == key@) ==> exists|j: int|
                {
                    &&& 0 <= j < self.metadata@.len()
                    &&& self.metadata@[j].0@ == key@
                    &&& forall|i: int| j < i < self.metadata@.len() ==> self.metadata@[i].0@ != key@
                    &&& r.metadata@.len() == self.metadata@.len()
                    &&& r.metadata@[j].0@ == key@
                    &&& r.metadata@[j].1@ == value@
                    &&& forall|i: int| 0 <= i < r.metadata@.len() && i != j ==> r.metadata@[i] == self.metadata@[i]
                },
            r.success == self.success,
            r.output == self.output,
            r.error == self.error,
            r.duration_ms == self.duration_ms,
    {
        let mut r = self;
        let ghost before = r.metadata@;
        let key_s = String::from_str(key);
        let mut k: usize = r.metadata.len();
        while k > 0
            invariant
                k <= r.metadata@.len(),
                r.metadata@ == before,
                before == self.metadata@,
                r.success == self.success,
                r.output == self.output,
                r.error == self.error,
                r.duration_ms == self.duration_ms,
                key_s@ == key@,
                forall|i: int| k <= i < before.len() ==> before[i].0@ != key@,
            decreases k,
        {
            if r.metadata[k - 1].0 == key_s {
                let j = k - 1;
                let pair = (key_s, String::from_str(value));
                proof {
                    lemma_metadata_update_last(before, j as int, pair);
                }
                r.metadata.set(j, pair);
                proof {
                    assert(r.metadata@ == before.update(j as int, pair));
                    if distinct_keys(before) {
                        assert(distinct_keys(r.metadata@)) by {
                            assert forall|a: int, b: int|
                                0 <= a < r.metadata@.len() && 0 <= b < r.metadata@.len() && a != b
                                    implies r.metadata@[a].0@ != r.metadata@[b].0@ by {
                                assert(r.metadata@[a].0@ == before[a].0@);
                                assert(r.metadata@[b].0@ == before[b].0@);
                            }
                        }
                    }
                }
                return r;
            }
            k = k - 1;
        }
        r.metadata.push((key_s, String::from_str(value)));
        proof {
            assert(r.metadata@.drop_last() =~= before);
            assert(metadata_map(r.metadata@) == metadata_map(before).insert(key@, value@));
            if distinct_keys(before) {
                assert(distinct_keys(r.metadata@)) by {
                    assert forall|a: int, b: int|
                        0 <= a < r.metadata@.len() && 0 <= b < r.metadata@.len() && a != b
                            implies r.metadata@[a].0@ != r.metadata@[b].0@ by {
                        if a < before.len() && b < before.len() {
                            assert(r.metadata@[a] == before[a] && r.metadata@[b] == before[b]);
                        } else if a < before.len() {
                            assert(r.metadata@[a] == before[a]);
                        } else {
                            assert(r.metadata@[b] == before[b]);
                        }
                    }
                }
            }
        }
        r
    }

    /// A status line (`✓ Success` or `✗ Error`), then the output or the error,
    /// then the duration in parentheses when known.
    pub fn formatted_output(&self) -> (s: String)
        ensures
            s@ == formatted(*self),
    {
        let mut out: Vec<char> = Vec::new();
        if self.success {
            push_str(&mut out, "✓ Success\n");
            push_str(&mut out, self.output.as_str());
        } else {
            push_str(&mut out, "✗ Error\n");
            match &self.error {
                Some(e) => push_str(&mut out, e.as_str()),
                None => {},
            }
        }
        let ghost body = out@;
        match self.duration_ms {
            Some(d) => {
                push_str(&mut out, "\n(");
                let digits = decimal_chars(d);
                push_all(&mut out, &digits);
                push_str(&mut out, "ms)");
            },
            None => {},
        }
        proof {
            if self.success {
                assert(body =~= "✓ Success\n"@ + self.output@);
            } else {
                if self.error is Some {
                    assert(body =~= "✗ Error\n"@ + self.error->0@);
                } else {
                    assert(body =~= "✗ Error\n"@);
                }
            }
            if self.duration_ms is Some {
                assert(out@ =~= body + "\n("@ + decimal(self.duration_ms->0 as nat) + "ms)"@);
            }
        }
        string_from(&out)
    }

    /// A copy whose output is cut to its first `max_len` bytes, followed by a
    /// note with the full byte count, when the output is longer than that.
    pub fn truncated(&self, max_len: usize) -> (r: ToolResult)
        requires
            byte_count(self.output@) <= max_len || is_char_boundary(
                encode_utf8(self.output@),
                max_len as int,
            ),
        ensures
            byte_count(self.output@) <= max_len ==> r.same_as(*self),
            byte_count(self.output@) > max_len ==> r.output@ == decode_utf8(
                encode_utf8(self.output@).subrange(0, max_len as int),
            ) + truncation_note(byte_count(self.output@) as nat),
            r.success == self.success,
            r.error == self.error,
            r.metadata@ == self.metadata@,
            r.duration_ms == self.duration_ms,
    {
        let mut result = self.clone();
        let total = self.output.as_str().len();
        if total > max_len {
            let (head, _rest) = self.output.as_str().split_at(max_len);
            let mut out = to_chars(head);
            push_str(&mut out, "...\n[Output truncated - ");
            let digits = decimal_chars(total as u64);
            push_all(&mut out, &digits);
            push_str(&mut out, " chars total]");
            proof {
                assert(decode_utf8(encode_utf8(head@)) == head@);
            }
            result.output = string_from(&out);
        }
        result
    }
}

/// Name, description, permission and usage of a registered tool.
#[derive(Debug)]
pub struct ToolInfo {
    pub name: String,
    pub description: String,
    pub permission: PermissionLevel,
    pub usage: String,
}

impl Clone for ToolInfo {
    fn clone(&self) -> (r: Self)
        ensures
            r == *self,
    {
        ToolInfo {
            name: self.name.clone(),
            description: self.description.clone(),
            permission: self.permission,
            usage: self.usage.clone(),
        }
    }
}

/// How a tool is listed: `name - description`, the usage on its own line when
/// there is one, and a mark for a tool that needs confirmation or is disabled.
pub open spec fn info_display(t: ToolInfo) -> Seq<char> {
    let head = t.name@ + " - "@ + t.description@;
    let with_usage = if t.usage@.len() > 0 {
        head + "\n  Usage: "@ + t.usage@
    } else {
        head
    };
    match t.permission {
        PermissionLevel::RequiresConfirmation => with_usage + " [requires confirmation]"@,
        PermissionLevel::Disabled => with_usage + " [disabled]"@,
        PermissionLevel::Free => with_usage,
    }
}

impl ToolInfo {
    pub fn new(name: &str, description: &str, permission: PermissionLevel, usage: &str) -> (t:
        ToolInfo)
        ensures
            t.name@ == name@,
            t.description@ == description@,
            t.permission == permission,
            t.usage@ == usage@,
    {
        ToolInfo {
            name: String::from_str(name),
            description: String::from_str(description),
            permission,
            usage: String::from_str(usage),
        }
    }

    /// The listing line of this tool.
    pub fn to_display_string(&self) -> (s: String)
        ensures
            s@ == info_display(*self),
    {
        let mut out = to_chars(self.name.as_str());
        push_str(&mut out, " - ");
        push_str(&mut out, self.description.as_str());
        let ghost head = out@;
        if !self.usage.as_str().is_empty() {
            push_str(&mut out, "\n  Usage: ");
            push_str(&mut out, self.usage.as_str());
        }
        let ghost with_usage = out@;
        match self.permission {
            PermissionLevel::RequiresConfirmation => push_str(&mut out, " [requires confirmation]"),
            PermissionLevel::Disabled => push_str(&mut out, " [disabled]"),
            PermissionLevel::Free => {},
        }
        proof {
            assert(head =~= self.name@ + " - "@ + self.description@);
            if self.usage@.len() > 0 {
                assert(with_usage =~= head + "\n  Usage: "@ + self.usage@);
            }
        }
        string_from(&out)
    }
}


/// A registered tool with its counters.
#[derive(Debug)]
pub struct ToolEntry {
    pub info: ToolInfo,
    pub metrics: ToolMetrics,
}

/// Entries read as a map from tool name: a later entry shadows an earlier one.
pub open spec fn entries_map(es: Seq<ToolEntry>) -> Map<Seq<char>, ToolEntry>
    decreases es.len(),
{
    if es.len() == 0 {
        Map::empty()
    } else {
        entries_map(es.drop_last()).insert(es.last().info.name@, es.last())
    }
}

pub open spec fn distinct_names(es: Seq<ToolEntry>) -> bool {
    forall|i: int, j: int|
        0 <= i < es.len() && 0 <= j < es.len() && i != j ==> es[i].info.name@ != es[j].info.name@
}

pub proof fn lemma_entries_map(es: Seq<ToolEntry>)
    requires
        distinct_names(es),
    ensures
        forall|n: Seq<char>|
            entries_map(es).dom().contains(n) <==> exists|i: int|
                0 <= i < es.len() && #[trigger] es[i].info.name@ == n,
        forall|i: int| 0 <= i < es.len() ==> entries_map(es)[#[trigger] es[i].info.name@] == es[i],
        entries_map(es).dom().finite(),
        entries_map(es).len() == es.len(),
    decreases es.len(),
{
    if es.len() > 0 {
        let d = es.drop_last();
        assert(distinct_names(d));
        lemma_entries_map(d);
        let n = es.last().info.name@;
        assert(!entries_map(d).dom().contains(n)) by {
            if entries_map(d).dom().contains(n) {
                let i = choose|i: int| 0 <= i < d.len() && #[trigger] d[i].info.name@ == n;
                assert(es[i].info.name@ == es[es.len() - 1].info.name@);
            }
        }
        assert forall|m: Seq<char>|
            entries_map(es).dom().contains(m) implies exists|i: int|
                0 <= i < es.len() && #[trigger] es[i].info.name@ == m by {
            if m != n {
                let i = choose|i: int| 0 <= i < d.len() && #[trigger] d[i].info.name@ == m;
                assert(es[i].info.name@ == m);
            } else {
                assert(es[es.len() - 1].info.name@ == m);
            }
        }
        assert forall|m: Seq<char>|
            (exists|i: int| 0 <= i < es.len() && #[trigger] es[i].info.name@ == m) implies entries_map(
            es,
        ).dom().contains(m) by {
            let i = choose|i: int| 0 <= i < es.len() && #[trigger] es[i].info.name@ == m;
            if i < es.len() - 1 {
                assert(d[i].info.name@ == m);
            }
        }
        assert forall|i: int| 0 <= i < es.len() implies entries_map(es)[#[trigger] es[i].info.name@]
            == es[i] by {
            if i < es.len() - 1 {
                assert(d[i] == es[i]);
            }
        }
    }
}


/// Replacing the entry at `i` by one of the same name updates that name in the map.
pub proof fn lemma_entries_update(old_es: Seq<ToolEntry>, i: int, e: ToolEntry)
    requires
        distinct_names(old_es),
        0 <= i < old_es.len(),
        e.info.name@ == old_es[i].info.name@,
    ensures
        distinct_names(old_es.update(i, e)),
        entries_map(old_es.update(i, e)) == entries_map(old_es).insert(e.info.name@, e),
{
    let es = old_es.update(i, e);
    let key = e.info.name@;
    assert(distinct_names(es)) by {
        assert forall|a: int, b: int|
            0 <= a < es.len() && 0 <= b < es.len() && a != b implies es[a].info.name@
            != es[b].info.name@ by {
            if a != i && b != i {
                assert(es[a] == old_es[a] && es[b] == old_es[b]);
            } else if a == i {
                assert(es[b] == old_es[b]);
            } else {
                assert(es[a] == old_es[a]);
            }
        }
    }
    lemma_entries_map(es);
    lemma_entries_map(old_es);
    let new_map = entries_map(es);
    let want = entries_map(old_es).insert(key, e);
    assert forall|m: Seq<char>| new_map.dom().contains(m) <==> want.dom().contains(m) by {
        if new_map.dom().contains(m) {
            let j = choose|j: int| 0 <= j < es.len() && #[trigger] es[j].info.name@ == m;
            if j != i {
                assert(old_es[j].info.name@ == m);
            }
        }
        if entries_map(old_es).dom().contains(m) {
            let j = choose|j: int| 0 <= j < old_es.len() && #[trigger] old_es[j].info.name@ == m;
            if j != i {
                assert(es[j].info.name@ == m);
            }
        }
        if m == key {
            assert(es[i].info.name@ == m);
        }
    }
    assert forall|m: Seq<char>| #[trigger] new_map.dom().contains(m) implies new_map[m] == want[m] by {
        let j = choose|j: int| 0 <= j < es.len() && #[trigger] es[j].info.name@ == m;
        if j != i {
            assert(old_es[j] == es[j]);
            assert(old_es[j].info.name@ == m);
        }
    }
    assert(new_map =~= want);
}

/// A well-formed registry holds finitely many tools.
pub proof fn lemma_registry_finite(r: ToolRegistry)
    requires
        r.wf(),
    ensures
        r@.dom().finite(),
{
    lemma_entries_map(r.entries@);
}

/// The names registered by `steps`, in which `Some(n)` registers a tool named
/// `n` and `None` is any other call (a run, a reset of the counters).
pub open spec fn registered_names(steps: Seq<Option<Seq<char>>>) -> Set<Seq<char>>
    decreases steps.len(),
{
    if steps.len() == 0 {
        Set::empty()
    } else {
        match steps.last() {
            Some(n) => registered_names(steps.drop_last()).insert(n),
            None => registered_names(steps.drop_last()),
        }
    }
}

/// How one call changes the registry's names: `register` (`Some(n)`) adds
/// `n`; a run or a reset of the counters (`None`) keeps them.
pub open spec fn names_step(
    before: Map<Seq<char>, ToolEntry>,
    after: Map<Seq<char>, ToolEntry>,
    step: Option<Seq<char>>,
) -> bool {
    match step {
        Some(n) => after.dom() == before.dom().insert(n),
        None => after.dom() == before.dom(),
    }
}

/// From an empty registry, after any calls of `register`, `finish_execution`
/// and `reset_metrics` (the registry's views `views`, one more than the
/// calls `steps`), the tools known, whose counters `get_metrics` gives, are
/// exactly the names registered, and `tool_count` is how many distinct
/// names were registered.
pub proof fn law_registry_knows_registered_names(
    views: Seq<Map<Seq<char>, ToolEntry>>,
    steps: Seq<Option<Seq<char>>>,
)
    requires
        views.len() == steps.len() + 1,
        views[0] == Map::<Seq<char>, ToolEntry>::empty(),
        forall|i: int| 0 <= i < steps.len() ==> names_step(#[trigger] views[i], views[i + 1], steps[i]),
    ensures
        views.last().dom() == registered_names(steps),
        views.last().dom().finite(),
        views.last().len() == registered_names(steps).len(),
    decreases steps.len(),
{
    if steps.len() == 0 {
        assert(views.last() == views[0]);
        assert(views.last().dom() =~= Set::<Seq<char>>::empty());
    } else {
        let vs = views.drop_last();
        let ss = steps.drop_last();
        assert forall|i: int| 0 <= i < ss.len() implies names_step(#[trigger] vs[i], vs[i + 1], ss[i]) by {
            assert(names_step(views[i], views[i + 1], steps[i]));
        }
        law_registry_knows_registered_names(vs, ss);
        let k = steps.len() - 1;
        assert(names_step(views[k], views[k + 1], steps[k]));
        assert(vs.last() == views[k]);
    }
}

/// Whether a requested tool run may go ahead.
pub enum ToolAccess {
    /// The run is refused; this is the result to report.
    Denied(ToolResult),
    /// The user must confirm before the run.
    NeedsConfirmation,
    /// The tool may run now.
    Allowed,
}

/// The tools the agent knows, with their permission levels and counters.
pub struct ToolRegistry {
    entries: Vec<ToolEntry>,
    auto_confirm: bool,
}

impl View for ToolRegistry {
    type V = Map<Seq<char>, ToolEntry>;

    closed spec fn view(&self) -> Map<Seq<char>, ToolEntry> {
        entries_map(self.entries@)
    }
}

/// `r` is an error result carrying exactly the message `msg`.
pub open spec fn is_error_result(r: ToolResult, msg: Seq<char>) -> bool {
    &&& !r.success
    &&& r.output@.len() == 0
    &&& r.error matches Some(e) && e@ == msg
    &&& r.metadata@.len() == 0
    &&& r.duration_ms is None
}

/// Counting a run keeps every execution a success or a failure.
pub proof fn law_recording_keeps_counts_consistent(m: ToolMetrics, success: bool, duration_ms: u64)
    requires
        m.consistent(),
        m.can_record(success, duration_ms),
    ensures
        recorded(m, success, duration_ms).consistent(),
        recorded(m, success, duration_ms).executions == m.executions + 1,
{
}

/// The counters after the runs `runs` (each a success flag and a duration in
/// milliseconds), counted in order from `m`.
pub open spec fn after_runs(m: ToolMetrics, runs: Seq<(bool, u64)>) -> ToolMetrics
    decreases runs.len(),
{
    if runs.len() == 0 {
        m
    } else {
        recorded(after_runs(m, runs.drop_last()), runs.last().0, runs.last().1)
    }
}

/// Every run of `runs`, counted in order from `m`, can be counted without a
/// counter overflowing.
pub open spec fn runs_fit(m: ToolMetrics, runs: Seq<(bool, u64)>) -> bool
    decreases runs.len(),
{
    runs.len() == 0 || (runs_fit(m, runs.drop_last()) && after_runs(m, runs.drop_last()).can_record(
        runs.last().0,
        runs.last().1,
    ))
}

/// From fresh counters, any sequence of counted runs leaves every execution
/// a success or a failure: `executions == successes + failures`, so neither
/// exceeds the executions, and the executions are the number of runs.
pub proof fn law_metrics_stay_consistent(runs: Seq<(bool, u64)>)
    requires
        runs_fit(ToolMetrics::spec_zero(), runs),
    ensures
        after_runs(ToolMetrics::spec_zero(), runs).consistent(),
        after_runs(ToolMetrics::spec_zero(), runs).successes <= after_runs(
            ToolMetrics::spec_zero(),
            runs,
        ).executions,
        after_runs(ToolMetrics::spec_zero(), runs).failures <= after_runs(
            ToolMetrics::spec_zero(),
            runs,
        ).executions,
        after_runs(ToolMetrics::spec_zero(), runs).executions == runs.len(),
    decreases runs.len(),
{
    if runs.len() > 0 {
        law_metrics_stay_consistent(runs.drop_last());
    }
}

/// Whether a run's outcome counts as a success.
pub open spec fn outcome_success(outcome: Result<ToolResult, String>) -> bool {
    match outcome {
        Ok(t) => t.success,
        Err(_) => false,
    }
}

/// A finished run counts as a success exactly when the tool's own result
/// reports success; a result reporting failure, or a run that failed outright,
/// counts as a failure. Recording it adds one execution and its duration.
pub proof fn law_runs_count_by_reported_success(m: ToolMetrics, outcome: Result<ToolResult, String>, duration_ms: u64)
    requires
        m.can_record(outcome_success(outcome), duration_ms),
    ensures
        ({
            let after = recorded(m, outcome_success(outcome), duration_ms);
            let ok = outcome matches Ok(t) && t.success;
            &&& after.executions == m.executions + 1
            &&& after.successes == m.successes + if ok { 1int } else { 0 }
            &&& after.failures == m.failures + if ok { 0int } else { 1 }
            &&& after.total_duration_ms == m.total_duration_ms + duration_ms
        }),
{
}

/// The counters after one more run.
pub open spec fn recorded(m: ToolMetrics, success: bool, duration_ms: u64) -> ToolMetrics {
    ToolMetrics {
        executions: (m.executions + 1) as u64,
        successes: (m.successes + if success { 1int } else { 0 }) as u64,
        failures: (m.failures + if success { 0int } else { 1 }) as u64,
        total_duration_ms: (m.total_duration_ms + duration_ms) as u64,
    }
}

/// The result given for a path that does not exist.
pub fn path_not_found_result(path: &str) -> (r: ToolResult)
    ensures
        is_error_result(r, "Path not found: "@ + path@),
{
    let mut msg = to_chars("Path not found: ");
    push_str(&mut msg, path);
    ToolResult::error(string_from(&msg).as_str())
}

/// The result given when the user declines to run a tool.
pub fn cancelled_result() -> (r: ToolResult)
    ensures
        is_error_result(r, "Execution cancelled by user"@),
{
    ToolResult::error("Execution cancelled by user")
}

/// Whether the user's answer to a confirmation prompt accepts: after trimming
/// whitespace it is `y` in either case.
pub fn confirmation_accepted(input: &str) -> (b: bool)
    ensures
        b == (trim(input@) == "y"@ || trim(input@) == "Y"@),
{
    let t = trim_exec(&to_chars(input));
    let lower = to_chars("y");
    let upper = to_chars("Y");
    chars_eq(&t, &lower) || chars_eq(&t, &upper)
}

/// The message of the result given for a tool that is not registered.
pub open spec fn unknown_tool_message(name: Seq<char>) -> Seq<char> {
    "Unknown tool: "@ + name
}

/// The message of the result given for a disabled tool.
pub open spec fn disabled_tool_message(name: Seq<char>) -> Seq<char> {
    "Tool '"@ + name + "' is disabled"@
}

/// The message of the result given when a tool run fails with `err`.
pub open spec fn failed_run_message(err: Seq<char>) -> Seq<char> {
    "Tool execution failed: "@ + err
}

impl ToolRegistry {
    /// Tool names are unique among the entries.
    pub closed spec fn wf(self) -> bool {
        distinct_names(self.entries@)
    }

    pub closed spec fn spec_auto_confirm(self) -> bool {
        self.auto_confirm
    }

    pub fn new() -> (r: ToolRegistry)
        ensures
            r.wf(),
            r@ == Map::<Seq<char>, ToolEntry>::empty(),
            !r.spec_auto_confirm(),
    {
        let r = ToolRegistry { entries: Vec::new(), auto_confirm: false };
        assert(r@ =~= Map::<Seq<char>, ToolEntry>::empty());
        r
    }

    pub fn with_auto_confirm(self, auto_confirm: bool) -> (r: ToolRegistry)
        requires
            self.wf(),
        ensures
            r.wf(),
            r@ == self@,
            r.spec_auto_confirm() == auto_confirm,
    {
        let mut r = self;
        r.auto_confirm = auto_confirm;
        r
    }

    fn find_index(&self, name: &str) -> (r: Option<usize>)
        requires
            self.wf(),
        ensures
            r matches Some(i) ==> i < self.entries@.len() && self.entries@[i as int].info.name@
                == name@,
            r is None ==> !self@.dom().contains(name@),
    {
        proof {
            lemma_entries_map(self.entries@);
        }
        let key = String::from_str(name);
        let mut k: usize = 0;
        while k < self.entries.len()
            invariant
                k <= self.entries@.len(),
                key@ == name@,
                forall|j: int| 0 <= j < k ==> self.entries@[j].info.name@ != name@,
            decreases self.entries@.len() - k,
        {
            if self.entries[k].info.name == key {
                return Some(k);
            }
            k = k + 1;
        }
        None
    }

    /// Registers a tool under its name with fresh counters, replacing any tool
    /// of the same name.
    pub fn register(&mut self, info: ToolInfo)
        requires
            old(self).wf(),
        ensures
            final(self).wf(),
            final(self)@ == old(self)@.insert(
                info.name@,
                ToolEntry { info, metrics: ToolMetrics::spec_zero() },
            ),
            names_step(old(self)@, final(self)@, Some(info.name@)),
            final(self).spec_auto_confirm() == old(self).spec_auto_confirm(),
    {
        let ghost old_es = self.entries@;
        proof {
            lemma_entries_map(old_es);
        }
        let ghost key = info.name@;
        let entry = ToolEntry { info, metrics: ToolMetrics::new() };
        match self.find_index(entry.info.name.as_str()) {
            Some(i) => {
                proof {
                    lemma_entries_update(old_es, i as int, entry);
                }
                self.entries.set(i, entry);
            },
            None => {
                self.entries.push(entry);
                proof {
                    let es = self.entries@;
                    assert(es.drop_last() =~= old_es);
                    assert(distinct_names(es)) by {
                        assert forall|a: int, b: int|
                            0 <= a < es.len() && 0 <= b < es.len() && a != b implies es[a].info.name@
                            != es[b].info.name@ by {
                            if a < es.len() - 1 && b < es.len() - 1 {
                                assert(es[a] == old_es[a] && es[b] == old_es[b]);
                            } else if a == es.len() - 1 {
                                assert(es[b] == old_es[b]);
                                assert(old(self)@.dom().contains(old_es[b].info.name@));
                            } else {
                                assert(es[a] == old_es[a]);
                                assert(old(self)@.dom().contains(old_es[a].info.name@));
                            }
                        }
                    }
                }
            },
        }
    }

    /// The registered tools, each listed once, in no promised order.
    pub fn list_tools(&self) -> (r: Vec<ToolInfo>)
        requires
            self.wf(),
        ensures
            r@.len() == self@.len(),
            forall|i: int| 0 <= i < r@.len() ==> self@.dom().contains(#[trigger] r@[i].name@)
                && self@[r@[i].name@].info == r@[i],
            forall|i: int, j: int|
                0 <= i < r@.len() && 0 <= j < r@.len() && i != j ==> r@[i].name@ != r@[j].name@,
    {
        proof {
            lemma_entries_map(self.entries@);
        }
        let mut r: Vec<ToolInfo> = Vec::new();
        let mut k: usize = 0;
        while k < self.entries.len()
            invariant
                k <= self.entries@.len(),
                r@.len() == k,
                forall|i: int| 0 <= i < k ==> r@[i] == self.entries@[i].info,
            decreases self.entries@.len() - k,
        {
            r.push(self.entries[k].info.clone());
            k = k + 1;
        }
        r
    }

    /// The counters of the named tool, when it is registered.
    pub fn get_metrics(&self, name: &str) -> (r: Option<&ToolMetrics>)
        requires
            self.wf(),
        ensures
            self@.dom().contains(name@) ==> r == Some(&self@[name@].metrics),
            !self@.dom().contains(name@) ==> r is None,
    {
        proof {
            lemma_entries_map(self.entries@);
        }
        match self.find_index(name) {
            Some(i) => Some(&self.entries[i].metrics),
            None => None,
        }
    }

    /// Every tool's name with its counters, each tool once.
    pub fn all_metrics(&self) -> (r: Vec<(String, ToolMetrics)>)
        requires
            self.wf(),
        ensures
            r@.len() == self@.len(),
            forall|i: int| 0 <= i < r@.len() ==> self@.dom().contains(#[trigger] r@[i].0@)
                && self@[r@[i].0@].metrics == r@[i].1,
            forall|i: int, j: int|
                0 <= i < r@.len() && 0 <= j < r@.len() && i != j ==> r@[i].0@ != r@[j].0@,
    {
        proof {
            lemma_entries_map(self.entries@);
        }
        let mut r: Vec<(String, ToolMetrics)> = Vec::new();
        let mut k: usize = 0;
        while k < self.entries.len()
            invariant
                k <= self.entries@.len(),
                r@.len() == k,
                forall|i: int|
                    0 <= i < k ==> r@[i].0@ == self.entries@[i].info.name@ && r@[i].1
                        == self.entries@[i].metrics,
            decreases self.entries@.len() - k,
        {
            r.push((self.entries[k].info.name.clone(), self.entries[k].metrics));
            k = k + 1;
        }
        r
    }

    /// Sets every tool's counters back to zero.
    pub fn reset_metrics(&mut self)
        requires
            old(self).wf(),
        ensures
            final(self).wf(),
            final(self)@.dom() == old(self)@.dom(),
            names_step(old(self)@, final(self)@, None),
            forall|n: Seq<char>|
                #[trigger] final(self)@.dom().contains(n) ==> final(self)@[n].info == old(
                    self,
                )@[n].info && final(self)@[n].metrics == ToolMetrics::spec_zero(),
            final(self).spec_auto_confirm() == old(self).spec_auto_confirm(),
    {
        let ghost old_es = self.entries@;
        let mut k: usize = 0;
        while k < self.entries.len()
            invariant
                k <= self.entries@.len(),
                self.entries@.len() == old_es.len(),
                self.auto_confirm == old(self).auto_confirm,
                forall|i: int|
                    0 <= i < self.entries@.len() ==> #[trigger] self.entries@[i].info
                        == old_es[i].info,
                forall|i: int|
                    0 <= i < self.entries@.len() ==> (#[trigger] self.entries@[i]).metrics == (if i < k {
                        ToolMetrics::spec_zero()
                    } else {
                        old_es[i].metrics
                    }),
            decreases self.entries@.len() - k,
        {
            let info = self.entries[k].info.clone();
            self.entries.set(k, ToolEntry { info, metrics: ToolMetrics::new() });
            k = k + 1;
        }
        proof {
            let es = self.entries@;
            assert(distinct_names(es)) by {
                assert forall|a: int, b: int|
                    0 <= a < es.len() && 0 <= b < es.len() && a != b implies es[a].info.name@
                    != es[b].info.name@ by {
                    assert(es[a].info == old_es[a].info);
                    assert(es[b].info == old_es[b].info);
                }
            }
            lemma_entries_map(es);
            lemma_entries_map(old_es);
            assert forall|n: Seq<char>| self@.dom().contains(n) <==> old(self)@.dom().contains(n) by {
                if self@.dom().contains(n) {
                    let j = choose|j: int| 0 <= j < es.len() && #[trigger] es[j].info.name@ == n;
                    assert(old_es[j].info.name@ == n);
                }
                if old(self)@.dom().contains(n) {
                    let j = choose|j: int| 0 <= j < old_es.len() && #[trigger] old_es[j].info.name@ == n;
                    assert(es[j].info.name@ == n);
                }
            }
            assert(self@.dom() =~= old(self)@.dom());
            assert forall|n: Seq<char>| #[trigger] self@.dom().contains(n) implies self@[n].info == old(
                self,
            )@[n].info && self@[n].metrics == ToolMetrics::spec_zero() by {
                let j = choose|j: int| 0 <= j < es.len() && #[trigger] es[j].info.name@ == n;
                assert(old_es[j].info.name@ == n);
            }
        }
    }

    /// Whether the named tool may run: unknown and disabled tools are refused
    /// with an error result; a tool that requires confirmation waits for the
    /// user unless the registry confirms automatically.
    pub fn check_execution(&self, name: &str) -> (a: ToolAccess)
        requires
            self.wf(),
        ensures
            !self@.dom().contains(name@) ==> (a matches ToolAccess::Denied(r) && is_error_result(
                r,
                unknown_tool_message(name@),
            )),
            self@.dom().contains(name@) && self@[name@].info.permission == PermissionLevel::Disabled
                ==> (a matches ToolAccess::Denied(r) && is_error_result(
                r,
                disabled_tool_message(name@),
            )),
            self@.dom().contains(name@) && self@[name@].info.permission
                == PermissionLevel::RequiresConfirmation ==> (if self.spec_auto_confirm() {
                a is Allowed
            } else {
                a is NeedsConfirmation
            }),
            self@.dom().contains(name@) && self@[name@].info.permission == PermissionLevel::Free
                ==> a is Allowed,
    {
        proof {
            lemma_entries_map(self.entries@);
        }
        match self.find_index(name) {
            None => {
                let mut msg = to_chars("Unknown tool: ");
                push_str(&mut msg, name);
                let text = string_from(&msg);
                ToolAccess::Denied(ToolResult::error(text.as_str()))
            },
            Some(i) => {
                let permission = self.entries[i].info.permission;
                match permission {
                    PermissionLevel::Disabled => {
                        let mut msg = to_chars("Tool '");
                        push_str(&mut msg, name);
                        push_str(&mut msg, "' is disabled");
                        let text = string_from(&msg);
                        proof {
                            assert(msg@ =~= disabled_tool_message(name@));
                        }
                        ToolAccess::Denied(ToolResult::error(text.as_str()))
                    },
                    PermissionLevel::RequiresConfirmation => {
                        if self.auto_confirm {
                            ToolAccess::Allowed
                        } else {
                            ToolAccess::NeedsConfirmation
                        }
                    },
                    PermissionLevel::Free => ToolAccess::Allowed,
                }
            },
        }
    }

    /// Records a finished run of the named tool and gives the result to report:
    /// the tool's own result, or an error result when the run itself failed
    /// (counted as a failure).
    pub fn finish_execution(&mut self, name: &str, outcome: Result<ToolResult, String>, duration_ms: u64) -> (r: ToolResult)
        requires
            old(self).wf(),
            old(self)@.dom().contains(name@) ==> old(self)@[name@].metrics.can_record(
                outcome_success(outcome),
                duration_ms,
            ),
        ensures
            final(self).wf(),
            final(self).spec_auto_confirm() == old(self).spec_auto_confirm(),
            names_step(old(self)@, final(self)@, None),
            outcome matches Ok(t) ==> r.same_as(t),
            outcome matches Err(e) ==> is_error_result(r, failed_run_message(e@)),
            !old(self)@.dom().contains(name@) ==> final(self)@ == old(self)@,
            old(self)@.dom().contains(name@) ==> {
                let before = old(self)@[name@].metrics;
                let after = final(self)@[name@].metrics;
                let ok = outcome matches Ok(t) && t.success;
                &&& after.executions == before.executions + 1
                &&& after.successes == before.successes + if ok { 1int } else { 0 }
                &&& after.failures == before.failures + if ok { 0int } else { 1 }
                &&& after.total_duration_ms == before.total_duration_ms + duration_ms
            },
            old(self)@.dom().contains(name@) ==> final(self)@ == old(self)@.insert(
                name@,
                ToolEntry {
                    info: old(self)@[name@].info,
                    metrics: recorded(old(self)@[name@].metrics, outcome_success(outcome), duration_ms),
                },
            ),
    {
        let success = match &outcome {
            Ok(t) => t.success,
            Err(_) => false,
        };
        let ghost old_es = self.entries@;
        proof {
            lemma_entries_map(old_es);
        }
        match self.find_index(name) {
            Some(i) => {
                let mut m = self.entries[i].metrics;
                m.record(success, duration_ms);
                let info = self.entries[i].info.clone();
                let entry = ToolEntry { info, metrics: m };
                proof {
                    lemma_entries_update(old_es, i as int, entry);
                }
                self.entries.set(i, entry);
                assert(self@.dom() =~= old(self)@.dom());
            },
            None => {},
        }
        match outcome {
            Ok(t) => t,
            Err(e) => {
                let mut msg = to_chars("Tool execution failed: ");
                push_str(&mut msg, e.as_str());
                let text = string_from(&msg);
                ToolResult::error(text.as_str())
            },
        }
    }

    pub fn tool_count(&self) -> (n: usize)
        requires
            self.wf(),
        ensures
            self@.dom().finite(),
            n == self@.len(),
    {
        proof {
            lemma_entries_map(self.entries@);
        }
        self.entries.len()
    }

    pub fn has_tool(&self, name: &str) -> (b: bool)
        requires
            self.wf(),
        ensures
            self@.dom().finite(),
            b == self@.dom().contains(name@),
    {
        proof {
            lemma_entries_map(self.entries@);
        }
        self.find_index(name).is_some()
    }
}

} // verus!

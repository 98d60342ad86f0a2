//! The hostname rule database: a precedence-ordered mapping from exact
//! hostnames and suffix patterns to allow/deny decisions, rebuilt from
//! scratch out of rule sources and swapped in atomically.
//!
//! Keys live in two association tables whose mathematical view is a
//! `Map<Seq<char>, HostnameAction>`; a later insertion for the same key
//! overrides an earlier one, which is what gives exception sources and
//! Allow-over-Deny ordering their precedence.

use crate::chars::chars_of;
use crate::chars::is_host_char;
use crate::chars::is_host_char_exec;
use crate::chars::is_space;
use crate::chars::is_space_exec;
use crate::chars::lower;
use crate::chars::lower_char_exec;
use crate::chars::spec_find_char;
use crate::chars::spec_find_sub;
use crate::chars::find_char;
use crate::chars::find_sub;
use crate::chars::str_eq;
use crate::chars::string_from_chars;
use crate::controller::VpnController;
use vstd::prelude::*;
use vstd::string::*;

verus! {

/// Inclusion state a host source carries: skip it, use it as a deny source,
/// or use it as an allow source. Mirrors the host-side enumeration.
#[allow(non_camel_case_types)]
#[derive(Clone, Copy, PartialEq, Eq, Structural, Debug)]
pub enum NativeHostState {
    IGNORE,
    DENY,
    ALLOW,
}

/// One rule source as handed over by the host: a display name, a source
/// identifier (file name or literal hostname), and its inclusion state.
#[derive(Debug)]
pub struct NativeHost {
    pub title: String,
    pub data: String,
    pub state: NativeHostState,
}

/// The decision a single rule resolves to.
#[derive(Clone, Copy, PartialEq, Eq, Structural, Debug)]
pub enum HostnameAction {
    Deny,
    Allow,
}

#[derive(Clone, Copy, PartialEq, Eq, Structural, Debug)]
pub enum RuleDatabaseError {
    BadHostFormat,
    Interrupted,
}

/// The action a non-ignored source state resolves to.
pub open spec fn state_action(st: NativeHostState) -> HostnameAction {
    if st is DENY {
        HostnameAction::Deny
    } else {
        HostnameAction::Allow
    }
}

/// A key-to-action table. Entries are kept in insertion order and a later
/// entry for the same key wins, so the view is the map that inserts them in
/// order.
pub struct RuleMap {
    entries: Vec<(String, HostnameAction)>,
}

pub open spec fn assoc_view(s: Seq<(String, HostnameAction)>) -> Map<Seq<char>, HostnameAction>
    decreases s.len(),
{
    if s.len() == 0 {
        Map::empty()
    } else {
        assoc_view(s.drop_last()).insert(s.last().0@, s.last().1)
    }
}

impl View for RuleMap {
    type V = Map<Seq<char>, HostnameAction>;

    closed spec fn view(&self) -> Map<Seq<char>, HostnameAction> {
        assoc_view(self.entries@)
    }
}

/// If no entry at or after position `i` has key `k`, the table up to `i`
/// already decides `k`.
proof fn lemma_assoc_suffix_free(s: Seq<(String, HostnameAction)>, i: int, k: Seq<char>)
    requires
        0 <= i <= s.len(),
        forall|j: int| i <= j < s.len() ==> s[j].0@ != k,
    ensures
        assoc_view(s).contains_key(k) == assoc_view(s.take(i)).contains_key(k),
        assoc_view(s).contains_key(k) ==> assoc_view(s)[k] == assoc_view(s.take(i))[k],
    decreases s.len() - i,
{
    if i == s.len() {
        assert(s.take(i) =~= s);
    } else {
        assert(s[s.len() - 1].0@ != k);
        lemma_assoc_suffix_free(s.drop_last(), i, k);
        assert(s.drop_last().take(i) =~= s.take(i));
    }
}

impl RuleMap {
    /// An empty table.
    pub fn new() -> (r: RuleMap)
        ensures
            r@ == Map::<Seq<char>, HostnameAction>::empty(),
    {
        RuleMap { entries: Vec::new() }
    }

    /// Binds `key` to `act`, overriding any earlier binding of the same key.
    pub fn insert(&mut self, key: String, act: HostnameAction)
        ensures
            final(self)@ == old(self)@.insert(key@, act),
    {
        let ghost s = self.entries@;
        self.entries.push((key, act));
        proof {
            assert(self.entries@.drop_last() =~= s);
        }
    }

    /// The action bound to `key`, if any.
    pub fn get(&self, key: &str) -> (r: Option<HostnameAction>)
        ensures
            r == if self@.contains_key(key@) {
                Some(self@[key@])
            } else {
                None::<HostnameAction>
            },
    {
        let n = self.entries.len();
        let mut i: usize = n;
        while i > 0
            invariant
                i <= n,
                n == self.entries@.len(),
                forall|j: int| i <= j < n ==> self.entries@[j].0@ != key@,
            decreases i,
        {
            let pair = &self.entries[i - 1];
            if str_eq(pair.0.as_str(), key) {
                proof {
                    lemma_assoc_suffix_free(self.entries@, i as int, key@);
                    assert(self.entries@.take(i as int).drop_last() =~= self.entries@.take(
                        i - 1,
                    ));
                    assert(self.entries@.take(i as int).last() == self.entries@[i - 1]);
                }
                return Some(pair.1);
            }
            i -= 1;
        }
        proof {
            lemma_assoc_suffix_free(self.entries@, 0, key@);
            assert(self.entries@.take(0) =~= Seq::<(String, HostnameAction)>::empty());
        }
        None
    }
}

/// Whether `add_host` accepts `data` as well-formed: a `*`-led pattern, a
/// `||…^` pattern, or a plain hostname of ASCII alphanumerics, dots and
/// hyphens. Anything under two characters is rejected outright.
pub open spec fn spec_add_host_ok(data: Seq<char>) -> bool {
    if data.len() < 2 {
        false
    } else if data[0] == '*' {
        true
    } else if data[0] == '|' && data[1] == '|' {
        data.last() == '^'
    } else {
        forall|j: int| 0 <= j < data.len() ==> is_host_char(data[j])
    }
}

/// The exact-host and pattern maps after one `add_host` call: a `*`-led
/// entry drops its first two characters and lands in the pattern map, a
/// `||…^` entry drops the frame and lands there too, a valid plain hostname
/// lands in the exact map, and everything else (or an ignored state) changes
/// nothing.
pub open spec fn spec_add_host_maps(
    hosts: Map<Seq<char>, HostnameAction>,
    patterns: Map<Seq<char>, HostnameAction>,
    st: NativeHostState,
    data: Seq<char>,
) -> (Map<Seq<char>, HostnameAction>, Map<Seq<char>, HostnameAction>) {
    if st is IGNORE || data.len() < 2 {
        (hosts, patterns)
    } else if data[0] == '*' {
        (hosts, patterns.insert(data.subrange(2, data.len() as int), state_action(st)))
    } else if data[0] == '|' && data[1] == '|' {
        if data.last() == '^' {
            (hosts, patterns.insert(data.subrange(2, data.len() - 1), state_action(st)))
        } else {
            (hosts, patterns)
        }
    } else if forall|j: int| 0 <= j < data.len() ==> is_host_char(data[j]) {
        (hosts.insert(data, state_action(st)), patterns)
    } else {
        (hosts, patterns)
    }
}

/// The maps after feeding one hosts-file line through `parse_line` and
/// `add_host`.
pub open spec fn spec_apply_line(
    hosts: Map<Seq<char>, HostnameAction>,
    patterns: Map<Seq<char>, HostnameAction>,
    st: NativeHostState,
    line: Seq<char>,
) -> (Map<Seq<char>, HostnameAction>, Map<Seq<char>, HostnameAction>) {
    match spec_parse_line(line) {
        Some(host) => spec_add_host_maps(hosts, patterns, st, host),
        None => (hosts, patterns),
    }
}

pub open spec fn spec_apply_lines(
    hosts: Map<Seq<char>, HostnameAction>,
    patterns: Map<Seq<char>, HostnameAction>,
    st: NativeHostState,
    lines: Seq<Seq<char>>,
) -> (Map<Seq<char>, HostnameAction>, Map<Seq<char>, HostnameAction>)
    decreases lines.len(),
{
    if lines.len() == 0 {
        (hosts, patterns)
    } else {
        let r = spec_apply_lines(hosts, patterns, st, lines.drop_last());
        spec_apply_line(r.0, r.1, st, lines.last())
    }
}

/// One rule source together with its resolved content: the parsed lines of
/// its file, or nothing if no file could be opened, in which case the
/// source identifier itself is taken as a single hostname entry.
pub struct LoadedHost {
    pub host: NativeHost,
    pub lines: Option<Vec<String>>,
}

pub open spec fn spec_apply_item(
    hosts: Map<Seq<char>, HostnameAction>,
    patterns: Map<Seq<char>, HostnameAction>,
    item: LoadedHost,
) -> (Map<Seq<char>, HostnameAction>, Map<Seq<char>, HostnameAction>) {
    match item.lines {
        Some(ls) => spec_apply_lines(
            hosts,
            patterns,
            item.host.state,
            ls@.map_values(|s: String| s@),
        ),
        None => spec_add_host_maps(hosts, patterns, item.host.state, item.host.data@),
    }
}

pub open spec fn spec_apply_items(
    hosts: Map<Seq<char>, HostnameAction>,
    patterns: Map<Seq<char>, HostnameAction>,
    items: Seq<LoadedHost>,
) -> (Map<Seq<char>, HostnameAction>, Map<Seq<char>, HostnameAction>)
    decreases items.len(),
{
    if items.len() == 0 {
        (hosts, patterns)
    } else {
        let r = spec_apply_items(hosts, patterns, items.drop_last());
        spec_apply_item(r.0, r.1, items.last())
    }
}

pub open spec fn spec_apply_exceptions(
    hosts: Map<Seq<char>, HostnameAction>,
    patterns: Map<Seq<char>, HostnameAction>,
    excs: Seq<NativeHost>,
) -> (Map<Seq<char>, HostnameAction>, Map<Seq<char>, HostnameAction>)
    decreases excs.len(),
{
    if excs.len() == 0 {
        (hosts, patterns)
    } else {
        let r = spec_apply_exceptions(hosts, patterns, excs.drop_last());
        spec_add_host_maps(r.0, r.1, excs.last().state, excs.last().data@)
    }
}

/// The item sources of one state, in order.
pub open spec fn items_with_state(items: Seq<LoadedHost>, st: NativeHostState) -> Seq<LoadedHost>
    decreases items.len(),
{
    if items.len() == 0 {
        Seq::empty()
    } else {
        let r = items_with_state(items.drop_last(), st);
        if items.last().host.state == st {
            r.push(items.last())
        } else {
            r
        }
    }
}

/// The exception sources of one state, in order.
pub open spec fn excs_with_state(excs: Seq<NativeHost>, st: NativeHostState) -> Seq<NativeHost>
    decreases excs.len(),
{
    if excs.len() == 0 {
        Seq::empty()
    } else {
        let r = excs_with_state(excs.drop_last(), st);
        if excs.last().state == st {
            r.push(excs.last())
        } else {
            r
        }
    }
}

/// Deny sources ahead of allow sources, ignored ones gone, order otherwise
/// kept: processing in this order makes a later Allow insertion override a
/// Deny of the same key, so explicit allows win ties.
pub open spec fn spec_deny_first_items(items: Seq<LoadedHost>) -> Seq<LoadedHost> {
    items_with_state(items, NativeHostState::DENY) + items_with_state(
        items,
        NativeHostState::ALLOW,
    )
}

pub open spec fn spec_deny_first_hosts(excs: Seq<NativeHost>) -> Seq<NativeHost> {
    excs_with_state(excs, NativeHostState::DENY) + excs_with_state(
        excs,
        NativeHostState::ALLOW,
    )
}

/// The exact-host and pattern maps a full rebuild produces: item sources
/// first (deny before allow), then exception sources layered on top in the
/// same order.
pub open spec fn spec_initialize(items: Seq<LoadedHost>, excs: Seq<NativeHost>) -> (
    Map<Seq<char>, HostnameAction>,
    Map<Seq<char>, HostnameAction>,
) {
    let r = spec_apply_items(
        Map::empty(),
        Map::empty(),
        spec_deny_first_items(items),
    );
    spec_apply_exceptions(r.0, r.1, spec_deny_first_hosts(excs))
}

/// Start of the hostname part of a hosts-file line: right after the first
/// loopback/no-route literal if one occurs, else the start of the line.
pub open spec fn spec_host_start(line: Seq<char>) -> int {
    let f4 = spec_find_sub(line, "127.0.0.1"@, 0);
    let f6 = spec_find_sub(line, "::1"@, 0);
    let f0 = spec_find_sub(line, "0.0.0.0"@, 0);
    if f4 != -1 {
        f4 + "127.0.0.1"@.len()
    } else if f6 != -1 {
        f6 + "::1"@.len()
    } else if f0 != -1 {
        f0 + "0.0.0.0"@.len()
    } else {
        0
    }
}

/// First position in `[i, end)` that holds a non-space, or `end`.
pub open spec fn spec_skip_spaces(line: Seq<char>, i: int, end: int) -> int
    decreases end - i,
{
    if i < 0 || i >= end || end > line.len() {
        i
    } else if is_space(line[i]) {
        spec_skip_spaces(line, i + 1, end)
    } else {
        i
    }
}

/// End of `[start, end)` with trailing spaces dropped.
pub open spec fn spec_trim_spaces(line: Seq<char>, start: int, end: int) -> int
    decreases end - start,
{
    if start < 0 || end <= start || end > line.len() {
        end
    } else if is_space(line[end - 1]) {
        spec_trim_spaces(line, start, end - 1)
    } else {
        end
    }
}

/// The hostname a hosts-file line yields, if any: nothing for an all-space
/// line or one carrying the unsupported `##` syntax; otherwise the text
/// between the address literal (if any) and the first `#`, space-trimmed and
/// ASCII-lowercased, provided it is non-empty and has no inner space.
pub open spec fn spec_parse_line(line: Seq<char>) -> Option<Seq<char>> {
    if forall|i: int| 0 <= i < line.len() ==> is_space(line[i]) {
        None
    } else if spec_find_sub(line, "##"@, 0) != -1 {
        None
    } else {
        let f = spec_find_char(line, '#', 0);
        let end0 = if f == -1 {
            line.len() as int
        } else {
            f
        };
        let start0 = spec_host_start(line);
        if start0 >= end0 {
            None
        } else {
            let s1 = spec_skip_spaces(line, start0, end0);
            let e1 = spec_trim_spaces(line, s1, end0);
            if s1 >= e1 {
                None
            } else if exists|j: int| s1 <= j < e1 && is_space(line[j]) {
                None
            } else {
                Some(lower(line.subrange(s1, e1)))
            }
        }
    }
}

fn all_spaces(line: &str, n: usize) -> (r: bool)
    requires
        n == line@.len(),
    ensures
        r == (forall|j: int| 0 <= j < line@.len() ==> is_space(line@[j])),
{
    let mut k: usize = 0;
    while k < n
        invariant
            k <= n,
            n == line@.len(),
            forall|j: int| 0 <= j < k ==> is_space(line@[j]),
        decreases n - k,
    {
        if !is_space_exec(line.get_char(k)) {
            return false;
        }
        k += 1;
    }
    true
}

/// The rule database: exact hostnames and suffix patterns, each mapped to
/// allow or deny.
pub struct RuleDatabase {
    hosts: RuleMap,
    patterns: RuleMap,
}

/// The pattern decision for `host`, walking its suffixes from the whole name
/// down, dropping one leading label at a time and stopping once the rest has
/// no dot left.
pub open spec fn spec_pattern_lookup(
    patterns: Map<Seq<char>, HostnameAction>,
    host: Seq<char>,
    start: int,
) -> Option<HostnameAction>
    decreases host.len() - start,
    via spec_pattern_lookup_dec
{
    if !(0 <= start <= host.len()) {
        None
    } else if patterns.contains_key(host.subrange(start, host.len() as int)) {
        Some(patterns[host.subrange(start, host.len() as int)])
    } else {
        let d = spec_find_char(host, '.', start);
        if d == -1 {
            None
        } else if spec_find_char(host, '.', d + 1) == -1 {
            None
        } else {
            spec_pattern_lookup(patterns, host, d + 1)
        }
    }
}

#[via_fn]
proof fn spec_pattern_lookup_dec(
    patterns: Map<Seq<char>, HostnameAction>,
    host: Seq<char>,
    start: int,
) {
    lemma_find_char_bounds(host, '.', start);
}

/// Where `spec_find_char` lands: at a position carrying the character, at or
/// after `from`, or nowhere.
pub proof fn lemma_find_char_bounds(s: Seq<char>, c: char, from: int)
    ensures
        spec_find_char(s, c, from) == -1 || (from <= spec_find_char(s, c, from) < s.len()
            && s[spec_find_char(s, c, from)] == c),
    decreases s.len() - from,
{
    if !(from < 0 || from >= s.len()) && s[from] != c {
        lemma_find_char_bounds(s, c, from + 1);
    }
}

/// Whether the rule database blocks `host`: an exact entry decides first;
/// otherwise the most specific matching suffix pattern decides; otherwise
/// the host is not blocked.
pub open spec fn spec_is_blocked(
    hosts: Map<Seq<char>, HostnameAction>,
    patterns: Map<Seq<char>, HostnameAction>,
    host: Seq<char>,
) -> bool {
    if hosts.contains_key(host) {
        hosts[host] is Deny
    } else {
        match spec_pattern_lookup(patterns, host, 0) {
            Some(a) => a is Deny,
            None => false,
        }
    }
}

impl RuleDatabase {
    pub closed spec fn spec_hosts(&self) -> Map<Seq<char>, HostnameAction> {
        self.hosts@
    }

    pub closed spec fn spec_patterns(&self) -> Map<Seq<char>, HostnameAction> {
        self.patterns@
    }

    /// An empty database: nothing is blocked.
    pub fn new() -> (r: RuleDatabase)
        ensures
            r.spec_hosts() == Map::<Seq<char>, HostnameAction>::empty(),
            r.spec_patterns() == Map::<Seq<char>, HostnameAction>::empty(),
    {
        RuleDatabase { hosts: RuleMap::new(), patterns: RuleMap::new() }
    }

    /// Parses one hosts-file line; see `spec_parse_line` for exactly what
    /// comes out.
    pub fn parse_line(line: &str) -> (r: Option<String>)
        ensures
            match r {
                Some(h) => spec_parse_line(line@) == Some(h@),
                None => spec_parse_line(line@) is None,
            },
    {
        let n = line.unicode_len();
        if all_spaces(line, n) {
            return None;
        }
        proof {
            reveal_strlit("##");
            reveal_strlit("127.0.0.1");
            reveal_strlit("::1");
            reveal_strlit("0.0.0.0");
        }
        if find_sub(line, "##").is_some() {
            return None;
        }
        let end0 = match find_char(line, '#', 0) {
            Some(k) => k,
            None => n,
        };
        let start0 = match find_sub(line, "127.0.0.1") {
            Some(k) => k + 9,
            None => match find_sub(line, "::1") {
                Some(k) => k + 3,
                None => match find_sub(line, "0.0.0.0") {
                    Some(k) => k + 7,
                    None => 0,
                },
            },
        };
        proof {
            assert(start0 as int == spec_host_start(line@));
        }
        if start0 >= end0 {
            return None;
        }
        let mut s1 = start0;
        while s1 < end0 && is_space_exec(line.get_char(s1))
            invariant
                start0 <= s1 <= end0,
                end0 <= n,
                n == line@.len(),
                spec_skip_spaces(line@, start0 as int, end0 as int) == spec_skip_spaces(
                    line@,
                    s1 as int,
                    end0 as int,
                ),
            decreases end0 - s1,
        {
            s1 += 1;
        }
        proof {
            assert(spec_skip_spaces(line@, s1 as int, end0 as int) == s1 as int);
        }
        let mut e1 = end0;
        while e1 > s1 && is_space_exec(line.get_char(e1 - 1))
            invariant
                s1 <= e1 <= end0,
                end0 <= n,
                n == line@.len(),
                spec_trim_spaces(line@, s1 as int, end0 as int) == spec_trim_spaces(
                    line@,
                    s1 as int,
                    e1 as int,
                ),
            decreases e1,
        {
            e1 -= 1;
        }
        proof {
            assert(spec_trim_spaces(line@, s1 as int, e1 as int) == e1 as int);
        }
        if s1 >= e1 {
            return None;
        }
        match lower_range_no_space(line, s1, e1, n) {
            Some(out) => Some(string_from_chars(&out)),
            None => None,
        }
    }

    /// Classifies `data` and, unless the build has been cancelled, feeds it
    /// into the scratch maps; a malformed entry is reported and changes
    /// nothing.
    pub fn add_host(
        vpn_controller: &VpnController,
        new_hosts: &mut RuleMap,
        new_patterns: &mut RuleMap,
        state: &NativeHostState,
        data: String,
    ) -> (r: Result<(), RuleDatabaseError>)
        ensures
            r == Err::<(), RuleDatabaseError>(RuleDatabaseError::Interrupted) ==> (
            final(new_hosts)@ == old(new_hosts)@ && final(new_patterns)@ == old(new_patterns)@),
            r != Err::<(), RuleDatabaseError>(RuleDatabaseError::Interrupted) ==> ({
                let m = spec_add_host_maps(old(new_hosts)@, old(new_patterns)@, *state, data@);
                final(new_hosts)@ == m.0 && final(new_patterns)@ == m.1 && ((r is Ok)
                    == spec_add_host_ok(data@))
            }),
    {
        if vpn_controller.get_should_stop() {
            return Err(RuleDatabaseError::Interrupted);
        }
        Self::apply_host(new_hosts, new_patterns, state, data)
    }

    /// The cancellation-free part of `add_host`: the pure classification and
    /// insertion, exactly `spec_add_host_maps`.
    pub fn apply_host(
        new_hosts: &mut RuleMap,
        new_patterns: &mut RuleMap,
        state: &NativeHostState,
        data: String,
    ) -> (r: Result<(), RuleDatabaseError>)
        ensures
            ({
                let m = spec_add_host_maps(old(new_hosts)@, old(new_patterns)@, *state, data@);
                final(new_hosts)@ == m.0 && final(new_patterns)@ == m.1
            }),
            (r is Ok) == spec_add_host_ok(data@),
            r is Err ==> r == Err::<(), RuleDatabaseError>(RuleDatabaseError::BadHostFormat),
    {
        let dv = chars_of(data.as_str());
        let n = dv.len();
        if n < 2 {
            return Err(RuleDatabaseError::BadHostFormat);
        }
        if dv[0] == '*' {
            match state {
                NativeHostState::IGNORE => {},
                NativeHostState::DENY => {
                    let key = string_range(&dv, 2, n);
                    new_patterns.insert(key, HostnameAction::Deny);
                },
                NativeHostState::ALLOW => {
                    let key = string_range(&dv, 2, n);
                    new_patterns.insert(key, HostnameAction::Allow);
                },
            }
            return Ok(());
        }
        if dv[0] == '|' && dv[1] == '|' {
            if dv[n - 1] == '^' {
                match state {
                    NativeHostState::IGNORE => {},
                    NativeHostState::DENY => {
                        let key = string_range(&dv, 2, n - 1);
                        new_patterns.insert(key, HostnameAction::Deny);
                    },
                    NativeHostState::ALLOW => {
                        let key = string_range(&dv, 2, n - 1);
                        new_patterns.insert(key, HostnameAction::Allow);
                    },
                }
                return Ok(());
            }
            return Err(RuleDatabaseError::BadHostFormat);
        }
        if !all_host_chars(&dv) {
            return Err(RuleDatabaseError::BadHostFormat);
        }
        match state {
            NativeHostState::IGNORE => {},
            NativeHostState::DENY => {
                new_hosts.insert(data.clone(), HostnameAction::Deny);
            },
            NativeHostState::ALLOW => {
                new_hosts.insert(data.clone(), HostnameAction::Allow);
            },
        }
        Ok(())
    }

    /// Feeds the parsed lines of one host file through `parse_line` and
    /// `add_host`, in order; a line that yields no hostname, or a malformed
    /// entry, is skipped. Only a cancellation stops the walk.
    pub fn load_file(
        vpn_controller: &VpnController,
        new_hosts: &mut RuleMap,
        new_patterns: &mut RuleMap,
        state: &NativeHostState,
        lines: &Vec<String>,
    ) -> (r: Result<(), RuleDatabaseError>)
        ensures
            r is Ok ==> ({
                let m = spec_apply_lines(
                    old(new_hosts)@,
                    old(new_patterns)@,
                    *state,
                    lines@.map_values(|s: String| s@),
                );
                final(new_hosts)@ == m.0 && final(new_patterns)@ == m.1
            }),
            r is Err ==> r == Err::<(), RuleDatabaseError>(RuleDatabaseError::Interrupted),
    {
        let ghost lseq = lines@.map_values(|s: String| s@);
        let m = lines.len();
        let mut j: usize = 0;
        while j < m
            invariant
                j <= m,
                m == lines@.len(),
                lseq == lines@.map_values(|s: String| s@),
                ({
                    let mm = spec_apply_lines(
                        old(new_hosts)@,
                        old(new_patterns)@,
                        *state,
                        lseq.take(j as int),
                    );
                    new_hosts@ == mm.0 && new_patterns@ == mm.1
                }),
            decreases m - j,
        {
            let line = &lines[j];
            match Self::parse_line(line.as_str()) {
                Some(host) => {
                    match Self::add_host(vpn_controller, new_hosts, new_patterns, state, host) {
                        Ok(_) => {},
                        Err(e) => {
                            if matches!(e, RuleDatabaseError::Interrupted) {
                                return Err(RuleDatabaseError::Interrupted);
                            }
                        },
                    }
                },
                None => {},
            }
            proof {
                assert(lseq.take(j + 1).drop_last() =~= lseq.take(j as int));
                assert(lseq.take(j + 1).last() == lines@[j as int]@);
            }
            j += 1;
        }
        proof {
            assert(lseq.take(m as int) =~= lseq);
        }
        Ok(())
    }

    /// Feeds one loaded source into the scratch maps: its file lines through
    /// the line parser, or its identifier as a single hostname if no file
    /// was available. Only a cancellation stops the walk.
    pub fn load_item(
        vpn_controller: &VpnController,
        new_hosts: &mut RuleMap,
        new_patterns: &mut RuleMap,
        item: &LoadedHost,
    ) -> (r: Result<(), RuleDatabaseError>)
        ensures
            r is Ok ==> ({
                let m = spec_apply_item(old(new_hosts)@, old(new_patterns)@, *item);
                final(new_hosts)@ == m.0 && final(new_patterns)@ == m.1
            }),
            r is Err ==> r == Err::<(), RuleDatabaseError>(RuleDatabaseError::Interrupted),
    {
        match &item.lines {
            Some(ls) => {
                Self::load_file(vpn_controller, new_hosts, new_patterns, &item.host.state, ls)
            },
            None => {
                match Self::add_host(
                    vpn_controller,
                    new_hosts,
                    new_patterns,
                    &item.host.state,
                    item.host.data.clone(),
                ) {
                    Ok(_) => Ok(()),
                    Err(e) => {
                        if matches!(e, RuleDatabaseError::Interrupted) {
                            Err(RuleDatabaseError::Interrupted)
                        } else {
                            Ok(())
                        }
                    },
                }
            },
        }
    }

    /// One pass over the item sources, feeding exactly those of state `st`
    /// into the scratch maps, in order.
    fn load_items_pass(
        vpn_controller: &VpnController,
        new_hosts: &mut RuleMap,
        new_patterns: &mut RuleMap,
        items: &Vec<LoadedHost>,
        st: NativeHostState,
    ) -> (r: Result<(), RuleDatabaseError>)
        ensures
            r is Ok ==> ({
                let m = spec_apply_items(
                    old(new_hosts)@,
                    old(new_patterns)@,
                    items_with_state(items@, st),
                );
                final(new_hosts)@ == m.0 && final(new_patterns)@ == m.1
            }),
            r is Err ==> r == Err::<(), RuleDatabaseError>(RuleDatabaseError::Interrupted),
    {
        let n = items.len();
        let mut i: usize = 0;
        while i < n
            invariant
                i <= n,
                n == items@.len(),
                ({
                    let m = spec_apply_items(
                        old(new_hosts)@,
                        old(new_patterns)@,
                        items_with_state(items@.take(i as int), st),
                    );
                    new_hosts@ == m.0 && new_patterns@ == m.1
                }),
            decreases n - i,
        {
            let it = &items[i];
            let ghost d0 = items_with_state(items@.take(i as int), st);
            if it.host.state == st {
                match Self::load_item(vpn_controller, new_hosts, new_patterns, it) {
                    Ok(_) => {},
                    Err(_) => {
                        return Err(RuleDatabaseError::Interrupted);
                    },
                }
            }
            proof {
                let s = items@;
                assert(s.take(i + 1).drop_last() =~= s.take(i as int));
                assert(s.take(i + 1).last() == s[i as int]);
                if s[i as int].host.state == st {
                    assert(items_with_state(s.take(i + 1), st) == d0.push(s[i as int]));
                    assert(d0.push(s[i as int]).drop_last() =~= d0);
                    assert(d0.push(s[i as int]).last() == s[i as int]);
                } else {
                    assert(items_with_state(s.take(i + 1), st) == d0);
                }
            }
            i += 1;
        }
        proof {
            assert(items@.take(n as int) =~= items@);
        }
        Ok(())
    }

    /// One pass over the exception sources, feeding exactly those of state
    /// `st` through `add_host`, in order.
    fn add_excs_pass(
        vpn_controller: &VpnController,
        new_hosts: &mut RuleMap,
        new_patterns: &mut RuleMap,
        excs: &Vec<NativeHost>,
        st: NativeHostState,
    ) -> (r: Result<(), RuleDatabaseError>)
        ensures
            r is Ok ==> ({
                let m = spec_apply_exceptions(
                    old(new_hosts)@,
                    old(new_patterns)@,
                    excs_with_state(excs@, st),
                );
                final(new_hosts)@ == m.0 && final(new_patterns)@ == m.1
            }),
            r is Err ==> r == Err::<(), RuleDatabaseError>(RuleDatabaseError::Interrupted),
    {
        let n = excs.len();
        let mut k: usize = 0;
        while k < n
            invariant
                k <= n,
                n == excs@.len(),
                ({
                    let m = spec_apply_exceptions(
                        old(new_hosts)@,
                        old(new_patterns)@,
                        excs_with_state(excs@.take(k as int), st),
                    );
                    new_hosts@ == m.0 && new_patterns@ == m.1
                }),
            decreases n - k,
        {
            let e = &excs[k];
            let ghost d0 = excs_with_state(excs@.take(k as int), st);
            if e.state == st {
                match Self::add_host(
                    vpn_controller,
                    new_hosts,
                    new_patterns,
                    &e.state,
                    e.data.clone(),
                ) {
                    Ok(_) => {},
                    Err(err) => {
                        if matches!(err, RuleDatabaseError::Interrupted) {
                            return Err(RuleDatabaseError::Interrupted);
                        }
                    },
                }
            }
            proof {
                let s = excs@;
                assert(s.take(k + 1).drop_last() =~= s.take(k as int));
                assert(s.take(k + 1).last() == s[k as int]);
                if s[k as int].state == st {
                    assert(excs_with_state(s.take(k + 1), st) == d0.push(s[k as int]));
                    assert(d0.push(s[k as int]).drop_last() =~= d0);
                    assert(d0.push(s[k as int]).last() == s[k as int]);
                } else {
                    assert(excs_with_state(s.take(k + 1), st) == d0);
                }
            }
            k += 1;
        }
        proof {
            assert(excs@.take(n as int) =~= excs@);
        }
        Ok(())
    }

    /// Rebuilds the database from scratch: item sources first, deny sources
    /// ahead of allow sources, then exception sources layered on top in the
    /// same order, and finally an atomic swap. A cancellation observed
    /// anywhere mid-build aborts and leaves the previous database untouched.
    pub fn initialize(
        &mut self,
        vpn_controller: &VpnController,
        host_items: Vec<LoadedHost>,
        host_exceptions: Vec<NativeHost>,
    ) -> (r: Result<(), RuleDatabaseError>)
        ensures
            r is Ok ==> ({
                let m = spec_initialize(host_items@, host_exceptions@);
                final(self).spec_hosts() == m.0 && final(self).spec_patterns() == m.1
            }),
            r is Err ==> r == Err::<(), RuleDatabaseError>(RuleDatabaseError::Interrupted)
                && final(self).spec_hosts() == old(self).spec_hosts()
                && final(self).spec_patterns() == old(self).spec_patterns(),
    {
        let ghost e0 = Map::<Seq<char>, HostnameAction>::empty();
        let mut new_hosts = RuleMap::new();
        let mut new_patterns = RuleMap::new();

        match Self::load_items_pass(
            vpn_controller,
            &mut new_hosts,
            &mut new_patterns,
            &host_items,
            NativeHostState::DENY,
        ) {
            Ok(_) => {},
            Err(_) => {
                return Err(RuleDatabaseError::Interrupted);
            },
        }
        match Self::load_items_pass(
            vpn_controller,
            &mut new_hosts,
            &mut new_patterns,
            &host_items,
            NativeHostState::ALLOW,
        ) {
            Ok(_) => {},
            Err(_) => {
                return Err(RuleDatabaseError::Interrupted);
            },
        }
        proof {
            lemma_apply_items_concat(
                e0,
                e0,
                items_with_state(host_items@, NativeHostState::DENY),
                items_with_state(host_items@, NativeHostState::ALLOW),
            );
        }

        let ghost after_items_h = new_hosts@;
        let ghost after_items_p = new_patterns@;
        match Self::add_excs_pass(
            vpn_controller,
            &mut new_hosts,
            &mut new_patterns,
            &host_exceptions,
            NativeHostState::DENY,
        ) {
            Ok(_) => {},
            Err(_) => {
                return Err(RuleDatabaseError::Interrupted);
            },
        }
        match Self::add_excs_pass(
            vpn_controller,
            &mut new_hosts,
            &mut new_patterns,
            &host_exceptions,
            NativeHostState::ALLOW,
        ) {
            Ok(_) => {},
            Err(_) => {
                return Err(RuleDatabaseError::Interrupted);
            },
        }
        proof {
            lemma_apply_exceptions_concat(
                after_items_h,
                after_items_p,
                excs_with_state(host_exceptions@, NativeHostState::DENY),
                excs_with_state(host_exceptions@, NativeHostState::ALLOW),
            );
        }

        self.hosts = new_hosts;
        self.patterns = new_patterns;
        Ok(())
    }

    /// Whether `host` is blocked; see `spec_is_blocked`.
    pub fn is_blocked(&self, host: &str) -> (r: bool)
        ensures
            r == spec_is_blocked(self.spec_hosts(), self.spec_patterns(), host@),
    {
        match self.hosts.get(host) {
            Some(a) => {
                return matches!(a, HostnameAction::Deny);
            },
            None => {},
        }
        let n = host.unicode_len();
        let mut start: usize = 0;
        loop
            invariant
                start <= n,
                n == host@.len(),
                !self.spec_hosts().contains_key(host@),
                spec_pattern_lookup(self.spec_patterns(), host@, 0) == spec_pattern_lookup(
                    self.spec_patterns(),
                    host@,
                    start as int,
                ),
            decreases n - start,
        {
            let suf = host.substring_char(start, n);
            match self.patterns.get(suf) {
                Some(a) => {
                    return matches!(a, HostnameAction::Deny);
                },
                None => {},
            }
            match find_char(host, '.', start) {
                None => {
                    return false;
                },
                Some(d) => {
                    let ns = d + 1;
                    match find_char(host, '.', ns) {
                        None => {
                            return false;
                        },
                        Some(_) => {
                            start = ns;
                        },
                    }
                },
            }
        }
    }
}

impl LoadedHost {
    /// The inclusion state of the underlying source.
    pub fn state_of(&self) -> (r: NativeHostState)
        ensures
            r == self.host.state,
    {
        self.host.state
    }
}

/// Builds the string of `v[a..b]`.
fn string_range(v: &Vec<char>, a: usize, b: usize) -> (r: String)
    requires
        a <= b <= v@.len(),
    ensures
        r@ == v@.subrange(a as int, b as int),
{
    let mut out: Vec<char> = Vec::new();
    let mut j = a;
    while j < b
        invariant
            a <= j <= b,
            b <= v@.len(),
            out@ == v@.subrange(a as int, j as int),
        decreases b - j,
    {
        out.push(v[j]);
        proof {
            assert(v@.subrange(a as int, j + 1) =~= v@.subrange(a as int, j as int).push(
                v@[j as int],
            ));
        }
        j += 1;
    }
    string_from_chars(&out)
}

/// Folding two item runs one after the other is folding their
/// concatenation.
proof fn lemma_apply_items_concat(
    hosts: Map<Seq<char>, HostnameAction>,
    patterns: Map<Seq<char>, HostnameAction>,
    a: Seq<LoadedHost>,
    b: Seq<LoadedHost>,
)
    ensures
        ({
            let m1 = spec_apply_items(hosts, patterns, a);
            spec_apply_items(m1.0, m1.1, b) == spec_apply_items(hosts, patterns, a + b)
        }),
    decreases b.len(),
{
    let m1 = spec_apply_items(hosts, patterns, a);
    if b.len() == 0 {
        assert(a + b =~= a);
    } else {
        lemma_apply_items_concat(hosts, patterns, a, b.drop_last());
        assert((a + b).drop_last() =~= a + b.drop_last());
        assert((a + b).last() == b.last());
    }
}

/// Folding two exception runs one after the other is folding their
/// concatenation.
proof fn lemma_apply_exceptions_concat(
    hosts: Map<Seq<char>, HostnameAction>,
    patterns: Map<Seq<char>, HostnameAction>,
    a: Seq<NativeHost>,
    b: Seq<NativeHost>,
)
    ensures
        ({
            let m1 = spec_apply_exceptions(hosts, patterns, a);
            spec_apply_exceptions(m1.0, m1.1, b) == spec_apply_exceptions(hosts, patterns, a + b)
        }),
    decreases b.len(),
{
    let m1 = spec_apply_exceptions(hosts, patterns, a);
    if b.len() == 0 {
        assert(a + b =~= a);
    } else {
        lemma_apply_exceptions_concat(hosts, patterns, a, b.drop_last());
        assert((a + b).drop_last() =~= a + b.drop_last());
        assert((a + b).last() == b.last());
    }
}



/// Whether every character of `v` may stand in a plain hostname.
fn all_host_chars(v: &Vec<char>) -> (r: bool)
    ensures
        r == (forall|t: int| 0 <= t < v@.len() ==> is_host_char(v@[t])),
{
    let n = v.len();
    let mut j: usize = 0;
    while j < n
        invariant
            j <= n,
            n == v@.len(),
            forall|t: int| 0 <= t < j ==> is_host_char(v@[t]),
        decreases n - j,
    {
        if !is_host_char_exec(v[j]) {
            return false;
        }
        j += 1;
    }
    true
}

/// The ASCII-lowercased copy of `line[a..b]`, or nothing if that range
/// holds a space.
fn lower_range_no_space(line: &str, a: usize, b: usize, n: usize) -> (r: Option<Vec<char>>)
    requires
        n == line@.len(),
        a <= b <= n,
    ensures
        match r {
            Some(v) => v@ == lower(line@.subrange(a as int, b as int)) && (forall|t: int|
                a <= t < b ==> !is_space(line@[t])),
            None => exists|t: int| a <= t < b && is_space(line@[t]),
        },
{
    let mut out: Vec<char> = Vec::new();
    let mut j = a;
    while j < b
        invariant
            a <= j <= b,
            b <= n,
            n == line@.len(),
            forall|t: int| a <= t < j ==> !is_space(line@[t]),
            out@ == lower(line@.subrange(a as int, j as int)),
        decreases b - j,
    {
        let c = line.get_char(j);
        if is_space_exec(c) {
            return None;
        }
        out.push(lower_char_exec(c));
        proof {
            assert(line@.subrange(a as int, j + 1) =~= line@.subrange(a as int, j as int).push(
                line@[j as int],
            ));
            assert(lower(line@.subrange(a as int, j + 1)) =~= lower(
                line@.subrange(a as int, j as int),
            ).push(crate::chars::lower_char(line@[j as int])));
        }
        j += 1;
    }
    Some(out)
}

/// Membership survives the state filter: a source of state `st` is in the
/// pass for `st`.
proof fn lemma_excs_with_state_membership(excs: Seq<NativeHost>, st: NativeHostState, k: int)
    requires
        0 <= k < excs.len(),
        excs[k].state == st,
    ensures
        exists|j: int|
            0 <= j < excs_with_state(excs, st).len() && excs_with_state(excs, st)[j].data@
                == excs[k].data@,
    decreases excs.len(),
{
    if k == excs.len() - 1 {
        let f = excs_with_state(excs, st);
        assert(f[f.len() - 1].data@ == excs[k].data@);
    } else {
        lemma_excs_with_state_membership(excs.drop_last(), st, k);
        let f0 = excs_with_state(excs.drop_last(), st);
        let f = excs_with_state(excs, st);
        let j0 = choose|j: int| 0 <= j < f0.len() && f0[j].data@ == excs.drop_last()[k].data@;
        assert(f[j0].data@ == excs[k].data@);
    }
}

/// A plain hostname: what `add_host` files under the exact-host map.
pub open spec fn plain_host_entry(h: Seq<char>) -> bool {
    &&& h.len() >= 2
    &&& h[0] != '*'
    &&& !(h[0] == '|' && h[1] == '|')
    &&& forall|j: int| 0 <= j < h.len() ==> is_host_char(h[j])
}

/// One `add_host` step never downgrades an Allow binding of a plain
/// hostname `h`, unless the step itself writes `h`.
proof fn lemma_add_host_preserves_allow(
    hosts: Map<Seq<char>, HostnameAction>,
    patterns: Map<Seq<char>, HostnameAction>,
    st: NativeHostState,
    d: Seq<char>,
    h: Seq<char>,
)
    requires
        hosts.contains_key(h) && hosts[h] == HostnameAction::Allow,
        d == h ==> st is ALLOW || st is IGNORE,
    ensures
        ({
            let m = spec_add_host_maps(hosts, patterns, st, d);
            m.0.contains_key(h) && m.0[h] == HostnameAction::Allow
        }),
{
}

/// After the allow-exception pass, a plain hostname named by some entry of
/// the pass is bound to Allow.
proof fn lemma_allow_pass_sets(
    hosts: Map<Seq<char>, HostnameAction>,
    patterns: Map<Seq<char>, HostnameAction>,
    excs: Seq<NativeHost>,
    h: Seq<char>,
)
    requires
        plain_host_entry(h),
        forall|k: int| 0 <= k < excs.len() ==> excs[k].state is ALLOW,
        exists|k: int| 0 <= k < excs.len() && excs[k].data@ == h,
    ensures
        ({
            let m = spec_apply_exceptions(hosts, patterns, excs);
            m.0.contains_key(h) && m.0[h] == HostnameAction::Allow
        }),
    decreases excs.len(),
{
    let last = excs.last();
    let m0 = spec_apply_exceptions(hosts, patterns, excs.drop_last());
    if last.data@ == h {
        assert(spec_add_host_maps(m0.0, m0.1, last.state, h).0 == m0.0.insert(
            h,
            HostnameAction::Allow,
        ));
    } else {
        let k = choose|k: int| 0 <= k < excs.len() && excs[k].data@ == h;
        assert(excs.drop_last()[k].data@ == h);
        lemma_allow_pass_sets(hosts, patterns, excs.drop_last(), h);
        lemma_add_host_preserves_allow(m0.0, m0.1, last.state, last.data@, h);
    }
}

/// Rule precedence: a hostname that some allow-exception source names ends
/// up allowed, whatever the item sources and the deny exceptions said about
/// it — exceptions are processed after items, and within a tier the allow
/// entries are processed last, so an explicit allow wins every tie.
pub proof fn lemma_rule_precedence(items: Seq<LoadedHost>, excs: Seq<NativeHost>, h: Seq<char>)
    requires
        plain_host_entry(h),
        exists|k: int| 0 <= k < excs.len() && excs[k].state is ALLOW && excs[k].data@ == h,
    ensures
        !spec_is_blocked(spec_initialize(items, excs).0, spec_initialize(items, excs).1, h),
{
    let k = choose|k: int| 0 <= k < excs.len() && excs[k].state is ALLOW && excs[k].data@ == h;
    lemma_excs_with_state_membership(excs, NativeHostState::ALLOW, k);
    let after_items = spec_apply_items(
        Map::empty(),
        Map::empty(),
        spec_deny_first_items(items),
    );
    let after_deny = spec_apply_exceptions(
        after_items.0,
        after_items.1,
        excs_with_state(excs, NativeHostState::DENY),
    );
    lemma_apply_exceptions_concat(
        after_items.0,
        after_items.1,
        excs_with_state(excs, NativeHostState::DENY),
        excs_with_state(excs, NativeHostState::ALLOW),
    );
    lemma_excs_pass_states(excs, NativeHostState::ALLOW);
    lemma_allow_pass_sets(
        after_deny.0,
        after_deny.1,
        excs_with_state(excs, NativeHostState::ALLOW),
        h,
    );
}

/// Every entry of a state pass carries that state.
proof fn lemma_excs_pass_states(excs: Seq<NativeHost>, st: NativeHostState)
    ensures
        forall|j: int|
            0 <= j < excs_with_state(excs, st).len() ==> excs_with_state(excs, st)[j].state == st,
    decreases excs.len(),
{
    if excs.len() > 0 {
        lemma_excs_pass_states(excs.drop_last(), st);
    }
}

/// Wildcard formats: the star form `*.<s>` and the ABP form `||<s>^` are
/// the same rule — both file the bare pattern `s` in the pattern map, under
/// the same action, and leave the exact-host map alone.
pub proof fn lemma_wildcard_formats(
    hosts: Map<Seq<char>, HostnameAction>,
    patterns: Map<Seq<char>, HostnameAction>,
    st: NativeHostState,
    s: Seq<char>,
)
    requires
        !(st is IGNORE),
    ensures
        ({
            let star = seq!['*', '.'] + s;
            let abp = seq!['|', '|'] + s + seq!['^'];
            spec_add_host_maps(hosts, patterns, st, star) == spec_add_host_maps(
                hosts,
                patterns,
                st,
                abp,
            ) && spec_add_host_maps(hosts, patterns, st, star) == (
                hosts,
                patterns.insert(s, state_action(st)),
            )
        }),
{
    let star = seq!['*', '.'] + s;
    let abp = seq!['|', '|'] + s + seq!['^'];
    assert(star[0] == '*');
    assert(abp[0] == '|' && abp[1] == '|');
    assert(abp.last() == '^');
    assert(star.subrange(2, star.len() as int) =~= s);
    assert(abp.subrange(2, abp.len() - 1) =~= s);
}

/// An exact entry decides by itself: whatever the pattern map holds, a
/// hostname with an exact binding is blocked exactly when that binding is
/// Deny — in particular an exact Allow overrides every matching pattern.
pub proof fn lemma_exact_entry_decides(
    hosts: Map<Seq<char>, HostnameAction>,
    patterns: Map<Seq<char>, HostnameAction>,
    h: Seq<char>,
)
    requires
        hosts.contains_key(h),
    ensures
        spec_is_blocked(hosts, patterns, h) == (hosts[h] is Deny),
{
}

/// Where a character occurs, the first occurrence is no later.
proof fn lemma_find_char_le(s: Seq<char>, c: char, from: int, j: int)
    requires
        0 <= from <= j < s.len(),
        s[j] == c,
    ensures
        spec_find_char(s, c, from) != -1,
        spec_find_char(s, c, from) <= j,
    decreases j - from,
{
    if s[from] != c {
        lemma_find_char_le(s, c, from + 1, j);
    }
}

/// A label start the suffix walk reaches: the whole name, or a position
/// right after a dot whose suffix still holds a dot.
pub open spec fn label_start_reachable(h: Seq<char>, i: int) -> bool {
    i == 0 || (1 <= i <= h.len() && h[i - 1] == '.' && spec_find_char(h, '.', i) != -1)
}

/// The suffix walk passes every reachable label start in order: skipping
/// the pattern-free ones does not change its outcome.
proof fn lemma_pattern_walk(
    patterns: Map<Seq<char>, HostnameAction>,
    h: Seq<char>,
    start: int,
    i: int,
)
    requires
        0 <= start <= i <= h.len(),
        label_start_reachable(h, start),
        label_start_reachable(h, i),
        forall|j: int|
            start <= j < i && label_start_reachable(h, j) ==> !patterns.contains_key(
                h.subrange(j, h.len() as int),
            ),
    ensures
        spec_pattern_lookup(patterns, h, start) == spec_pattern_lookup(patterns, h, i),
    decreases i - start,
{
    if start < i {
        assert(!patterns.contains_key(h.subrange(start, h.len() as int)));
        lemma_find_char_le(h, '.', start, i - 1);
        lemma_find_char_bounds(h, '.', start);
        let d = spec_find_char(h, '.', start);
        let ns = d + 1;
        assert(h[ns - 1] == '.');
        if ns <= i - 1 {
            lemma_find_char_le(h, '.', ns, i - 1);
        }
        assert(spec_find_char(h, '.', ns) != -1);
        assert(label_start_reachable(h, ns));
        lemma_pattern_walk(patterns, h, ns, i);
    }
}

/// Pattern matching: with no exact entry for `h`, a Deny pattern equal to
/// the suffix of `h` at a reachable label start blocks `h`, provided no
/// more specific reachable suffix carries a pattern of its own.
pub proof fn lemma_pattern_suffix_blocks(
    hosts: Map<Seq<char>, HostnameAction>,
    patterns: Map<Seq<char>, HostnameAction>,
    h: Seq<char>,
    i: int,
)
    requires
        !hosts.contains_key(h),
        0 <= i <= h.len(),
        label_start_reachable(h, i),
        patterns.contains_key(h.subrange(i, h.len() as int)),
        patterns[h.subrange(i, h.len() as int)] is Deny,
        forall|j: int|
            0 <= j < i && label_start_reachable(h, j) ==> !patterns.contains_key(
                h.subrange(j, h.len() as int),
            ),
    ensures
        spec_is_blocked(hosts, patterns, h),
{
    lemma_pattern_walk(patterns, h, 0, i);
}

} // verus!

//! The memory watchdog: reading the kernel's figures, arming against a limit,
//! and speaking up once per tier.
use vstd::prelude::*;
use crate::text;

verus! {

/// The allocator's own figures, in bytes.
#[derive(Clone, Copy, Debug, PartialEq, Eq, Structural)]
pub struct AllocatorStats {
    /// The working set as the allocator sees it.
    pub current_rss: usize,
    /// Memory the allocator has committed.
    pub current_commit: usize,
}

/// Where the allocator's owner leaves the function that tells its figures.
pub struct AllocatorHook<F> {
    pub f: Option<F>,
}

impl<F> AllocatorHook<F> {
    /// Nothing installed.
    pub fn new() -> (h: AllocatorHook<F>)
        ensures
            h.f is None,
    {
        AllocatorHook { f: None }
    }
}

/// Installs the function that tells the allocator's figures, in place of an
/// earlier one. It is not called here.
pub fn set_allocator_stats<F: Fn() -> AllocatorStats>(h: &mut AllocatorHook<F>, f: F)
    ensures
        final(h).f == Some(f),
{
    h.f = Some(f);
}

/// The allocator's figures as the installed function tells them now; none
/// where there is no such function.
pub fn read_allocator_stats<F: Fn() -> AllocatorStats>(h: &AllocatorHook<F>) -> (r: Option<
    AllocatorStats,
>)
    requires
        h.f matches Some(f) ==> call_requires(f, ()),
    ensures
        match h.f {
            Some(f) => r is Some && call_ensures(f, (), r->0),
            None => r is None,
        },
{
    match &h.f {
        Some(f) => Some(f()),
        None => None,
    }
}

/// The kernel's figures about this process, in kB.
#[derive(Clone, Copy, Debug, PartialEq, Eq, Structural)]
pub struct ProcMem {
    pub rss_kb: u64,
    pub anon_kb: u64,
    pub shmem_kb: u64,
    pub hwm_kb: u64,
}

/// The position of the first line feed from `from` on, or the length.
pub open spec fn line_end(s: Seq<char>, from: int) -> int
    decreases s.len() - from,
{
    if from >= s.len() {
        s.len() as int
    } else if s[from] == '\n' {
        from
    } else {
        line_end(s, from + 1)
    }
}

/// The line from `from` to `end`, without the carriage return that belongs to
/// its line feed.
pub open spec fn line_text(s: Seq<char>, from: int, end: int) -> Seq<char> {
    if end < s.len() && end > from && s[end - 1] == '\r' {
        s.subrange(from, end - 1)
    } else {
        s.subrange(from, end)
    }
}

/// The lines of `s` from `from` on.
pub open spec fn lines_from(s: Seq<char>, from: int) -> Seq<Seq<char>>
    decreases s.len() + 1 - from,
{
    if from >= s.len() || !(from <= line_end(s, from) <= s.len()) {
        Seq::empty()
    } else {
        seq![line_text(s, from, line_end(s, from))] + lines_from(s, line_end(s, from) + 1)
    }
}

pub proof fn lemma_line_end(s: Seq<char>, from: int, k: int)
    requires
        from <= k <= s.len(),
        forall|j: int| from <= j < k ==> s[j] != '\n',
        k < s.len() ==> s[k] == '\n',
    ensures
        line_end(s, from) == k,
    decreases k - from,
{
    if from < k {
        lemma_line_end(s, from + 1, k);
    }
}

/// Whether `s` starts with `p`.
pub open spec fn has_prefix(s: Seq<char>, p: Seq<char>) -> bool {
    p.len() <= s.len() && s.take(p.len() as int) == p
}

/// What follows `p` in `s`, where `s` starts with `p`.
fn strip_prefix<'a>(s: &'a str, p: &str) -> (r: Option<&'a str>)
    ensures
        r is Some <==> has_prefix(s@, p@),
        r matches Some(t) ==> t@ == s@.skip(p@.len() as int),
{
    let n: usize = s.unicode_len();
    let m: usize = p.unicode_len();
    if m > n {
        return None;
    }
    let head = s.substring_char(0, m);
    assert(s@.subrange(0, m as int) =~= s@.take(m as int));
    if text::str_eq(head, p) {
        assert(s@.subrange(m as int, n as int) =~= s@.skip(m as int));
        Some(s.substring_char(m, n))
    } else {
        None
    }
}

/// `s` without the units at its end.
pub open spec fn without_units(s: Seq<char>) -> Seq<char>
    decreases s.len(),
{
    if s.len() >= 2 && s[s.len() - 2] == 'k' && s[s.len() - 1] == 'B' {
        without_units(s.take(s.len() - 2))
    } else {
        s
    }
}

fn strip_units(s: &str) -> (r: &str)
    ensures
        r@ == without_units(s@),
{
    let mut end: usize = s.unicode_len();
    assert(s@.take(end as int) =~= s@);
    while end >= 2 && s.get_char(end - 2) == 'k' && s.get_char(end - 1) == 'B'
        invariant
            end <= s@.len(),
            without_units(s@) == without_units(s@.take(end as int)),
        decreases end,
    {
        proof {
            let t = s@.take(end as int);
            assert(t.take(t.len() - 2) =~= s@.take(end - 2));
        }
        end = end - 2;
    }
    proof {
        let t = s@.take(end as int);
        assert(t.len() >= 2 ==> t[t.len() - 2] == s@[end - 2] && t[t.len() - 1] == s@[end - 1]);
        assert(s@.subrange(0, end as int) =~= t);
    }
    s.substring_char(0, end)
}

/// The number that `s` spells, or 0.
pub open spec fn number_or_0(s: Seq<char>) -> u64 {
    match text::parse_unsigned(s) {
        Some(n) => if n <= u64::MAX { n as u64 } else { 0 },
        None => 0,
    }
}

/// The figure in the rest of a line: a number, perhaps in kB.
pub open spec fn kb_value(s: Seq<char>) -> u64 {
    number_or_0(text::trimmed(without_units(text::trimmed(s))))
}

fn parse_kb(s: &str) -> (r: u64)
    ensures
        r == kb_value(s@),
{
    match text::parse_u64(text::trim(strip_units(text::trim(s)))) {
        Some(n) => n,
        None => 0,
    }
}

/// The figures after one more line.
pub open spec fn with_line(m: ProcMem, l: Seq<char>) -> ProcMem {
    if has_prefix(l, "VmRSS:"@) {
        ProcMem { rss_kb: kb_value(l.skip("VmRSS:"@.len() as int)), ..m }
    } else if has_prefix(l, "VmHWM:"@) {
        ProcMem { hwm_kb: kb_value(l.skip("VmHWM:"@.len() as int)), ..m }
    } else if has_prefix(l, "RssAnon:"@) {
        ProcMem { anon_kb: kb_value(l.skip("RssAnon:"@.len() as int)), ..m }
    } else if has_prefix(l, "RssShmem:"@) {
        ProcMem { shmem_kb: kb_value(l.skip("RssShmem:"@.len() as int)), ..m }
    } else {
        m
    }
}

/// The figures after more lines.
pub open spec fn with_lines(m: ProcMem, lines: Seq<Seq<char>>) -> ProcMem
    decreases lines.len(),
{
    if lines.len() == 0 {
        m
    } else {
        with_lines(with_line(m, lines[0]), lines.skip(1))
    }
}

fn add_line(m: ProcMem, l: &str) -> (r: ProcMem)
    ensures
        r == with_line(m, l@),
{
    if let Some(v) = strip_prefix(l, "VmRSS:") {
        ProcMem { rss_kb: parse_kb(v), ..m }
    } else if let Some(v) = strip_prefix(l, "VmHWM:") {
        ProcMem { hwm_kb: parse_kb(v), ..m }
    } else if let Some(v) = strip_prefix(l, "RssAnon:") {
        ProcMem { anon_kb: parse_kb(v), ..m }
    } else if let Some(v) = strip_prefix(l, "RssShmem:") {
        ProcMem { shmem_kb: parse_kb(v), ..m }
    } else {
        m
    }
}

/// The line from `from` on, and where the next one begins.
fn next_line(s: &str, from: usize) -> (r: (&str, usize))
    requires
        from < s@.len(),
    ensures
        from <= line_end(s@, from as int) <= s@.len(),
        r.0@ == line_text(s@, from as int, line_end(s@, from as int)),
        from < r.1 <= s@.len(),
        line_end(s@, from as int) < s@.len() ==> r.1 == line_end(s@, from as int) + 1,
        line_end(s@, from as int) == s@.len() ==> r.1 == s@.len(),
{
    let n: usize = s.unicode_len();
    let mut k: usize = from;
    while k < n && s.get_char(k) != '\n'
        invariant
            from <= k <= n,
            n == s@.len(),
            forall|j: int| from <= j < k ==> s@[j] != '\n',
        decreases n - k,
    {
        k = k + 1;
    }
    proof {
        lemma_line_end(s@, from as int, k as int);
    }
    let stop: usize = if k < n && k > from && s.get_char(k - 1) == '\r' { k - 1 } else { k };
    let next: usize = if k < n { k + 1 } else { n };
    (s.substring_char(from, stop), next)
}

/// The kernel's figures in the text of the status file.
pub fn proc_status(s: &str) -> (r: ProcMem)
    ensures
        r == with_lines(
            ProcMem { rss_kb: 0, anon_kb: 0, shmem_kb: 0, hwm_kb: 0 },
            lines_from(s@, 0),
        ),
{
    let mut m = ProcMem { rss_kb: 0, anon_kb: 0, shmem_kb: 0, hwm_kb: 0 };
    let ghost m0 = m;
    let n: usize = s.unicode_len();
    let mut from: usize = 0;
    while from < n
        invariant
            from <= n,
            n == s@.len(),
            with_lines(m, lines_from(s@, from as int)) == with_lines(m0, lines_from(s@, 0)),
        decreases n - from,
    {
        let (l, next) = next_line(s, from);
        proof {
            let all = lines_from(s@, from as int);
            let rest = lines_from(s@, line_end(s@, from as int) + 1);
            assert(all[0] == l@);
            assert(all.skip(1) =~= rest);
            assert(lines_from(s@, next as int) =~= rest);
        }
        m = add_line(m, l);
        from = next;
    }
    m
}

/// The path in the first line of the unified hierarchy.
pub open spec fn unified_path(lines: Seq<Seq<char>>) -> Option<Seq<char>>
    decreases lines.len(),
{
    if lines.len() == 0 {
        None
    } else if has_prefix(lines[0], "0::"@) {
        Some(without_slashes(text::trimmed(lines[0].skip("0::"@.len() as int))))
    } else {
        unified_path(lines.skip(1))
    }
}

/// `s` without the slashes it starts with.
pub open spec fn without_slashes(s: Seq<char>) -> Seq<char>
    decreases s.len(),
{
    if s.len() > 0 && s[0] == '/' {
        without_slashes(s.skip(1))
    } else {
        s
    }
}

fn strip_slashes(s: &str) -> (r: &str)
    ensures
        r@ == without_slashes(s@),
{
    let n: usize = s.unicode_len();
    let mut k: usize = 0;
    assert(s@.skip(0) =~= s@);
    while k < n && s.get_char(k) == '/'
        invariant
            k <= n,
            n == s@.len(),
            without_slashes(s@) == without_slashes(s@.skip(k as int)),
        decreases n - k,
    {
        assert(s@.skip(k as int).skip(1) =~= s@.skip(k + 1));
        k = k + 1;
    }
    assert(s@.subrange(k as int, n as int) =~= s@.skip(k as int));
    s.substring_char(k, n)
}

/// The directory of this process below the hierarchy's root, from the text of
/// the cgroup file.
pub fn cgroup_dir(s: &str) -> (r: Option<&str>)
    ensures
        match (r, unified_path(lines_from(s@, 0))) {
            (Some(p), Some(q)) => p@ == q,
            (None, None) => true,
            _ => false,
        },
{
    let n: usize = s.unicode_len();
    let mut from: usize = 0;
    while from < n
        invariant
            from <= n,
            n == s@.len(),
            unified_path(lines_from(s@, from as int)) == unified_path(lines_from(s@, 0)),
        decreases n - from,
    {
        let (l, next) = next_line(s, from);
        proof {
            let all = lines_from(s@, from as int);
            let rest = lines_from(s@, line_end(s@, from as int) + 1);
            assert(all[0] == l@);
            assert(all.skip(1) =~= rest);
            assert(lines_from(s@, next as int) =~= rest);
        }
        if let Some(v) = strip_prefix(l, "0::") {
            return Some(strip_slashes(text::trim(v)));
        }
        from = next;
    }
    None
}

/// Which directory holds the memory files of this process.
#[derive(Clone, Copy, Debug, PartialEq, Eq, Structural)]
pub enum MemoryDir {
    /// The one of `cgroup_dir`.
    Own,
    /// The hierarchy's root.
    Root,
}

/// The directory of the memory files, given in which of the two they are. The
/// process's own goes first; in a container they are in the root.
pub fn memory_dir(in_own: bool, in_root: bool) -> (r: Option<MemoryDir>)
    ensures
        r == (if in_own {
            Some(MemoryDir::Own)
        } else if in_root {
            Some(MemoryDir::Root)
        } else {
            None
        }),
{
    if in_own {
        Some(MemoryDir::Own)
    } else if in_root {
        Some(MemoryDir::Root)
    } else {
        None
    }
}

/// The number in a file that holds one.
pub open spec fn file_number(s: Seq<char>) -> Option<u64> {
    match text::parse_unsigned(text::trimmed(s)) {
        Some(n) => if n <= u64::MAX { Some(n as u64) } else { None },
        None => None,
    }
}

/// The number in a file that holds one.
pub fn read_u64(s: &str) -> (r: Option<u64>)
    ensures
        r == file_number(s@),
{
    text::parse_u64(text::trim(s))
}

/// The limit in a file that holds one; none where it says "max".
pub open spec fn file_limit(s: Seq<char>) -> Option<u64> {
    if text::trimmed(s) == "max"@ {
        None
    } else {
        file_number(s)
    }
}

/// Use and limit of the process's group, from the texts of the two files;
/// nothing without a readable use.
pub fn cgroup_mem(current: Option<&str>, max: Option<&str>) -> (r: Option<(u64, Option<u64>)>)
    ensures
        r == (match current {
            Some(c) => match file_number(c@) {
                Some(n) => Some(
                    (
                        n,
                        match max {
                            Some(m) => file_limit(m@),
                            None => None,
                        },
                    ),
                ),
                None => None,
            },
            None => None,
        }),
{
    match current {
        Some(c) => match read_u64(c) {
            Some(n) => {
                let limit: Option<u64> = match max {
                    Some(m) => {
                        if text::str_eq(text::trim(m), "max") {
                            None
                        } else {
                            read_u64(m)
                        }
                    },
                    None => None,
                };
                Some((n, limit))
            },
            None => None,
        },
        None => None,
    }
}

/// Where the limit comes from.
#[derive(Clone, Copy, Debug, PartialEq, Eq, Structural)]
pub enum LimitSource {
    Guc,
    Cgroup,
    Physical,
    Unknown,
}

/// The tiers for a threshold, in percent.
pub open spec fn tier(base: int, i: int) -> int {
    let t = if base < 1 {
        1
    } else if base > 100 {
        100
    } else {
        base
    };
    if i == 0 {
        t
    } else if i == 1 {
        t + (100 - t) / 2
    } else {
        t + (100 - t) * 3 / 4
    }
}

/// The three tiers for a threshold, in percent: the threshold, and two between
/// it and the limit.
pub fn tiers(base: i32) -> (r: [u64; 3])
    ensures
        r[0] == tier(base as int, 0),
        r[1] == tier(base as int, 1),
        r[2] == tier(base as int, 2),
{
    let t: u64 = if base < 1 {
        1
    } else if base > 100 {
        100
    } else {
        base as u64
    };
    [t, t + (100 - t) / 2, t + (100 - t) * 3 / 4]
}

/// The tiers escalate and stay within 1 to 100.
pub proof fn law_tiers_escalate(base: int)
    ensures
        1 <= tier(base, 0) <= tier(base, 1) <= tier(base, 2) <= 100,
{
}

/// What the watchdog knows at one moment, in bytes.
#[derive(Clone, Copy, Debug)]
pub struct Ledger {
    pub usage: u64,
    pub limit: u64,
    pub source: LimitSource,
    pub pm: Option<ProcMem>,
    pub cg: Option<(u64, Option<u64>)>,
    pub accounted: usize,
    pub alloc: Option<AllocatorStats>,
}

/// The use of this process: the kernel's figure, else the allocator's.
pub open spec fn rss_bytes(pm: Option<ProcMem>, alloc: Option<AllocatorStats>) -> int {
    match pm {
        Some(m) => m.rss_kb * 1024,
        None => match alloc {
            Some(a) => a.current_rss as int,
            None => 0,
        },
    }
}

/// Use, limit, and where the limit comes from.
pub open spec fn limit_of(
    limit_mb: i32,
    pm: Option<ProcMem>,
    cg: Option<(u64, Option<u64>)>,
    alloc: Option<AllocatorStats>,
    physical: Option<u64>,
) -> (int, int, LimitSource) {
    let rss = rss_bytes(pm, alloc);
    if limit_mb > 0 {
        (rss, limit_mb * 1048576, LimitSource::Guc)
    } else {
        match cg {
            Some((current, Some(max))) => (current as int, max as int, LimitSource::Cgroup),
            _ => match physical {
                Some(total) => (rss, total as int, LimitSource::Physical),
                None => (rss, 0, LimitSource::Unknown),
            },
        }
    }
}

/// Takes stock. The limit is the configured one, else the group's (with the
/// group's use), else the machine's memory, else none.
pub fn collect(
    limit_mb: i32,
    pm: Option<ProcMem>,
    cg: Option<(u64, Option<u64>)>,
    alloc: Option<AllocatorStats>,
    physical: Option<u64>,
    accounted: usize,
) -> (l: Ledger)
    requires
        rss_bytes(pm, alloc) <= u64::MAX,
    ensures
        l.pm == pm,
        l.cg == cg,
        l.alloc == alloc,
        l.accounted == accounted,
        (l.usage as int, l.limit as int, l.source) == limit_of(limit_mb, pm, cg, alloc, physical),
{
    let rss: u64 = match pm {
        Some(m) => m.rss_kb * 1024,
        None => match alloc {
            Some(a) => a.current_rss as u64,
            None => 0,
        },
    };
    if limit_mb > 0 {
        let limit: u64 = limit_mb as u64 * 1048576;
        return Ledger { usage: rss, limit, source: LimitSource::Guc, pm, cg, accounted, alloc };
    }
    if let Some((current, Some(max))) = cg {
        return Ledger {
            usage: current,
            limit: max,
            source: LimitSource::Cgroup,
            pm,
            cg,
            accounted,
            alloc,
        };
    }
    match physical {
        Some(total) => Ledger {
            usage: rss,
            limit: total,
            source: LimitSource::Physical,
            pm,
            cg,
            accounted,
            alloc,
        },
        None => Ledger { usage: rss, limit: 0, source: LimitSource::Unknown, pm, cg, accounted, alloc },
    }
}

/// The machine's memory, where both figures are known.
pub fn physical_memory(pages: i64, page: i64) -> (r: Option<u64>)
    requires
        pages > 0 && page > 0 ==> pages * page <= u64::MAX,
    ensures
        r == (if pages > 0 && page > 0 {
            Some((pages * page) as u64)
        } else {
            None
        }),
{
    if pages > 0 && page > 0 {
        Some(pages as u64 * page as u64)
    } else {
        None
    }
}

/// What the watchdog remembers.
#[derive(Clone, Copy, Debug, PartialEq, Eq, Structural)]
pub struct WatchState {
    /// The highest tier (1 to 3) reported in this excursion; 0 = none.
    pub latched: u32,
    /// Whether a limit was announced, and which.
    pub announced: bool,
    pub announced_source: LimitSource,
    pub announced_limit: u64,
}

impl WatchState {
    /// Nothing seen yet.
    pub fn new() -> (s: WatchState)
        ensures
            s == (WatchState {
                latched: 0,
                announced: false,
                announced_source: LimitSource::Unknown,
                announced_limit: 0,
            }),
    {
        WatchState {
            latched: 0,
            announced: false,
            announced_source: LimitSource::Unknown,
            announced_limit: 0,
        }
    }

    /// Whether exactly this limit was announced.
    pub open spec fn knows(self, l: Ledger) -> bool {
        self.announced && self.announced_source == l.source && self.announced_limit == l.limit
    }

    /// The state once this limit is announced; a new limit starts afresh.
    pub open spec fn after_announce(self, l: Ledger) -> WatchState {
        if self.knows(l) {
            self
        } else {
            WatchState {
                latched: 0,
                announced: true,
                announced_source: l.source,
                announced_limit: l.limit,
            }
        }
    }
}

/// What a tick reports besides a new limit.
#[derive(Clone, Copy, Debug, PartialEq, Eq, Structural)]
pub enum TickReport {
    Nothing,
    /// Use has crossed a tier.
    Fire { pct: u64, tier_pct: u64 },
    /// Use has receded; the watchdog is armed again.
    Receded(u64),
}

/// Notes a limit; says whether it is new and has to be announced.
pub fn announce(state: &mut WatchState, l: &Ledger) -> (fresh: bool)
    ensures
        fresh == !old(state).knows(*l),
        *final(state) == old(state).after_announce(*l),
{
    if state.announced && state.announced_source == l.source && state.announced_limit == l.limit {
        return false;
    }
    state.announced = true;
    state.announced_source = l.source;
    state.announced_limit = l.limit;
    state.latched = 0;
    true
}

/// Use in percent of the limit, for a limit that is not 0.
pub open spec fn percent(usage: u64, limit: u64) -> int {
    (if usage * 100 > u64::MAX {
        u64::MAX as int
    } else {
        usage * 100
    }) / (limit as int)
}

fn percent_of(usage: u64, limit: u64) -> (r: u64)
    requires
        limit > 0,
    ensures
        r == percent(usage, limit),
{
    let scaled: u64 = if usage > u64::MAX / 100 { u64::MAX } else { usage * 100 };
    scaled / limit
}

/// How many tiers use has reached.
pub open spec fn tiers_reached(pct: int, base: int) -> int {
    (if pct >= tier(base, 0) {
        1int
    } else {
        0
    }) + (if pct >= tier(base, 1) {
        1int
    } else {
        0
    }) + (if pct >= tier(base, 2) {
        1int
    } else {
        0
    })
}

/// What a tick makes of the state, after the announcement.
pub open spec fn tick_step(s: WatchState, l: Ledger, base: int) -> (WatchState, TickReport) {
    if l.limit == 0 || l.usage == 0 {
        (s, TickReport::Nothing)
    } else {
        let pct = percent(l.usage, l.limit);
        let highest = tiers_reached(pct, base);
        if highest > s.latched {
            (
                WatchState { latched: highest as u32, ..s },
                TickReport::Fire { pct: pct as u64, tier_pct: tier(base, highest - 1) as u64 },
            )
        } else if s.latched > 0 && pct + 5 <= tier(base, 0) {
            (WatchState { latched: 0, ..s }, TickReport::Receded(pct as u64))
        } else {
            (s, TickReport::Nothing)
        }
    }
}

/// One tick. While the watchdog is off it forgets everything.
pub fn tick(state: &mut WatchState, enabled: bool, l: &Ledger, base: i32) -> (r: (bool, TickReport))
    ensures
        !enabled ==> {
            &&& r == (false, TickReport::Nothing)
            &&& *final(state) == (WatchState { latched: 0, announced: false, ..*old(state) })
        },
        enabled ==> {
            let s1 = old(state).after_announce(*l);
            &&& r.0 == !old(state).knows(*l)
            &&& (*final(state), r.1) == tick_step(s1, *l, base as int)
        },
{
    if !enabled {
        state.latched = 0;
        state.announced = false;
        return (false, TickReport::Nothing);
    }
    let fresh = announce(state, l);
    if l.limit == 0 || l.usage == 0 {
        return (fresh, TickReport::Nothing);
    }
    let pct: u64 = percent_of(l.usage, l.limit);
    let t = tiers(base);
    let mut highest: u32 = 0;
    if pct >= t[0] {
        highest = highest + 1;
    }
    if pct >= t[1] {
        highest = highest + 1;
    }
    if pct >= t[2] {
        highest = highest + 1;
    }
    if highest > state.latched {
        let tier_pct: u64 = if highest == 1 {
            t[0]
        } else if highest == 2 {
            t[1]
        } else {
            t[2]
        };
        state.latched = highest;
        (fresh, TickReport::Fire { pct, tier_pct })
    } else if state.latched > 0 && pct as u128 + 5 <= t[0] as u128 {
        state.latched = 0;
        (fresh, TickReport::Receded(pct))
    } else {
        (fresh, TickReport::Nothing)
    }
}

/// One report per tier per excursion: a report raises the latch, which ends at
/// three; the same use reports nothing again.
pub proof fn law_one_report_per_tier(s: WatchState, l: Ledger, base: int)
    requires
        tick_step(s, l, base).1 is Fire,
    ensures
        s.latched < tick_step(s, l, base).0.latched <= 3,
        !(tick_step(tick_step(s, l, base).0, l, base).1 is Fire),
{
}

/// The watchdog re-arms only once use is five points below the first tier.
pub proof fn law_rearms_only_after_receding(s: WatchState, l: Ledger, base: int)
    requires
        s.latched > 0,
        tick_step(s, l, base).0.latched == 0,
    ensures
        percent(l.usage, l.limit) + 5 <= tier(base, 0),
        tick_step(s, l, base).1 is Receded,
{
}

/// The pause between ticks, in milliseconds.
pub fn tick_interval(configured: i32) -> (r: i32)
    ensures
        r == (if configured < 100 {
            100
        } else if configured > 60000 {
            60000
        } else {
            configured
        }),
{
    if configured < 100 {
        100
    } else if configured > 60000 {
        60000
    } else {
        configured
    }
}

/// The places of the processes that there are, in order: a place without a
/// process has the pid 0.
pub open spec fn live_places(pids: Seq<i32>) -> Seq<usize>
    decreases pids.len(),
{
    if pids.len() == 0 {
        Seq::empty()
    } else {
        let before = live_places(pids.drop_last());
        if pids.last() != 0 {
            before.push((pids.len() - 1) as usize)
        } else {
            before
        }
    }
}

/// The places of the processes that are asked for a dump: all that there are.
pub fn dump_targets(pids: &Vec<i32>) -> (r: Vec<usize>)
    ensures
        r@ == live_places(pids@),
{
    let mut r: Vec<usize> = Vec::new();
    let mut i: usize = 0;
    assert(pids@.take(0) =~= Seq::<i32>::empty());
    while i < pids.len()
        invariant
            i <= pids@.len(),
            r@ == live_places(pids@.take(i as int)),
        decreases pids@.len() - i,
    {
        assert(pids@.take(i + 1).drop_last() =~= pids@.take(i as int));
        if pids[i] != 0 {
            r.push(i);
        }
        i = i + 1;
    }
    assert(pids@.take(i as int) =~= pids@);
    r
}

/// Every process that there is, and nothing else, is asked for a dump, once and
/// in order.
pub proof fn law_dumps_are_asked_of_every_process(pids: Seq<i32>)
    requires
        pids.len() <= usize::MAX,
    ensures
        forall|k: int|
            0 <= k < live_places(pids).len() ==> #[trigger] live_places(pids)[k] < pids.len()
                && pids[live_places(pids)[k] as int] != 0,
        forall|j: int, k: int|
            0 <= j < k < live_places(pids).len() ==> #[trigger] live_places(pids)[j]
                < #[trigger] live_places(pids)[k],
        forall|i: int|
            0 <= i < pids.len() && #[trigger] pids[i] != 0 ==> live_places(pids).contains(
                i as usize,
            ),
    decreases pids.len(),
{
    if pids.len() > 0 {
        let p = pids.drop_last();
        let a = live_places(p);
        let b = live_places(pids);
        law_dumps_are_asked_of_every_process(p);
        assert forall|k: int| 0 <= k < b.len() implies #[trigger] b[k] < pids.len()
            && pids[b[k] as int] != 0 by {
            if k < a.len() {
                assert(b[k] == a[k]);
                assert(p[a[k] as int] == pids[a[k] as int]);
            }
        }
        assert forall|j: int, k: int| 0 <= j < k < b.len() implies #[trigger] b[j]
            < #[trigger] b[k] by {
            assert(b[j] == a[j]);
            if k < a.len() {
                assert(b[k] == a[k]);
            }
        }
        assert forall|i: int| 0 <= i < pids.len() && #[trigger] pids[i] != 0 implies b.contains(
            i as usize,
        ) by {
            if i < p.len() {
                assert(p[i] == pids[i]);
                let k = choose|k: int| 0 <= k < a.len() && a[k] == i as usize;
                assert(b[k] == i as usize);
            } else {
                assert(b[a.len() as int] == i as usize);
            }
        }
    }
}

/// How many requests for a dump were sent: those with a result that is not
/// negative.
pub open spec fn sent_count(results: Seq<i32>) -> nat
    decreases results.len(),
{
    if results.len() == 0 {
        0
    } else {
        sent_count(results.drop_last()) + if results.last() >= 0 {
            1nat
        } else {
            0
        }
    }
}

/// How many requests for a dump were sent, given the result of each.
pub fn request_backend_dumps(results: &Vec<i32>) -> (n: usize)
    ensures
        n == sent_count(results@),
{
    let mut n: usize = 0;
    let mut i: usize = 0;
    assert(results@.take(0) =~= Seq::<i32>::empty());
    while i < results.len()
        invariant
            i <= results@.len(),
            n <= i,
            n == sent_count(results@.take(i as int)),
        decreases results@.len() - i,
    {
        proof {
            assert(results@.take(i + 1).drop_last() =~= results@.take(i as int));
        }
        if results[i] >= 0 {
            n = n + 1;
        }
        i = i + 1;
    }
    assert(results@.take(i as int) =~= results@);
    n
}

/// The figure that unaccounted memory is measured against, in kB: anonymous
/// memory, else all of it, else the allocator's.
pub open spec fn basis_kb(l: Ledger) -> int {
    let pm = match l.pm {
        Some(m) => m,
        None => ProcMem { rss_kb: 0, anon_kb: 0, shmem_kb: 0, hwm_kb: 0 },
    };
    if pm.anon_kb > 0 {
        pm.anon_kb as int
    } else if pm.rss_kb > 0 {
        pm.rss_kb as int
    } else {
        match l.alloc {
            Some(a) => (a.current_rss / 1024) as int,
            None => 0,
        }
    }
}

/// That figure as a signed number.
pub open spec fn signed_basis_kb(l: Ledger) -> i64 {
    (basis_kb(l) as u64) as i64
}

/// The figures of a report, in kB.
pub open spec fn figures(l: Ledger) -> Figures {
    let pm = match l.pm {
        Some(m) => m,
        None => ProcMem { rss_kb: 0, anon_kb: 0, shmem_kb: 0, hwm_kb: 0 },
    };
    Figures {
        usage: l.usage / 1024,
        limit: l.limit / 1024,
        pm,
        cgroup_current: match l.cg {
            Some((c, _)) => c / 1024,
            None => 0,
        },
        cgroup_limit: match l.cg {
            Some((_, Some(m))) => Some((m / 1024) as u64),
            _ => None,
        },
        accounted: (l.accounted / 1024) as u64,
        committed: match l.alloc {
            Some(a) => (a.current_commit / 1024) as u64,
            None => 0,
        },
        delta: (signed_basis_kb(l) - l.accounted / 1024) as i64,
    }
}

/// The figures of a report, in kB.
#[derive(Clone, Copy, Debug, PartialEq, Eq, Structural)]
pub struct Figures {
    pub usage: u64,
    pub limit: u64,
    pub pm: ProcMem,
    pub cgroup_current: u64,
    pub cgroup_limit: Option<u64>,
    pub accounted: u64,
    pub committed: u64,
    /// What is in use beyond what the memory contexts account for.
    pub delta: i64,
}

/// The figures of a report.
pub fn ledger_figures(l: &Ledger) -> (f: Figures)
    requires
        i64::MIN <= signed_basis_kb(*l) - l.accounted / 1024,
    ensures
        f == figures(*l),
{
    let pm = match l.pm {
        Some(m) => m,
        None => ProcMem { rss_kb: 0, anon_kb: 0, shmem_kb: 0, hwm_kb: 0 },
    };
    let basis: u64 = if pm.anon_kb > 0 {
        pm.anon_kb
    } else if pm.rss_kb > 0 {
        pm.rss_kb
    } else {
        match l.alloc {
            Some(a) => (a.current_rss / 1024) as u64,
            None => 0,
        }
    };
    let accounted: u64 = (l.accounted / 1024) as u64;
    let basis: i64 = #[verifier::truncate] (basis as i64);
    let delta: i64 = basis - accounted as i64;
    let cgroup_current: u64 = match l.cg {
        Some((c, _)) => c / 1024,
        None => 0,
    };
    let cgroup_limit: Option<u64> = match l.cg {
        Some((_, Some(m))) => Some(m / 1024),
        _ => None,
    };
    let committed: u64 = match l.alloc {
        Some(a) => (a.current_commit / 1024) as u64,
        None => 0,
    };
    Figures {
        usage: l.usage / 1024,
        limit: l.limit / 1024,
        pm,
        cgroup_current,
        cgroup_limit,
        accounted,
        committed,
        delta,
    }
}

pub open spec fn kb(n: u64) -> Seq<char> {
    text::dec(n as nat) + " kB"@
}

/// The report about a crossed tier.
pub open spec fn fire_text(f: Figures, pct: u64, tier_pct: u64) -> Seq<char> {
    "memory use "@ + text::dec(pct as nat) + "% of limit crossed the "@ + text::dec(tier_pct as nat)
        + "% tier: usage="@ + kb(f.usage) + " limit="@ + kb(f.limit) + " rss="@ + kb(f.pm.rss_kb) + " anon="@
        + kb(f.pm.anon_kb) + " shmem="@ + kb(f.pm.shmem_kb) + " hwm="@ + kb(f.pm.hwm_kb)
        + " cgroup_current="@ + kb(f.cgroup_current) + " cgroup_limit="@ + (match f.cgroup_limit {
        Some(m) => kb(m),
        None => "none"@,
    }) + " accounted_contexts="@ + kb(f.accounted) + " allocator_committed="@ + kb(f.committed)
        + " unaccounted_delta="@ + text::dec_int(f.delta as int) + " kB"@
}

fn kb_string(n: u64) -> (s: String)
    ensures
        s@ == kb(n),
{
    let mut s = String::new();
    text::append_u64(&mut s, n);
    assert(s@ =~= text::dec(n as nat));
    s.append(" kB");
    s
}

/// The report about a crossed tier.
pub fn fire(f: &Figures, pct: u64, tier_pct: u64) -> (s: String)
    ensures
        s@ == fire_text(*f, pct, tier_pct),
{
    let mut s = String::from_str("memory use ");
    text::append_u64(&mut s, pct);
    s.append("% of limit crossed the ");
    text::append_u64(&mut s, tier_pct);
    s.append("% tier: usage=");
    s.append(kb_string(f.usage).as_str());
    s.append(" limit=");
    s.append(kb_string(f.limit).as_str());
    s.append(" rss=");
    s.append(kb_string(f.pm.rss_kb).as_str());
    s.append(" anon=");
    s.append(kb_string(f.pm.anon_kb).as_str());
    s.append(" shmem=");
    s.append(kb_string(f.pm.shmem_kb).as_str());
    s.append(" hwm=");
    s.append(kb_string(f.pm.hwm_kb).as_str());
    s.append(" cgroup_current=");
    s.append(kb_string(f.cgroup_current).as_str());
    s.append(" cgroup_limit=");
    match f.cgroup_limit {
        Some(m) => {
            s.append(kb_string(m).as_str());
        },
        None => {
            s.append("none");
        },
    }
    s.append(" accounted_contexts=");
    s.append(kb_string(f.accounted).as_str());
    s.append(" allocator_committed=");
    s.append(kb_string(f.committed).as_str());
    s.append(" unaccounted_delta=");
    text::append_i64(&mut s, f.delta);
    s.append(" kB");
    s
}

/// What announces a limit.
pub open spec fn armed_text(source: LimitSource, limit: u64, base: int, interval: i32) -> Seq<char> {
    if source == LimitSource::Unknown {
        "idle: no memory limit signal (no bounded cgroup v2 limit found, pgrust.memory_watchdog_limit is 0, physical memory size unreadable)"@
    } else {
        "armed: limit="@ + text::dec((limit / 1048576) as nat) + " MB (source="@ + (match source {
            LimitSource::Guc => "pgrust.memory_watchdog_limit"@,
            LimitSource::Cgroup => "cgroup v2 memory.max"@,
            _ => "physical memory; no cgroup v2 limit, pgrust.memory_watchdog_limit is 0"@,
        }) + ") tiers="@ + text::dec(tier(base, 0) as nat) + "%/"@ + text::dec(tier(base, 1) as nat) + "%/"@
            + text::dec(tier(base, 2) as nat) + "% interval="@ + text::dec_int(interval as int) + " ms"@
    }
}

/// What announces a limit.
pub fn render_armed(source: LimitSource, limit: u64, base: i32, interval: i32) -> (s: String)
    ensures
        s@ == armed_text(source, limit, base as int, interval),
{
    if source == LimitSource::Unknown {
        return String::from_str(
            "idle: no memory limit signal (no bounded cgroup v2 limit found, pgrust.memory_watchdog_limit is 0, physical memory size unreadable)",
        );
    }
    let t = tiers(base);
    let mut s = String::from_str("armed: limit=");
    text::append_u64(&mut s, limit / 1048576);
    s.append(" MB (source=");
    s.append(
        match source {
            LimitSource::Guc => "pgrust.memory_watchdog_limit",
            LimitSource::Cgroup => "cgroup v2 memory.max",
            _ => "physical memory; no cgroup v2 limit, pgrust.memory_watchdog_limit is 0",
        },
    );
    s.append(") tiers=");
    text::append_u64(&mut s, t[0]);
    s.append("%/");
    text::append_u64(&mut s, t[1]);
    s.append("%/");
    text::append_u64(&mut s, t[2]);
    s.append("% interval=");
    text::append_i64(&mut s, interval as i64);
    s.append(" ms");
    s
}

/// What reports that use has receded.
pub fn render_receded(pct: u64) -> (s: String)
    ensures
        s@ == "memory use receded to "@ + text::dec(pct as nat) + "% of limit; watchdog re-armed"@,
{
    let mut s = String::from_str("memory use receded to ");
    text::append_u64(&mut s, pct);
    s.append("% of limit; watchdog re-armed");
    s
}

/// What reports that backends were asked for dumps.
pub fn render_dumps_requested(n: usize) -> (s: String)
    ensures
        s@ == "requested memory context dumps from "@ + text::dec(n as nat)
            + " backends (see subsequent \"logging memory contexts of PID\" log entries)"@,
{
    let mut s = String::from_str("requested memory context dumps from ");
    text::append_u64(&mut s, n as u64);
    s.append(" backends (see subsequent \"logging memory contexts of PID\" log entries)");
    s
}

/// A line of the log as the watchdog writes it.
pub fn log_line(msg: &str) -> (s: String)
    ensures
        s@ == "memory watchdog: "@ + msg@,
{
    let mut s = String::from_str("memory watchdog: ");
    s.append(msg);
    s
}

} // verus!

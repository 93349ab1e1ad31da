//! What holds of the memory watchdog: what it measures, when it speaks, and how
//! it reads the kernel's files.
use vstd::prelude::*;
use crate::memwatchdog;
use crate::memwatchdog::{
    AllocatorStats, Figures, Ledger, LimitSource, ProcMem, TickReport, WatchState,
};
use crate::text;

verus! {

/// Unless the limit is the group's, use is what the kernel counts as resident,
/// or the allocator's figure where the kernel's is missing. A group's limit
/// goes with the group's use.
pub proof fn law_use_is_what_is_resident(
    limit_mb: i32,
    pm: Option<ProcMem>,
    cg: Option<(u64, Option<u64>)>,
    alloc: Option<AllocatorStats>,
    physical: Option<u64>,
)
    ensures
        ({
            let (usage, limit, source) = memwatchdog::limit_of(limit_mb, pm, cg, alloc, physical);
            &&& source != LimitSource::Cgroup && pm is Some ==> usage == pm->0.rss_kb * 1024
            &&& source != LimitSource::Cgroup && pm is None && alloc is Some ==> usage
                == alloc->0.current_rss
            &&& source != LimitSource::Cgroup && pm is None && alloc is None ==> usage == 0
            &&& source == LimitSource::Cgroup ==> cg is Some && usage == (cg->0).0 && (cg->0).1
                == Some(limit as u64)
        }),
{
}

/// The limit is the configured one if there is one; else the group's, where it
/// is bounded; else the machine's memory; else there is none.
pub proof fn law_limit_goes_by_rank(
    limit_mb: i32,
    pm: Option<ProcMem>,
    cg: Option<(u64, Option<u64>)>,
    alloc: Option<AllocatorStats>,
    physical: Option<u64>,
)
    ensures
        ({
            let (usage, limit, source) = memwatchdog::limit_of(limit_mb, pm, cg, alloc, physical);
            let bounded = cg is Some && (cg->0).1 is Some;
            &&& source == LimitSource::Guc <==> limit_mb > 0
            &&& source == LimitSource::Cgroup <==> limit_mb <= 0 && bounded
            &&& source == LimitSource::Physical <==> limit_mb <= 0 && !bounded && physical is Some
            &&& source == LimitSource::Unknown <==> limit_mb <= 0 && !bounded && physical is None
            &&& source == LimitSource::Guc ==> limit == limit_mb * 1024 * 1024
            &&& source == LimitSource::Cgroup ==> limit == (cg->0).1->0
            &&& source == LimitSource::Physical ==> limit == physical->0
            &&& source == LimitSource::Unknown ==> limit == 0
        }),
{
}

/// More memory in use never counts as less, whatever the limit.
pub proof fn law_use_grows_with_the_process(
    limit_mb: i32,
    a: ProcMem,
    b: ProcMem,
    cg: Option<(u64, Option<u64>)>,
    alloc: Option<AllocatorStats>,
    physical: Option<u64>,
)
    requires
        a.rss_kb < b.rss_kb,
    ensures
        ({
            let x = memwatchdog::limit_of(limit_mb, Some(a), cg, alloc, physical);
            let y = memwatchdog::limit_of(limit_mb, Some(b), cg, alloc, physical);
            &&& x.1 == y.1
            &&& x.2 == y.2
            &&& x.2 != LimitSource::Cgroup ==> x.0 < y.0
            &&& x.2 == LimitSource::Cgroup ==> x.0 == y.0
        }),
{
}

/// Percent of the limit, rounded down.
pub proof fn law_percent_is_rounded_down(usage: u64, limit: u64)
    requires
        limit > 0,
        usage * 100 <= u64::MAX,
    ensures
        memwatchdog::percent(usage, limit) * limit <= usage * 100,
        usage * 100 < (memwatchdog::percent(usage, limit) + 1) * limit,
        usage >= limit <==> memwatchdog::percent(usage, limit) >= 100,
{
    let p = memwatchdog::percent(usage, limit);
    let n = usage * 100;
    let d = limit as int;
    assert(p == n / d);
    assert(p * d <= n && n < (p + 1) * d) by (nonlinear_arith)
        requires
            p == n / d,
            d > 0,
    ;
    assert(usage >= limit ==> p >= 100) by (nonlinear_arith)
        requires
            n == usage * 100,
            d == limit,
            n < (p + 1) * d,
    ;
    assert(p >= 100 ==> usage >= limit) by (nonlinear_arith)
        requires
            n == usage * 100,
            d == limit,
            d > 0,
            p * d <= n,
    ;
}

/// The first tier is the threshold, kept between 1 and 100; the second stands
/// half of the way to the limit, the third three quarters.
pub proof fn law_tiers_stand_on_the_way(base: int)
    ensures
        1 <= base <= 100 ==> memwatchdog::tier(base, 0) == base,
        base < 1 ==> memwatchdog::tier(base, 0) == 1,
        base > 100 ==> memwatchdog::tier(base, 0) == 100,
        ({
            let t = memwatchdog::tier(base, 0);
            let way = 100 - t;
            let half = memwatchdog::tier(base, 1) - t;
            let most = memwatchdog::tier(base, 2) - t;
            &&& 2 * half <= way < 2 * half + 2
            &&& 4 * most <= 3 * way < 4 * most + 4
        }),
{
}

/// The watchdog reports exactly where use has reached a tier beyond the one it
/// last reported; it tells the highest tier that use has reached.
pub proof fn law_reports_a_new_tier(s: WatchState, l: Ledger, base: int)
    requires
        l.limit > 0,
        l.usage > 0,
    ensures
        ({
            let pct = memwatchdog::percent(l.usage, l.limit);
            let (s1, r) = memwatchdog::tick_step(s, l, base);
            let t0 = memwatchdog::tier(base, 0);
            let t1 = memwatchdog::tier(base, 1);
            let t2 = memwatchdog::tier(base, 2);
            let due = (s.latched == 0 && pct >= t0) || (s.latched <= 1 && pct >= t1) || (s.latched
                <= 2 && pct >= t2);
            &&& r is Fire <==> due
            &&& due ==> r->Fire_pct == pct as u64
            &&& due ==> r->tier_pct == (if pct >= t2 {
                t2
            } else if pct >= t1 {
                t1
            } else {
                t0
            }) as u64
            &&& due ==> s1.latched == (if pct >= t2 {
                3int
            } else if pct >= t1 {
                2
            } else {
                1
            })
        }),
{
}

/// A watchdog that has reported says once that use has receded, where use is at
/// least five points below the first tier; else it keeps what it has reported.
pub proof fn law_recedes_below_the_first_tier(s: WatchState, l: Ledger, base: int)
    requires
        l.limit > 0,
        l.usage > 0,
        !(memwatchdog::tick_step(s, l, base).1 is Fire),
    ensures
        ({
            let pct = memwatchdog::percent(l.usage, l.limit);
            let (s1, r) = memwatchdog::tick_step(s, l, base);
            let back = s.latched > 0 && pct <= memwatchdog::tier(base, 0) - 5;
            &&& r == if back {
                TickReport::Receded(pct as u64)
            } else {
                TickReport::Nothing
            }
            &&& s1.latched == if back {
                0
            } else {
                s.latched
            }
        }),
{
}

/// Without a limit, or without a figure for use, nothing is reported and
/// nothing forgotten.
pub proof fn law_silent_without_figures(s: WatchState, l: Ledger, base: int)
    requires
        l.limit == 0 || l.usage == 0,
    ensures
        memwatchdog::tick_step(s, l, base) == (s, TickReport::Nothing),
{
}

/// A tick changes nothing of what was announced.
pub proof fn law_ticks_keep_the_announcement(s: WatchState, l: Ledger, base: int)
    ensures
        memwatchdog::tick_step(s, l, base).0.announced == s.announced,
        memwatchdog::tick_step(s, l, base).0.announced_source == s.announced_source,
        memwatchdog::tick_step(s, l, base).0.announced_limit == s.announced_limit,
{
}

/// A limit is announced once, and again only after another one; another one
/// starts afresh.
pub proof fn law_limits_are_announced_once(s: WatchState, l: Ledger)
    ensures
        s.after_announce(l).knows(l),
        s.after_announce(l).after_announce(l) == s.after_announce(l),
        s.knows(l) <==> s.announced && s.announced_source == l.source && s.announced_limit
            == l.limit,
        s.knows(l) ==> s.after_announce(l) == s,
        !s.knows(l) ==> s.after_announce(l).latched == 0,
{
}

/// The figures of a report are the watchdog's, in whole kB; what the kernel
/// tells in kB is told as it is.
pub proof fn law_figures_are_in_kb(l: Ledger)
    ensures
        ({
            let f = memwatchdog::figures(l);
            &&& f.usage * 1024 <= l.usage < f.usage * 1024 + 1024
            &&& f.limit * 1024 <= l.limit < f.limit * 1024 + 1024
            &&& f.accounted * 1024 <= l.accounted < f.accounted * 1024 + 1024
            &&& l.pm matches Some(m) ==> f.pm == m
            &&& l.pm is None ==> f.pm.rss_kb == 0 && f.pm.anon_kb == 0 && f.pm.shmem_kb == 0
                && f.pm.hwm_kb == 0
            &&& l.cg matches Some((c, _)) ==> f.cgroup_current * 1024 <= c < f.cgroup_current
                * 1024 + 1024
            &&& f.cgroup_limit is Some <==> l.cg is Some && (l.cg->0).1 is Some
            &&& f.cgroup_limit matches Some(m) ==> m * 1024 <= (l.cg->0).1->0 < m * 1024 + 1024
            &&& l.alloc matches Some(a) ==> f.committed * 1024 <= a.current_commit < f.committed
                * 1024 + 1024
            &&& l.alloc is None ==> f.committed == 0
        }),
{
}

/// What is unaccounted for is anonymous memory, where the kernel tells it,
/// without what the memory contexts account for; without such a figure the
/// resident one is taken, and else the allocator's.
pub proof fn law_unaccounted_memory(l: Ledger)
    requires
        memwatchdog::basis_kb(l) <= i64::MAX,
        i64::MIN <= memwatchdog::basis_kb(l) - l.accounted / 1024,
    ensures
        ({
            let f = memwatchdog::figures(l);
            let kernel = l.pm is Some;
            &&& kernel && l.pm->0.anon_kb > 0 ==> f.delta == l.pm->0.anon_kb - l.accounted / 1024
            &&& kernel && l.pm->0.anon_kb == 0 && l.pm->0.rss_kb > 0 ==> f.delta == l.pm->0.rss_kb
                - l.accounted / 1024
            &&& !kernel && l.alloc is Some ==> f.delta == l.alloc->0.current_rss / 1024
                - l.accounted / 1024
            &&& !kernel && l.alloc is None ==> f.delta == -(l.accounted / 1024)
        }),
{
}

/// A figure in kB is read back, with any white space around it and its unit.
pub proof fn law_kb_figure_reads_back(a: Seq<char>, n: u64, b: Seq<char>)
    requires
        text::all_white(a),
        text::all_white(b),
    ensures
        memwatchdog::kb_value(a + (text::dec(n as nat) + seq![' ', 'k', 'B']) + b) == n,
        memwatchdog::kb_value(a + text::dec(n as nat) + b) == n,
{
    let d = text::dec(n as nat);
    text::law_numerals_read_back(n as nat);
    assert(text::is_digit(d[0]));
    assert(text::is_digit(d[d.len() - 1]));
    let s = d + seq![' ', 'k', 'B'];
    assert(s[0] == d[0]);
    assert(s.last() == 'B');
    text::law_trimming_takes_white_space_off(a, s, b);
    assert(s[s.len() - 2] == 'k');
    let u = d + seq![' '];
    assert(s.take(s.len() - 2) =~= u);
    assert(u.last() == ' ');
    assert(memwatchdog::without_units(u) == u);
    assert(memwatchdog::without_units(s) == memwatchdog::without_units(s.take(s.len() - 2)));
    assert(text::all_white(seq![' ']));
    assert(Seq::<char>::empty() + d + seq![' '] =~= u);
    text::law_trimming_takes_white_space_off(Seq::empty(), d, seq![' ']);
    text::law_trimming_takes_white_space_off(a, d, b);
    assert(memwatchdog::without_units(d) == d);
    assert(Seq::<char>::empty() + d + Seq::<char>::empty() =~= d);
    text::law_trimming_takes_white_space_off(Seq::empty(), d, Seq::empty());
}

/// A file that holds a number is read back; one that says "max" holds no
/// limit.
pub proof fn law_file_figure_reads_back(a: Seq<char>, n: u64, b: Seq<char>)
    requires
        text::all_white(a),
        text::all_white(b),
    ensures
        memwatchdog::file_number(a + text::dec(n as nat) + b) == Some(n),
        memwatchdog::file_limit(a + text::dec(n as nat) + b) == Some(n),
        memwatchdog::file_limit(a + seq!['m', 'a', 'x'] + b) is None,
{
    let d = text::dec(n as nat);
    text::law_numerals_read_back(n as nat);
    assert(text::is_digit(d[0]));
    assert(text::is_digit(d[d.len() - 1]));
    text::law_trimming_takes_white_space_off(a, d, b);
    reveal_strlit("max");
    assert("max"@[0] == 'm');
    assert(d != "max"@);
    let m = seq!['m', 'a', 'x'];
    text::law_trimming_takes_white_space_off(a, m, b);
    assert(m =~= "max"@);
}

/// Each line of the status file that matters sets its own figure, and only
/// that; other lines change nothing.
pub proof fn law_status_lines(m: ProcMem, rest: Seq<char>, other: Seq<char>)
    requires
        other.len() > 0,
        other[0] != 'V' && other[0] != 'R',
    ensures
        memwatchdog::with_line(m, "VmRSS:"@ + rest) == (ProcMem {
            rss_kb: memwatchdog::kb_value(rest),
            ..m
        }),
        memwatchdog::with_line(m, "VmHWM:"@ + rest) == (ProcMem {
            hwm_kb: memwatchdog::kb_value(rest),
            ..m
        }),
        memwatchdog::with_line(m, "RssAnon:"@ + rest) == (ProcMem {
            anon_kb: memwatchdog::kb_value(rest),
            ..m
        }),
        memwatchdog::with_line(m, "RssShmem:"@ + rest) == (ProcMem {
            shmem_kb: memwatchdog::kb_value(rest),
            ..m
        }),
        memwatchdog::with_line(m, other) == m,
{
    reveal_strlit("VmRSS:");
    reveal_strlit("VmHWM:");
    reveal_strlit("RssAnon:");
    reveal_strlit("RssShmem:");
    lemma_prefix("VmRSS:"@, rest);
    lemma_prefix("VmHWM:"@, rest);
    lemma_prefix("RssAnon:"@, rest);
    lemma_prefix("RssShmem:"@, rest);
    lemma_no_prefix("VmHWM:"@ + rest, "VmRSS:"@, 2);
    lemma_no_prefix("RssAnon:"@ + rest, "VmRSS:"@, 0);
    lemma_no_prefix("RssAnon:"@ + rest, "VmHWM:"@, 0);
    lemma_no_prefix("RssShmem:"@ + rest, "VmRSS:"@, 0);
    lemma_no_prefix("RssShmem:"@ + rest, "VmHWM:"@, 0);
    lemma_no_prefix("RssShmem:"@ + rest, "RssAnon:"@, 3);
    lemma_no_prefix(other, "VmRSS:"@, 0);
    lemma_no_prefix(other, "VmHWM:"@, 0);
    lemma_no_prefix(other, "RssAnon:"@, 0);
    lemma_no_prefix(other, "RssShmem:"@, 0);
}

proof fn lemma_prefix(p: Seq<char>, rest: Seq<char>)
    ensures
        memwatchdog::has_prefix(p + rest, p),
        (p + rest).skip(p.len() as int) == rest,
{
    assert((p + rest).take(p.len() as int) =~= p);
    assert((p + rest).skip(p.len() as int) =~= rest);
}

proof fn lemma_no_prefix(s: Seq<char>, p: Seq<char>, k: int)
    requires
        0 <= k < p.len(),
        k < s.len(),
        s[k] != p[k],
    ensures
        !memwatchdog::has_prefix(s, p),
{
    if memwatchdog::has_prefix(s, p) {
        assert(s.take(p.len() as int)[k] == p[k]);
    }
}

/// Lines count in their order: of two lines with the same figure the later one
/// holds.
pub proof fn law_lines_count_in_order(m: ProcMem, lines: Seq<Seq<char>>, l: Seq<char>)
    ensures
        memwatchdog::with_lines(m, lines.push(l)) == memwatchdog::with_line(
            memwatchdog::with_lines(m, lines),
            l,
        ),
    decreases lines.len(),
{
    if lines.len() == 0 {
        assert(lines.push(l).skip(1) =~= Seq::<Seq<char>>::empty());
        reveal_with_fuel(memwatchdog::with_lines, 2);
    } else {
        assert(lines.push(l).skip(1) =~= lines.skip(1).push(l));
        assert(lines.push(l)[0] == lines[0]);
        law_lines_count_in_order(memwatchdog::with_line(m, lines[0]), lines.skip(1), l);
    }
}

proof fn lemma_line_end_after(p: Seq<char>, rest: Seq<char>, from: int)
    requires
        0 <= from <= rest.len(),
    ensures
        memwatchdog::line_end(p + rest, p.len() + from) == p.len() + memwatchdog::line_end(
            rest,
            from,
        ),
        from <= memwatchdog::line_end(rest, from) <= rest.len(),
    decreases rest.len() - from,
{
    if from < rest.len() {
        assert((p + rest)[p.len() + from] == rest[from]);
        if rest[from] != '\n' {
            lemma_line_end_after(p, rest, from + 1);
        }
    }
}

proof fn lemma_lines_after(p: Seq<char>, rest: Seq<char>, from: int)
    requires
        0 <= from,
    ensures
        memwatchdog::lines_from(p + rest, p.len() + from) == memwatchdog::lines_from(rest, from),
    decreases rest.len() + 1 - from,
{
    if from < rest.len() {
        lemma_line_end_after(p, rest, from);
        let e = memwatchdog::line_end(rest, from);
        lemma_lines_after(p, rest, e + 1);
        let s = p + rest;
        assert(s.subrange(p.len() + from, p.len() + e) =~= rest.subrange(from, e));
        if e > from {
            assert(s.subrange(p.len() + from, p.len() + e - 1) =~= rest.subrange(from, e - 1));
            assert(s[p.len() + e - 1] == rest[e - 1]);
        }
        assert(memwatchdog::line_text(s, p.len() + from, p.len() + e) =~= memwatchdog::line_text(
            rest,
            from,
            e,
        ));
        assert(p.len() + from + (e - from) + 1 == p.len() + (e + 1));
    }
}

/// A text's first line is what stands before its first line feed, without a
/// carriage return before that; the other lines are those of what follows.
pub proof fn law_lines_end_at_line_feeds(l: Seq<char>, rest: Seq<char>)
    requires
        forall|i: int| 0 <= i < l.len() ==> l[i] != '\n' && l[i] != '\r',
    ensures
        memwatchdog::lines_from(l + seq!['\n'] + rest, 0) =~= seq![l] + memwatchdog::lines_from(
            rest,
            0,
        ),
        memwatchdog::lines_from(l + seq!['\r', '\n'] + rest, 0) =~= seq![l]
            + memwatchdog::lines_from(rest, 0),
        l.len() > 0 ==> memwatchdog::lines_from(l, 0) =~= seq![l],
        memwatchdog::lines_from(Seq::empty(), 0).len() == 0,
{
    let p = l + seq!['\n'];
    let s = p + rest;
    assert forall|j: int| 0 <= j < l.len() implies s[j] != '\n' by {
        assert(s[j] == l[j]);
    }
    memwatchdog::lemma_line_end(s, 0, l.len() as int);
    lemma_lines_after(p, rest, 0);
    assert(s.subrange(0, l.len() as int) =~= l);
    if l.len() > 0 {
        assert(s[l.len() - 1] == l[l.len() - 1]);
    }
    assert(memwatchdog::line_text(s, 0, l.len() as int) =~= l);
    assert(memwatchdog::lines_from(s, 0) =~= seq![l] + memwatchdog::lines_from(rest, 0));

    let q = l + seq!['\r', '\n'];
    let t = q + rest;
    let n = (l.len() + 1) as int;
    assert forall|j: int| 0 <= j < n implies t[j] != '\n' by {
        if j < l.len() {
            assert(t[j] == l[j]);
        }
    }
    assert(t[n] == '\n');
    memwatchdog::lemma_line_end(t, 0, n);
    lemma_lines_after(q, rest, 0);
    assert(t.subrange(0, n - 1) =~= l);
    assert(t[n - 1] == '\r');
    assert(memwatchdog::line_text(t, 0, n) =~= l);
    assert(memwatchdog::lines_from(t, 0) =~= seq![l] + memwatchdog::lines_from(rest, 0));

    memwatchdog::lemma_line_end(l, 0, l.len() as int);
    assert(l.subrange(0, l.len() as int) =~= l);
    if l.len() > 0 {
        assert(memwatchdog::lines_from(l, (l.len() + 1) as int).len() == 0);
        assert(memwatchdog::lines_from(l, 0) =~= seq![l]);
    }
}

proof fn lemma_without_slashes(a: nat, s: Seq<char>)
    requires
        s.len() > 0 ==> s[0] != '/',
    ensures
        memwatchdog::without_slashes(Seq::new(a, |i: int| '/') + s) == s,
    decreases a,
{
    let t = Seq::new(a, |i: int| '/') + s;
    if a > 0 {
        assert(t.skip(1) =~= Seq::new((a - 1) as nat, |i: int| '/') + s);
        lemma_without_slashes((a - 1) as nat, s);
    } else {
        assert(t =~= s);
    }
}

/// The group's directory is what the first line of the unified hierarchy says
/// after its slashes; lines before it do not matter.
pub proof fn law_unified_line_names_the_directory(
    before: Seq<Seq<char>>,
    slashes: nat,
    path: Seq<char>,
    after: Seq<Seq<char>>,
)
    requires
        forall|i: int| 0 <= i < before.len() && (#[trigger] before[i]).len() > 0 ==> before[i][0] != '0',
        path.len() > 0,
        path[0] != '/',
        !text::is_white(path[0]),
        !text::is_white(path.last()),
    ensures
        memwatchdog::unified_path(
            before + seq![seq!['0', ':', ':'] + (Seq::new(slashes, |i: int| '/') + path)] + after,
        ) == Some(path),
        memwatchdog::unified_path(before) is None,
    decreases before.len(),
{
    reveal_strlit("0::");
    let body = Seq::new(slashes, |i: int| '/') + path;
    let line = seq!['0', ':', ':'] + body;
    let all = before + seq![line] + after;
    if before.len() == 0 {
        assert("0::"@ =~= seq!['0', ':', ':']);
        lemma_prefix("0::"@, body);
        assert(all[0] == line);
        assert(body.last() == path.last());
        assert(body[0] == if slashes > 0 {
            '/'
        } else {
            path[0]
        });
        assert(Seq::<char>::empty() + body + Seq::<char>::empty() =~= body);
        text::law_trimming_takes_white_space_off(Seq::empty(), body, Seq::empty());
        lemma_without_slashes(slashes, path);
    } else {
        assert(all[0] == before[0]);
        assert(all.skip(1) =~= before.skip(1) + seq![line] + after);
        if before[0].len() > 0 {
            lemma_no_prefix(before[0], "0::"@, 0);
        }
        assert(!memwatchdog::has_prefix(before[0], "0::"@));
        assert forall|i: int| 0 <= i < before.skip(1).len() && (#[trigger] before.skip(1)[i]).len()
            > 0 implies before.skip(1)[i][0] != '0' by {
            assert(before.skip(1)[i] == before[i + 1]);
        }
        law_unified_line_names_the_directory(before.skip(1), slashes, path, after);
    }
}

/// The requests that count as sent are those whose result is not negative, each
/// once.
pub proof fn law_sent_requests_are_counted(results: Seq<i32>)
    ensures
        memwatchdog::sent_count(results) == results.filter(|r: i32| r >= 0).len(),
    decreases results.len(),
{
    reveal(Seq::filter);
    if results.len() > 0 {
        law_sent_requests_are_counted(results.drop_last());
    }
}

/// The report begins with the percentage and the tier, and ends with the delta.
pub proof fn law_report_text(f: Figures, pct: u64, tier_pct: u64)
    ensures
        ({
            let t = memwatchdog::fire_text(f, pct, tier_pct);
            let head = "memory use "@ + text::dec(pct as nat) + "% of limit crossed the "@
                + text::dec(tier_pct as nat) + "% tier: usage="@ + text::dec(f.usage as nat)
                + " kB limit="@ + text::dec(f.limit as nat);
            let tail = text::dec_int(f.delta as int) + " kB"@;
            &&& head.len() <= t.len()
            &&& t.take(head.len() as int) == head
            &&& tail.len() <= t.len()
            &&& t.skip(t.len() - tail.len()) == tail
        }),
{
    let t = memwatchdog::fire_text(f, pct, tier_pct);
    reveal_strlit(" kB");
    reveal_strlit(" limit=");
    reveal_strlit(" kB limit=");
    assert(" kB"@ + " limit="@ =~= " kB limit="@);
    let head = "memory use "@ + text::dec(pct as nat) + "% of limit crossed the "@ + text::dec(
        tier_pct as nat,
    ) + "% tier: usage="@ + text::dec(f.usage as nat) + " kB limit="@ + text::dec(f.limit as nat);
    let tail = text::dec_int(f.delta as int) + " kB"@;
    assert(t.take(head.len() as int) =~= head);
    assert(t.skip(t.len() - tail.len()) =~= tail);
}

/// Only `kB` at the end of a figure is a unit.
pub proof fn law_what_a_unit_is(s: Seq<char>)
    ensures
        memwatchdog::without_units(s.push('k').push('B')) == memwatchdog::without_units(s),
        s.len() < 2 || s.last() != 'B' || s[s.len() - 2] != 'k' ==> memwatchdog::without_units(s)
            == s,
{
    let t = s.push('k').push('B');
    assert(t.take(t.len() - 2) =~= s);
}

} // verus!

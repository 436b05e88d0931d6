//! Memory and processor use: reading the values of cgroup and proc files,
//! and following processor time between two samples.
use vstd::prelude::*;

use crate::num::{decimal, parse_u64, spec_parse_u64};
use crate::text::{
    chars_are, chars_of, has_prefix, lines, split_lines, split_whitespace, starts_with, string_of,
    string_views, trim, trim_chars, views, words,
};

verus! {

/// The first `Some` that `f` gives for the lines in order, if any.
pub open spec fn first_match<T>(ls: Seq<Seq<char>>, f: spec_fn(Seq<char>) -> Option<T>) -> Option<
    T,
>
    decreases ls.len(),
{
    if ls.len() == 0 {
        None
    } else if f(ls[0]) is Some {
        f(ls[0])
    } else {
        first_match(ls.drop_first(), f)
    }
}

/// One step of a forward search with `first_match`.
pub proof fn lemma_first_match_step<T>(
    ls: Seq<Seq<char>>,
    f: spec_fn(Seq<char>) -> Option<T>,
    i: int,
)
    requires
        0 <= i < ls.len(),
        f(ls[i]) is None,
    ensures
        first_match(ls.skip(i), f) == first_match(ls.skip(i + 1), f),
{
    assert(ls.skip(i).drop_first() =~= ls.skip(i + 1));
}

// ---------------------------------------------------------------------------
// cgroup values
// ---------------------------------------------------------------------------
/// The number that a cgroup file holds: its text without surrounding white
/// space, read as an unsigned number.
pub open spec fn spec_cgroup_value(content: Seq<char>) -> Option<u64> {
    spec_parse_u64(trim(content))
}

/// The number that a cgroup file with text `content` holds, if it holds one.
pub fn cgroup_value(content: &str) -> (r: Option<u64>)
    ensures
        r == spec_cgroup_value(content@),
{
    let c = chars_of(content);
    let t = trim_chars(c.as_slice());
    parse_u64(t.as_slice())
}

/// The processor time of a `cpu.stat` line: a line of exactly two words,
/// `usage_usec` and a number.
pub open spec fn usage_line(line: Seq<char>) -> Option<u64> {
    let w = words(line);
    if w.len() == 2 && w[0] == "usage_usec"@ {
        spec_parse_u64(w[1])
    } else {
        None
    }
}

/// The processor time that a `cpu.stat` file reports, in microseconds: that
/// of its first `usage_usec` line whose number reads.
pub open spec fn spec_stat_usec(content: Seq<char>) -> Option<u64> {
    first_match(lines(content), usage_matcher())
}

/// `usage_line` as a function value.
pub open spec fn usage_matcher() -> spec_fn(Seq<char>) -> Option<u64> {
    |l: Seq<char>| usage_line(l)
}

/// The processor time that a `cpuacct.usage` file reports, in microseconds:
/// its number of nanoseconds divided by a thousand.
pub open spec fn spec_cpuacct_usec(content: Seq<char>) -> Option<u64> {
    match spec_cgroup_value(content) {
        Some(ns) => Some(ns / 1000),
        None => None,
    }
}

/// The processor time used, from the `cpu.stat` text when it reports one,
/// else from the `cpuacct.usage` text; `None` stands for a file not read.
pub open spec fn spec_cpu_usec(stat: Option<Seq<char>>, cpuacct: Option<Seq<char>>) -> Option<u64> {
    let from_stat = match stat {
        Some(s) => spec_stat_usec(s),
        None => None,
    };
    if from_stat is Some {
        from_stat
    } else {
        match cpuacct {
            Some(a) => spec_cpuacct_usec(a),
            None => None,
        }
    }
}

/// The processor time comes from `cpu.stat` whenever that text reports one,
/// whatever the `cpuacct.usage` text is and whether it was read at all; only
/// otherwise is `cpuacct.usage` consulted, and with neither there is none.
pub proof fn law_stat_comes_first(stat: Option<Seq<char>>, cpuacct: Option<Seq<char>>)
    ensures
        (stat matches Some(s) && spec_stat_usec(s) is Some) ==> spec_cpu_usec(stat, cpuacct)
            == spec_stat_usec(stat->0),
        !(stat matches Some(s) && spec_stat_usec(s) is Some) ==> spec_cpu_usec(stat, cpuacct)
            == (match cpuacct {
            Some(a) => spec_cpuacct_usec(a),
            None => None,
        }),
        (stat is None && cpuacct is None) ==> spec_cpu_usec(stat, cpuacct) is None,
{
}

/// `cpuacct.usage` counts nanoseconds: the microseconds reported are the
/// whole thousands of the number the file holds.
pub proof fn law_cpuacct_in_microseconds(content: Seq<char>)
    ensures
        spec_cpuacct_usec(content) is Some <==> spec_cgroup_value(content) is Some,
        spec_cpuacct_usec(content) matches Some(us) ==> us * 1000 <= spec_cgroup_value(content)->0
            && spec_cgroup_value(content)->0 < us * 1000 + 1000,
{
}

/// The decimal digits of a number contain no white space, and are not empty.
proof fn lemma_decimal_no_space(n: nat)
    ensures
        decimal(n).len() > 0,
        forall|j: int| 0 <= j < decimal(n).len() ==> !crate::text::is_ws(#[trigger] decimal(n)[j]),
        !decimal(n).contains('\n'),
        decimal(n).last() != '\r',
{
    crate::num::lemma_decimal_digits(n);
    assert forall|j: int| 0 <= j < decimal(n).len() implies !crate::text::is_ws(
        #[trigger] decimal(n)[j],
    ) by {
        assert(crate::num::is_digit(decimal(n)[j]));
    }
    if decimal(n).contains('\n') {
        let j = choose|j: int| 0 <= j < decimal(n).len() && decimal(n)[j] == '\n';
        assert(crate::num::is_digit(decimal(n)[j]));
    }
    assert(crate::num::is_digit(decimal(n)[decimal(n).len() - 1]));
}

/// A cgroup file holding a number, with any white space around it, holds
/// that number.
pub proof fn law_cgroup_value(before: Seq<char>, n: u64, after: Seq<char>)
    requires
        forall|j: int| 0 <= j < before.len() ==> crate::text::is_ws(before[j]),
        forall|j: int| 0 <= j < after.len() ==> crate::text::is_ws(after[j]),
    ensures
        spec_cgroup_value(before + decimal(n as nat) + after) == Some(n),
        spec_cpuacct_usec(before + decimal(n as nat) + after) == Some(n / 1000),
{
    lemma_decimal_no_space(n as nat);
    let d = decimal(n as nat);
    crate::text::law_trim_takes_surrounding_space(before, d, after);
    crate::num::law_decimal_parses_back(n);
}

/// A `cpu.stat` text whose first line is `usage_usec` and a number reports
/// that number, whatever follows.
pub proof fn law_stat_usage_line(n: u64, rest: Seq<char>)
    ensures
        spec_stat_usec("usage_usec"@ + seq![' '] + decimal(n as nat) + seq!['\n'] + rest) == Some(
            n,
        ),
{
    reveal_strlit("usage_usec");
    let k = "usage_usec"@;
    let d = decimal(n as nat);
    lemma_decimal_no_space(n as nat);
    let line = k + seq![' '] + d;
    assert(!line.contains('\n')) by {
        if line.contains('\n') {
            let j = choose|j: int| 0 <= j < line.len() && line[j] == '\n';
            if j > k.len() {
                assert(d[j - k.len() - 1] == '\n');
                assert(d.contains('\n'));
            }
        }
    }
    crate::text::lemma_first_line(line, rest);
    assert(line.last() == d.last());
    assert(crate::text::strip_cr(line) == line);
    crate::text::law_words_of_spaced(k, d);
    crate::num::law_decimal_parses_back(n);
    let ls = lines(line + seq!['\n'] + rest);
    assert(usage_line(ls[0]) == Some(n));
    assert(usage_matcher()(ls[0]) == Some(n));
    assert(line + seq!['\n'] + rest == k + seq![' '] + d + seq!['\n'] + rest);
}

/// A status line `VmRSS:` followed by a number of kibibytes and `kB` reports
/// that many times 1024 bytes (wrapping).
pub proof fn law_rss_line(kb: u64)
    ensures
        rss_line("VmRSS:"@ + seq![' '] + decimal(kb as nat) + seq![' '] + "kB"@) == Some(
            kb.wrapping_mul(1024),
        ),
{
    reveal_strlit("VmRSS:");
    reveal_strlit("kB");
    let a = "VmRSS:"@;
    let c = "kB"@;
    let d = decimal(kb as nat);
    lemma_decimal_no_space(kb as nat);
    let s = a + seq![' '] + d + seq![' '] + c;
    let n1 = a.len() as int;
    let n2 = n1 + 1 + d.len();
    assert forall|j: int| 0 <= j < n1 implies !crate::text::is_ws(s[j]) by {
        assert(s[j] == a[j]);
    }
    assert forall|j: int| n1 + 1 <= j < n2 implies !crate::text::is_ws(s[j]) by {
        assert(s[j] == d[j - n1 - 1]);
    }
    assert forall|j: int| n2 + 1 <= j < s.len() implies !crate::text::is_ws(s[j]) by {
        assert(s[j] == c[j - n2 - 1]);
    }
    crate::text::lemma_word_at(s, 0, n1);
    crate::text::lemma_word_at(s, n1 + 1, n2);
    crate::text::lemma_last_word(s, n2 + 1);
    assert(s.subrange(n1 + 1, n2) =~= d);
    assert(words(s)[1] == d);
    assert(s.subrange(0, n1) =~= a);
    assert(has_prefix(s, a));
    crate::num::law_decimal_parses_back(kb);
}

fn usage_line_value(line: &[char]) -> (r: Option<u64>)
    ensures
        r == usage_line(line@),
{
    let w = split_whitespace(line);
    if w.len() == 2 && chars_are(w[0].as_slice(), "usage_usec") {
        parse_u64(w[1].as_slice())
    } else {
        None
    }
}

/// The processor time that the text of a `cpu.stat` file reports.
pub fn stat_usec(content: &str) -> (r: Option<u64>)
    ensures
        r == spec_stat_usec(content@),
{
    let c = chars_of(content);
    let ls = split_lines(c.as_slice());
    let ghost f = usage_matcher();
    let mut i: usize = 0;
    assert(views(ls@).skip(0) =~= views(ls@));
    while i < ls.len()
        invariant
            i <= ls@.len(),
            views(ls@) == lines(content@),
            f == usage_matcher(),
            first_match(views(ls@), f) == first_match(views(ls@).skip(i as int), f),
        decreases ls@.len() - i,
    {
        let v = usage_line_value(ls[i].as_slice());
        assert(views(ls@).skip(i as int)[0] == ls@[i as int]@);
        if v.is_some() {
            return v;
        }
        proof {
            lemma_first_match_step(views(ls@), f, i as int);
        }
        i += 1;
    }
    assert(views(ls@).skip(i as int) =~= Seq::<Seq<char>>::empty());
    None
}

/// The processor time that the text of a `cpuacct.usage` file reports.
pub fn cpuacct_usec(content: &str) -> (r: Option<u64>)
    ensures
        r == spec_cpuacct_usec(content@),
{
    match cgroup_value(content) {
        Some(ns) => Some(ns / 1000),
        None => None,
    }
}

/// The processor time used, from the text of `cpu.stat` if it was read and
/// reports one, else from that of `cpuacct.usage` if it was read.
pub fn cpu_usec(stat: Option<&str>, cpuacct: Option<&str>) -> (r: Option<u64>)
    ensures
        r == spec_cpu_usec(
            match stat {
                Some(s) => Some(s@),
                None => None,
            },
            match cpuacct {
                Some(a) => Some(a@),
                None => None,
            },
        ),
{
    if let Some(s) = stat {
        let v = stat_usec(s);
        if v.is_some() {
            return v;
        }
    }
    match cpuacct {
        Some(a) => cpuacct_usec(a),
        None => None,
    }
}

// ---------------------------------------------------------------------------
// Resident memory
// ---------------------------------------------------------------------------
/// The resident memory in bytes that a `VmRSS:` line of a process status
/// file reports: its second word read as kibibytes, times 1024 (wrapping).
pub open spec fn rss_line(line: Seq<char>) -> Option<u64> {
    let w = words(line);
    if has_prefix(line, "VmRSS:"@) && w.len() >= 2 {
        match spec_parse_u64(w[1]) {
            Some(kb) => Some(kb.wrapping_mul(1024)),
            None => None,
        }
    } else {
        None
    }
}

/// The resident memory in bytes that the lines of a process status file
/// report: that of the first `VmRSS:` line whose number reads.
pub open spec fn spec_rss_bytes(ls: Seq<Seq<char>>) -> Option<u64> {
    first_match(ls, rss_matcher())
}

/// `rss_line` as a function value.
pub open spec fn rss_matcher() -> spec_fn(Seq<char>) -> Option<u64> {
    |l: Seq<char>| rss_line(l)
}

fn rss_line_value(line: &[char]) -> (r: Option<u64>)
    ensures
        r == rss_line(line@),
{
    let p = chars_of("VmRSS:");
    if !starts_with(line, p.as_slice()) {
        return None;
    }
    let w = split_whitespace(line);
    if w.len() < 2 {
        return None;
    }
    match parse_u64(w[1].as_slice()) {
        Some(kb) => Some(kb.wrapping_mul(1024)),
        None => None,
    }
}

/// The resident memory in bytes that the given lines of a process status
/// file report.
pub fn rss_bytes(ls: &Vec<String>) -> (r: Option<u64>)
    ensures
        r == spec_rss_bytes(string_views(ls@)),
{
    let ghost f = rss_matcher();
    let ghost all = string_views(ls@);
    let mut i: usize = 0;
    assert(all.skip(0) =~= all);
    while i < ls.len()
        invariant
            i <= ls@.len(),
            all == string_views(ls@),
            f == rss_matcher(),
            first_match(all, f) == first_match(all.skip(i as int), f),
        decreases ls@.len() - i,
    {
        let c = chars_of(ls[i].as_str());
        let v = rss_line_value(c.as_slice());
        assert(all.skip(i as int)[0] == ls@[i as int]@);
        if v.is_some() {
            return v;
        }
        proof {
            lemma_first_match_step(all, f, i as int);
        }
        i += 1;
    }
    assert(all.skip(i as int) =~= Seq::<Seq<char>>::empty());
    None
}

/// The first of the lines that begins with `prefix`.
pub open spec fn first_with_prefix(ls: Seq<Seq<char>>, prefix: Seq<char>) -> Option<Seq<char>> {
    first_match(ls, prefix_matcher(prefix))
}

/// The line itself when it begins with `prefix`, as a function value.
pub open spec fn prefix_matcher(prefix: Seq<char>) -> spec_fn(Seq<char>) -> Option<Seq<char>> {
    |l: Seq<char>|
        if has_prefix(l, prefix) {
            Some(l)
        } else {
            None
        }
}

/// The first of the lines that begins with `prefix`.
pub fn line_with_prefix(ls: &Vec<String>, prefix: &str) -> (r: Option<String>)
    ensures
        match r {
            Some(l) => first_with_prefix(string_views(ls@), prefix@) == Some(l@),
            None => first_with_prefix(string_views(ls@), prefix@) is None,
        },
{
    let ghost f = prefix_matcher(prefix@);
    let ghost all = string_views(ls@);
    let p = chars_of(prefix);
    let mut i: usize = 0;
    assert(all.skip(0) =~= all);
    while i < ls.len()
        invariant
            i <= ls@.len(),
            p@ == prefix@,
            all == string_views(ls@),
            f == prefix_matcher(prefix@),
            first_match(all, f) == first_match(all.skip(i as int), f),
        decreases ls@.len() - i,
    {
        let c = chars_of(ls[i].as_str());
        assert(all.skip(i as int)[0] == ls@[i as int]@);
        if starts_with(c.as_slice(), p.as_slice()) {
            return Some(string_of(c.as_slice()));
        }
        proof {
            lemma_first_match_step(all, f, i as int);
        }
        i += 1;
    }
    assert(all.skip(i as int) =~= Seq::<Seq<char>>::empty());
    None
}

// ---------------------------------------------------------------------------
// Processor use between samples
// ---------------------------------------------------------------------------
#[verifier::external_type_specification]
#[verifier::external_body]
pub struct ExInstant(std::time::Instant);

/// `Instant::now`: the current time. Nothing is stated of it.
#[verifier::external_body]
fn instant_now() -> std::time::Instant {
    std::time::Instant::now()
}

/// `Instant::elapsed`: the time since `t`. Nothing is stated of it.
#[verifier::external_body]
fn elapsed_since(t: &std::time::Instant) -> std::time::Duration {
    t.elapsed()
}

/// `Duration::as_micros`: a duration in whole microseconds. Nothing is stated
/// of it here.
#[verifier::external_body]
fn whole_micros(d: &std::time::Duration) -> u128 {
    d.as_micros()
}

/// Between two samples: no use is reported when no wall-clock time passed;
/// otherwise the wall-clock time is the one given, and the processor time is
/// the growth of the counter, or none when the counter went back.
pub proof fn law_cpu_usage(current: u64, last: u64, wall_usec: u64)
    ensures
        wall_usec == 0 ==> spec_cpu_usage(current, last, wall_usec) is None,
        wall_usec > 0 ==> spec_cpu_usage(current, last, wall_usec) is Some,
        spec_cpu_usage(current, last, wall_usec) matches Some(u) ==> {
            &&& u.wall_usec == wall_usec
            &&& current >= last ==> last + u.cpu_usec == current
            &&& current < last ==> u.cpu_usec == 0
        },
{
}

/// Processor and wall-clock time between two samples, in microseconds.
#[derive(PartialEq, Eq, Structural, Clone, Copy, Debug)]
pub struct CpuUsage {
    pub cpu_usec: u64,
    pub wall_usec: u64,
}

/// The use between a sample of `last` and one of `current` microseconds of
/// processor time, `wall_usec` apart: none when no wall-clock time passed;
/// processor time that went backwards counts as none.
pub open spec fn spec_cpu_usage(current: u64, last: u64, wall_usec: u64) -> Option<CpuUsage> {
    if wall_usec > 0 {
        Some(CpuUsage { cpu_usec: current.saturating_sub(last), wall_usec })
    } else {
        None
    }
}

/// The use between a sample of `last` and one of `current` microseconds of
/// processor time, taken `wall_usec` microseconds apart.
pub fn cpu_usage(current: u64, last: u64, wall_usec: u64) -> (r: Option<CpuUsage>)
    ensures
        r == spec_cpu_usage(current, last, wall_usec),
{
    if wall_usec > 0 {
        Some(CpuUsage { cpu_usec: current.saturating_sub(last), wall_usec })
    } else {
        None
    }
}

/// The processor time and the moment of the last sample.
pub struct CpuTracker {
    pub last_cpu_usec: u64,
    pub last_instant: std::time::Instant,
}

impl CpuTracker {
    /// A tracker whose first sample, taken now, read `cpu_usec`.
    pub fn new(cpu_usec: u64) -> (r: Self)
        ensures
            r.last_cpu_usec == cpu_usec,
    {
        CpuTracker { last_cpu_usec: cpu_usec, last_instant: instant_now() }
    }

    /// Takes a sample that read `current_cpu_usec`: gives the use since the
    /// last sample (none when no whole microsecond passed) and makes this
    /// sample the last.
    pub fn sample(&mut self, current_cpu_usec: u64) -> (r: Option<CpuUsage>)
        ensures
            final(self).last_cpu_usec == current_cpu_usec,
            match r {
                Some(u) => u.cpu_usec == current_cpu_usec.saturating_sub(old(self).last_cpu_usec)
                    && u.wall_usec > 0,
                None => true,
            },
    {
        let elapsed = elapsed_since(&self.last_instant);
        let wall: u64 = whole_micros(&elapsed) as u64;
        let r = cpu_usage(current_cpu_usec, self.last_cpu_usec, wall);
        self.last_cpu_usec = current_cpu_usec;
        self.last_instant = instant_now();
        r
    }
}

} // verus!

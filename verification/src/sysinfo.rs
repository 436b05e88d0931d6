//! A description of the host, made from the text of system files, and its
//! rendering as JSON.
use vstd::prelude::*;

use crate::metrics::first_with_prefix;
use crate::num::{decimal, i64_decimal, parse_u32, signed_decimal, spec_parse_u32, u64_decimal};
use crate::text::{
    append_chars, chars_are, chars_of, has_prefix, join, join_parts, lines, remove_all,
    remove_occurrences, split, split_char, split_lines, split_whitespace, starts_with, string_of,
    string_views, trim, trim_chars, views, words,
};

verus! {

/// At most the first `n` elements of `s`.
pub open spec fn take_at_most<T>(s: Seq<T>, n: nat) -> Seq<T> {
    if s.len() <= n {
        s
    } else {
        s.take(n as int)
    }
}

/// The first three words of `text`, joined with single spaces.
pub open spec fn first_three_words(text: Seq<char>) -> Seq<char> {
    join(take_at_most(words(text), 3), " "@)
}

/// The text after the first `:` of `line` and before any second one, without
/// surrounding white space; empty when the line has no `:`.
pub open spec fn after_colon(line: Seq<char>) -> Seq<char> {
    let parts = split(line, ':');
    if parts.len() >= 2 {
        trim(parts[1])
    } else {
        seq![]
    }
}

/// The name of the operating system from its `PRETTY_NAME=` line: the line
/// without the key and without quotes.
pub open spec fn spec_os_name(line: Option<Seq<char>>) -> Seq<char> {
    match line {
        Some(l) => remove_all(remove_all(l, "PRETTY_NAME="@), "\""@),
        None => "Unknown OS"@,
    }
}

/// The kernel from the text of `/proc/version`: its first three words.
pub open spec fn spec_kernel(content: Option<Seq<char>>) -> Seq<char> {
    match content {
        Some(c) => first_three_words(c),
        None => "Unknown Kernel"@,
    }
}

/// The host name from the text of its file, without surrounding white space.
pub open spec fn spec_hostname(content: Option<Seq<char>>) -> Seq<char> {
    match content {
        Some(c) => trim(c),
        None => "Unknown Host"@,
    }
}

/// The hypervisor from the text of the first of two files that was read.
pub open spec fn spec_hypervisor(first: Option<Seq<char>>, second: Option<Seq<char>>) -> Seq<char> {
    match first {
        Some(c) => trim(c),
        None => match second {
            Some(c) => trim(c),
            None => "KVM/Hypervisor"@,
        },
    }
}

/// The processor model from its `model name` line.
pub open spec fn spec_cpu_model(line: Option<Seq<char>>) -> Seq<char> {
    match line {
        Some(l) => after_colon(l),
        None => "Unknown CPU"@,
    }
}

/// The processor speed from its `cpu MHz` line.
pub open spec fn spec_cpu_speed(line: Option<Seq<char>>) -> Seq<char> {
    match line {
        Some(l) => after_colon(l) + " MHz"@,
        None => "Unknown Speed"@,
    }
}

/// How many of the lines begin with `p`.
pub open spec fn count_with_prefix(ls: Seq<Seq<char>>, p: Seq<char>) -> nat
    decreases ls.len(),
{
    if ls.len() == 0 {
        0
    } else {
        count_with_prefix(ls.drop_last(), p) + if has_prefix(ls.last(), p) {
            1nat
        } else {
            0nat
        }
    }
}

/// The number of processors from the text of `/proc/cpuinfo`: its lines that
/// begin with `processor`; one when the file was not read.
pub open spec fn spec_cpu_cores(content: Option<Seq<char>>) -> nat {
    match content {
        Some(c) => count_with_prefix(lines(c), "processor"@),
        None => 1,
    }
}

/// The total memory from its `MemTotal:` line: the second word, then ` KB`.
pub open spec fn spec_mem_total(line: Option<Seq<char>>) -> Seq<char> {
    match line {
        Some(l) => {
            let w = words(l);
            (if w.len() >= 2 {
                w[1]
            } else {
                seq![]
            }) + " KB"@
        },
        None => "Unknown Mem"@,
    }
}

/// The load averages from the text of `/proc/loadavg`: its first three words.
pub open spec fn spec_loadavg(content: Option<Seq<char>>) -> Seq<char> {
    match content {
        Some(c) => first_three_words(c),
        None => "Unknown"@,
    }
}

/// The value in a file under `/sys`, without surrounding white space, or
/// `N/A` when the file was not read.
pub open spec fn spec_sys_value(content: Option<Seq<char>>) -> Seq<char> {
    match content {
        Some(c) => trim(c),
        None => "N/A"@,
    }
}

/// The cache line size: the value read as a number, 64 when it does not read.
pub open spec fn spec_cache_line(value: Seq<char>) -> u32 {
    match spec_parse_u32(value) {
        Some(v) => v,
        None => 64,
    }
}

/// Whether `w` is one of the processor features that are reported.
pub open spec fn is_reported_flag(w: Seq<char>) -> bool {
    ||| w == "sse"@
    ||| w == "sse2"@
    ||| w == "sse3"@
    ||| w == "ssse3"@
    ||| w == "sse4_1"@
    ||| w == "sse4_2"@
    ||| w == "avx"@
    ||| w == "avx2"@
    ||| w == "avx512f"@
    ||| w == "aes"@
    ||| w == "sha_ni"@
    ||| w == "hypervisor"@
}

/// The words that are reported features, in order.
pub open spec fn reported_flags(ws: Seq<Seq<char>>) -> Seq<Seq<char>>
    decreases ws.len(),
{
    if ws.len() == 0 {
        seq![]
    } else if is_reported_flag(ws.last()) {
        reported_flags(ws.drop_last()).push(ws.last())
    } else {
        reported_flags(ws.drop_last())
    }
}

/// The text of a `:` separated field: the piece after the first `:`.
pub open spec fn second_piece(line: Seq<char>) -> Seq<char> {
    let parts = split(line, ':');
    if parts.len() >= 2 {
        parts[1]
    } else {
        seq![]
    }
}

/// The reported features from the text of `/proc/cpuinfo`: those among the
/// words after the `:` of its first `flags` line, in order, joined with
/// single spaces; empty when there is no such line.
pub open spec fn spec_simd_flags(content: Option<Seq<char>>) -> Seq<char> {
    match content {
        Some(c) => match first_with_prefix(lines(c), "flags"@) {
            Some(l) => join(reported_flags(words(second_piece(l))), " "@),
            None => seq![],
        },
        None => seq![],
    }
}

/// The number of NUMA nodes from the names in the node directory: those that
/// begin with `node`, and at least one.
pub open spec fn spec_numa_nodes(names: Seq<Seq<char>>) -> nat {
    let n = count_with_prefix(names, "node"@);
    if n == 0 {
        1
    } else {
        n
    }
}

/// When a file is not read, each field takes its stated stand-in: `Unknown
/// OS`, `Unknown Kernel`, `Unknown Host`, `KVM/Hypervisor`, `Unknown CPU`,
/// `Unknown Speed`, one processor, `Unknown Mem`, `Unknown` load, `N/A` for a
/// `/sys` value, and no features.
pub proof fn law_stand_ins()
    ensures
        spec_os_name(None) == "Unknown OS"@,
        spec_kernel(None) == "Unknown Kernel"@,
        spec_hostname(None) == "Unknown Host"@,
        spec_hypervisor(None, None) == "KVM/Hypervisor"@,
        spec_cpu_model(None) == "Unknown CPU"@,
        spec_cpu_speed(None) == "Unknown Speed"@,
        spec_cpu_cores(None) == 1,
        spec_mem_total(None) == "Unknown Mem"@,
        spec_loadavg(None) == "Unknown"@,
        spec_sys_value(None) == "N/A"@,
        spec_simd_flags(None) == Seq::<char>::empty(),
{
}

/// The hypervisor comes from the first file when it was read, whatever the
/// second holds; from the second only when the first was not read.
pub proof fn law_hypervisor_order(first: Option<Seq<char>>, second: Option<Seq<char>>)
    ensures
        first is Some ==> spec_hypervisor(first, second) == trim(first->0),
        (first is None && second is Some) ==> spec_hypervisor(first, second) == trim(
            second->0,
        ),
{
}

/// The text of a `name: value` line after its colon, without surrounding
/// white space, when neither part holds another colon.
pub proof fn law_after_colon(name: Seq<char>, value: Seq<char>)
    requires
        !name.contains(':'),
        !value.contains(':'),
    ensures
        after_colon(name + seq![':'] + value) == trim(value),
        second_piece(name + seq![':'] + value) == value,
        spec_cpu_model(Some(name + seq![':'] + value)) == trim(value),
        spec_cpu_speed(Some(name + seq![':'] + value)) == trim(value) + " MHz"@,
{
    crate::text::lemma_split_append(name, ':', value);
    crate::text::lemma_split_whole(name, ':');
    assert(split(name + seq![':'] + value, ':') =~= seq![name, value]);
}

/// The total memory is the number after `MemTotal:` followed by ` KB`.
pub proof fn law_mem_total(name: Seq<char>, amount: Seq<char>)
    requires
        name.len() > 0,
        amount.len() > 0,
        forall|j: int| 0 <= j < name.len() ==> !crate::text::is_ws(name[j]),
        forall|j: int| 0 <= j < amount.len() ==> !crate::text::is_ws(amount[j]),
    ensures
        spec_mem_total(Some(name + seq![' '] + amount)) == amount + " KB"@,
        spec_mem_total(Some(name)) == " KB"@,
{
    crate::text::law_words_of_spaced(name, amount);
    assert(Seq::<char>::empty() + " KB"@ =~= " KB"@);
}

/// The cache line size is the number the value holds, or 64 when it holds
/// none.
pub proof fn law_cache_line(value: Seq<char>, n: u32)
    ensures
        spec_cache_line(decimal(n as nat)) == n,
        spec_parse_u32(value) is None ==> spec_cache_line(value) == 64,
{
    crate::num::law_decimal_parses_back(n as u64);
    crate::num::lemma_decimal_digits(n as nat);
}

/// There is at least one NUMA node; when some names begin with `node`, there
/// are as many nodes as such names.
pub proof fn law_numa_nodes(names: Seq<Seq<char>>)
    ensures
        spec_numa_nodes(names) >= 1,
        count_with_prefix(names, "node"@) > 0 ==> spec_numa_nodes(names) == count_with_prefix(
            names,
            "node"@,
        ),
        spec_numa_nodes(names) <= if names.len() == 0 { 1 } else { names.len() },
{
    lemma_count_at_most(names, "node"@);
}

proof fn lemma_count_at_most(ls: Seq<Seq<char>>, p: Seq<char>)
    ensures
        count_with_prefix(ls, p) <= ls.len(),
    decreases ls.len(),
{
    if ls.len() > 0 {
        lemma_count_at_most(ls.drop_last(), p);
    }
}

/// The reported features are exactly the words, in order, that are among
/// `sse`, `sse2`, `sse3`, `ssse3`, `sse4_1`, `sse4_2`, `avx`, `avx2`,
/// `avx512f`, `aes`, `sha_ni` and `hypervisor`.
pub proof fn law_reported_flags(ws: Seq<Seq<char>>, w: Seq<char>)
    ensures
        reported_flags(ws) == ws.filter(|x: Seq<char>| is_reported_flag(x)),
        is_reported_flag(w) <==> (w == "sse"@ || w == "sse2"@ || w == "sse3"@ || w == "ssse3"@
            || w == "sse4_1"@ || w == "sse4_2"@ || w == "avx"@ || w == "avx2"@ || w
            == "avx512f"@ || w == "aes"@ || w == "sha_ni"@ || w == "hypervisor"@),
    decreases ws.len(),
{
    reveal_with_fuel(Seq::filter, 1);
    if ws.len() > 0 {
        law_reported_flags(ws.drop_last(), w);
    }
}

/// The kernel and the load averages are the first three words of their
/// text, each two joined by one space; a text of fewer words gives all of
/// them.
pub proof fn law_first_three_words(text: Seq<char>)
    ensures
        words(text).len() >= 3 ==> first_three_words(text) == words(text)[0] + " "@ + words(
            text,
        )[1] + " "@ + words(text)[2],
        words(text).len() == 2 ==> first_three_words(text) == words(text)[0] + " "@ + words(
            text,
        )[1],
        words(text).len() == 1 ==> first_three_words(text) == words(text)[0],
        words(text).len() == 0 ==> first_three_words(text) == Seq::<char>::empty(),
        spec_kernel(Some(text)) == first_three_words(text),
        spec_loadavg(Some(text)) == first_three_words(text),
{
    let w = words(text);
    let t = take_at_most(w, 3);
    if w.len() >= 3 {
        assert(t.len() == 3);
        assert(t.drop_last().drop_last().len() == 1);
        assert(t.drop_last().drop_last()[0] == w[0]);
        assert(t.drop_last().last() == w[1]);
        assert(t.last() == w[2]);
        assert(join(t.drop_last().drop_last(), " "@) == w[0]);
        assert(join(t.drop_last(), " "@) == w[0] + " "@ + w[1]);
    } else if w.len() == 2 {
        assert(t.drop_last().len() == 1);
        assert(join(t.drop_last(), " "@) == w[0]);
    }
}

/// The name of the operating system is the value of its `PRETTY_NAME=`
/// line, quoted or not, when the value holds neither `"` nor `=`.
pub proof fn law_os_name(name: Seq<char>)
    requires
        !name.contains('"'),
        !name.contains('='),
    ensures
        spec_os_name(Some("PRETTY_NAME="@ + "\""@ + name + "\""@)) == name,
        spec_os_name(Some("PRETTY_NAME="@ + name)) == name,
{
    reveal_strlit("PRETTY_NAME=");
    reveal_strlit("\"");
    let p = "PRETTY_NAME="@;
    let q = "\""@;
    assert(p[11] == '=');
    assert(q[0] == '"');
    let inner = q + name + q;
    assert(!inner.contains('=')) by {
        if inner.contains('=') {
            let j = choose|j: int| 0 <= j < inner.len() && inner[j] == '=';
            if 1 <= j < inner.len() - 1 {
                assert(name[j - 1] == '=');
            }
        }
    }
    assert(p + q + name + q == p + inner);
    crate::text::lemma_remove_front(p, inner);
    crate::text::lemma_remove_absent(inner, p, 11);
    assert(inner == q + (name + q));
    crate::text::lemma_remove_front(q, name + q);
    crate::text::lemma_remove_keeps_front(name, q, q);
    crate::text::lemma_remove_front(q, Seq::<char>::empty());
    assert(q + Seq::<char>::empty() =~= q);
    assert(name + Seq::<char>::empty() =~= name);
    crate::text::lemma_remove_front(p, name);
    crate::text::lemma_remove_absent(name, p, 11);
    crate::text::lemma_remove_absent(name, q, 0);
}

/// The processors counted are the lines of `/proc/cpuinfo` that begin with
/// `processor`, and the NUMA nodes the names that begin with `node`: as many
/// as there are such lines or names.
pub proof fn law_counted_lines(ls: Seq<Seq<char>>, p: Seq<char>, cpuinfo: Seq<char>)
    ensures
        count_with_prefix(ls, p) == ls.filter(|l: Seq<char>| has_prefix(l, p)).len(),
        spec_cpu_cores(Some(cpuinfo)) == lines(cpuinfo).filter(
            |l: Seq<char>| has_prefix(l, "processor"@),
        ).len(),
{
    lemma_count_filter(ls, p);
    lemma_count_filter(lines(cpuinfo), "processor"@);
}

proof fn lemma_count_filter(ls: Seq<Seq<char>>, p: Seq<char>)
    ensures
        count_with_prefix(ls, p) == ls.filter(|l: Seq<char>| has_prefix(l, p)).len(),
    decreases ls.len(),
{
    reveal_with_fuel(Seq::filter, 1);
    if ls.len() > 0 {
        lemma_count_filter(ls.drop_last(), p);
    }
}

fn opt_chars(t: Option<&str>) -> (r: Option<Vec<char>>)
    ensures
        match t {
            Some(s) => r matches Some(c) && c@ == s@,
            None => r is None,
        },
{
    match t {
        Some(s) => Some(chars_of(s)),
        None => None,
    }
}

/// The view of an optional text.
pub open spec fn opt_view(t: Option<&str>) -> Option<Seq<char>> {
    match t {
        Some(s) => Some(s@),
        None => None,
    }
}

/// The name of the operating system from its `PRETTY_NAME=` line, if read.
pub fn os_name(line: Option<&str>) -> (r: String)
    ensures
        r@ == spec_os_name(opt_view(line)),
{
    match line {
        Some(l) => {
            let c = chars_of(l);
            let key = chars_of("PRETTY_NAME=");
            let quote = chars_of("\"");
            let a = remove_occurrences(c.as_slice(), key.as_slice());
            let b = remove_occurrences(a.as_slice(), quote.as_slice());
            string_of(b.as_slice())
        },
        None => String::from_str("Unknown OS"),
    }
}

fn first_three_words_of(c: &[char]) -> (r: Vec<char>)
    ensures
        r@ == first_three_words(c@),
{
    let w = split_whitespace(c);
    let mut first: Vec<Vec<char>> = Vec::new();
    let mut i: usize = 0;
    while i < w.len() && i < 3
        invariant
            i <= w@.len(),
            i <= 3,
            views(first@) == views(w@).take(i as int),
        decreases 3 - i,
    {
        let ghost before = views(first@);
        first.push(copy_vec(&w[i]));
        assert(views(first@) =~= before.push(w@[i as int]@));
        assert(views(w@).take(i + 1) =~= views(w@).take(i as int).push(w@[i as int]@));
        i += 1;
    }
    assert(views(first@) =~= take_at_most(views(w@), 3));
    let space = chars_of(" ");
    join_parts(&first, space.as_slice())
}

fn copy_vec(v: &Vec<char>) -> (r: Vec<char>)
    ensures
        r@ == v@,
{
    crate::text::copy_range(v.as_slice(), 0, v.len())
}

/// The kernel from the text of `/proc/version`, if read.
pub fn kernel(content: Option<&str>) -> (r: String)
    ensures
        r@ == spec_kernel(opt_view(content)),
{
    match content {
        Some(t) => {
            let c = chars_of(t);
            string_of(first_three_words_of(c.as_slice()).as_slice())
        },
        None => String::from_str("Unknown Kernel"),
    }
}

/// The load averages from the text of `/proc/loadavg`, if read.
pub fn loadavg(content: Option<&str>) -> (r: String)
    ensures
        r@ == spec_loadavg(opt_view(content)),
{
    match content {
        Some(t) => {
            let c = chars_of(t);
            string_of(first_three_words_of(c.as_slice()).as_slice())
        },
        None => String::from_str("Unknown"),
    }
}

fn trimmed(t: &str) -> (r: String)
    ensures
        r@ == trim(t@),
{
    let c = chars_of(t);
    string_of(trim_chars(c.as_slice()).as_slice())
}

/// The host name from the text of its file, if read.
pub fn hostname(content: Option<&str>) -> (r: String)
    ensures
        r@ == spec_hostname(opt_view(content)),
{
    match content {
        Some(t) => trimmed(t),
        None => String::from_str("Unknown Host"),
    }
}

/// The hypervisor from the text of the first of its two files that was read.
pub fn hypervisor(first: Option<&str>, second: Option<&str>) -> (r: String)
    ensures
        r@ == spec_hypervisor(opt_view(first), opt_view(second)),
{
    match first {
        Some(t) => trimmed(t),
        None => match second {
            Some(t) => trimmed(t),
            None => String::from_str("KVM/Hypervisor"),
        },
    }
}

/// The value in a file under `/sys`, if read.
pub fn sys_value(content: Option<&str>) -> (r: String)
    ensures
        r@ == spec_sys_value(opt_view(content)),
{
    match content {
        Some(t) => trimmed(t),
        None => String::from_str("N/A"),
    }
}

/// The cache line size given by a value from `/sys`.
pub fn cache_line(value: &str) -> (r: u32)
    ensures
        r == spec_cache_line(value@),
{
    let c = chars_of(value);
    match parse_u32(c.as_slice()) {
        Some(v) => v,
        None => 64,
    }
}

fn second_piece_of(line: &[char]) -> (r: Vec<char>)
    ensures
        r@ == second_piece(line@),
{
    let parts = split_char(line, ':');
    if parts.len() >= 2 {
        copy_vec(&parts[1])
    } else {
        Vec::new()
    }
}

fn after_colon_of(line: &[char]) -> (r: Vec<char>)
    ensures
        r@ == after_colon(line@),
{
    let p = second_piece_of(line);
    let t = trim_chars(p.as_slice());
    if split_char(line, ':').len() >= 2 {
        t
    } else {
        Vec::new()
    }
}

/// The processor model from its `model name` line, if found.
pub fn cpu_model(line: Option<&str>) -> (r: String)
    ensures
        r@ == spec_cpu_model(opt_view(line)),
{
    match line {
        Some(l) => {
            let c = chars_of(l);
            string_of(after_colon_of(c.as_slice()).as_slice())
        },
        None => String::from_str("Unknown CPU"),
    }
}

/// The processor speed from its `cpu MHz` line, if found.
pub fn cpu_speed(line: Option<&str>) -> (r: String)
    ensures
        r@ == spec_cpu_speed(opt_view(line)),
{
    match line {
        Some(l) => {
            let c = chars_of(l);
            let mut v = after_colon_of(c.as_slice());
            append_chars(&mut v, chars_of(" MHz").as_slice());
            string_of(v.as_slice())
        },
        None => String::from_str("Unknown Speed"),
    }
}

fn count_prefixed(ls: &Vec<Vec<char>>, p: &[char]) -> (r: usize)
    ensures
        r as nat == count_with_prefix(views(ls@), p@),
{
    let mut n: usize = 0;
    let mut i: usize = 0;
    while i < ls.len()
        invariant
            i <= ls@.len(),
            n <= i,
            n as nat == count_with_prefix(views(ls@).take(i as int), p@),
        decreases ls@.len() - i,
    {
        assert(views(ls@).take(i + 1).drop_last() =~= views(ls@).take(i as int));
        assert(views(ls@).take(i + 1).last() == ls@[i as int]@);
        if starts_with(ls[i].as_slice(), p) {
            n += 1;
        }
        i += 1;
    }
    assert(views(ls@).take(ls@.len() as int) =~= views(ls@));
    n
}

/// The number of processors from the text of `/proc/cpuinfo`, if read.
pub fn cpu_cores(content: Option<&str>) -> (r: usize)
    ensures
        r as nat == spec_cpu_cores(opt_view(content)),
{
    match content {
        Some(t) => {
            let c = chars_of(t);
            let ls = split_lines(c.as_slice());
            let p = chars_of("processor");
            count_prefixed(&ls, p.as_slice())
        },
        None => 1,
    }
}

/// The total memory from its `MemTotal:` line, if found.
pub fn mem_total(line: Option<&str>) -> (r: String)
    ensures
        r@ == spec_mem_total(opt_view(line)),
{
    match line {
        Some(l) => {
            let c = chars_of(l);
            let w = split_whitespace(c.as_slice());
            let mut v: Vec<char> = if w.len() >= 2 {
                copy_vec(&w[1])
            } else {
                Vec::new()
            };
            append_chars(&mut v, chars_of(" KB").as_slice());
            string_of(v.as_slice())
        },
        None => String::from_str("Unknown Mem"),
    }
}

fn is_reported(w: &[char]) -> (r: bool)
    ensures
        r == is_reported_flag(w@),
{
    chars_are(w, "sse") || chars_are(w, "sse2") || chars_are(w, "sse3") || chars_are(w, "ssse3")
        || chars_are(w, "sse4_1") || chars_are(w, "sse4_2") || chars_are(w, "avx") || chars_are(
        w,
        "avx2",
    ) || chars_are(w, "avx512f") || chars_are(w, "aes") || chars_are(w, "sha_ni") || chars_are(
        w,
        "hypervisor",
    )
}

/// The reported processor features from the text of `/proc/cpuinfo`, if read.
pub fn simd_flags(content: Option<&str>) -> (r: String)
    ensures
        r@ == spec_simd_flags(opt_view(content)),
{
    let t = match content {
        Some(t) => t,
        None => {
            return String::new();
        },
    };
    let c = chars_of(t);
    let ls = split_lines(c.as_slice());
    let p = chars_of("flags");
    let ghost f = crate::metrics::prefix_matcher("flags"@);
    let ghost all = views(ls@);
    assert(all.skip(0) =~= all);
    let mut i: usize = 0;
    while i < ls.len()
        invariant
            i <= ls@.len(),
            all == views(ls@),
            all == lines(t@),
            opt_view(content) == Some(t@),
            p@ == "flags"@,
            f == crate::metrics::prefix_matcher("flags"@),
            crate::metrics::first_match(all, f) == crate::metrics::first_match(
                all.skip(i as int),
                f,
            ),
        decreases ls@.len() - i,
    {
        assert(all.skip(i as int)[0] == ls@[i as int]@);
        if starts_with(ls[i].as_slice(), p.as_slice()) {
            assert(f(ls@[i as int]@) == Some(ls@[i as int]@));
            assert(crate::metrics::first_match(all.skip(i as int), f) == Some(ls@[i as int]@));
            let field = second_piece_of(ls[i].as_slice());
            let ws = split_whitespace(field.as_slice());
            let mut kept: Vec<Vec<char>> = Vec::new();
            let mut k: usize = 0;
            while k < ws.len()
                invariant
                    k <= ws@.len(),
                    views(kept@) == reported_flags(views(ws@).take(k as int)),
                decreases ws@.len() - k,
            {
                assert(views(ws@).take(k + 1).drop_last() =~= views(ws@).take(k as int));
                assert(views(ws@).take(k + 1).last() == ws@[k as int]@);
                if is_reported(ws[k].as_slice()) {
                    let ghost before = views(kept@);
                    kept.push(copy_vec(&ws[k]));
                    assert(views(kept@) =~= before.push(ws@[k as int]@));
                }
                k += 1;
            }
            assert(views(ws@).take(ws@.len() as int) =~= views(ws@));
            let space = chars_of(" ");
            let joined = join_parts(&kept, space.as_slice());
            return string_of(joined.as_slice());
        }
        proof {
            crate::metrics::lemma_first_match_step(all, f, i as int);
        }
        i += 1;
    }
    assert(all.skip(i as int) =~= Seq::<Seq<char>>::empty());
    String::new()
}

/// The number of NUMA nodes from the names in the node directory.
pub fn numa_nodes(names: &Vec<String>) -> (r: u32)
    requires
        names@.len() <= u32::MAX,
    ensures
        r as nat == spec_numa_nodes(string_views(names@)),
{
    let mut n: u32 = 0;
    let mut i: usize = 0;
    let p = chars_of("node");
    while i < names.len()
        invariant
            i <= names@.len(),
            names@.len() <= u32::MAX,
            p@ == "node"@,
            n <= i,
            n as nat == count_with_prefix(string_views(names@).take(i as int), "node"@),
        decreases names@.len() - i,
    {
        assert(string_views(names@).take(i + 1).drop_last() =~= string_views(names@).take(
            i as int,
        ));
        assert(string_views(names@).take(i + 1).last() == names@[i as int]@);
        let c = chars_of(names[i].as_str());
        if starts_with(c.as_slice(), p.as_slice()) {
            n += 1;
        }
        i += 1;
    }
    assert(string_views(names@).take(names@.len() as int) =~= string_views(names@));
    if n == 0 {
        1
    } else {
        n
    }
}

/// A description of the host.
pub struct SysInfo {
    pub os: String,
    pub kernel: String,
    pub hostname: String,
    pub hypervisor: String,
    pub cpu_model: String,
    pub cpu_speed: String,
    pub cpu_cores: usize,
    pub cpu_flags: String,
    pub l1_data: String,
    pub l1_inst: String,
    pub l2: String,
    pub l3: String,
    pub cache_line: u32,
    pub numa_nodes: u32,
    pub page_size: i64,
    pub mem_total: String,
    pub uptime: String,
    pub loadavg: String,
}

/// The JSON object that describes the host: for each field, in order, its
/// name in quotes, a colon, and its value (text between quotes as it is,
/// numbers in decimal), separated by commas.
pub open spec fn sysinfo_json(s: SysInfo) -> Seq<char> {
    "{"@ + "\"os\":\""@ + s.os@ + "\""@ + ","@ + "\"kernel\":\""@ + s.kernel@ + "\""@ + ","@ + "\"hostname\":\""@ + s.hostname@ + "\""@ + ","@ + "\"hypervisor\":\""@ + s.hypervisor@ + "\""@ + ","@ + "\"cpu_model\":\""@ + s.cpu_model@ + "\""@ + ","@ + "\"cpu_speed\":\""@ + s.cpu_speed@ + "\""@ + ","@ + "\"cpu_cores\":"@ + decimal(s.cpu_cores as nat) + ","@ + "\"cpu_flags\":\""@ + s.cpu_flags@ + "\""@ + ","@ + "\"l1_data\":\""@ + s.l1_data@ + "\""@ + ","@ + "\"l1_inst\":\""@ + s.l1_inst@ + "\""@ + ","@ + "\"l2\":\""@ + s.l2@ + "\""@ + ","@ + "\"l3\":\""@ + s.l3@ + "\""@ + ","@ + "\"cache_line\":"@ + decimal(s.cache_line as nat) + ","@ + "\"numa_nodes\":"@ + decimal(s.numa_nodes as nat) + ","@ + "\"page_size\":"@ + signed_decimal(s.page_size as int) + ","@ + "\"mem_total\":\""@ + s.mem_total@ + "\""@ + ","@ + "\"uptime\":\""@ + s.uptime@ + "\""@ + ","@ + "\"loadavg\":\""@ + s.loadavg@ + "\""@ + "}"@
}

/// Whether `entry` stands in `json`: `json` is some text, then `entry`, then
/// some more text.
#[verifier::opaque]
pub open spec fn shows(json: Seq<char>, entry: Seq<char>) -> bool {
    exists|pre: Seq<char>, post: Seq<char>| json == pre + entry + post
}

/// Text that shows an entry still shows it with more text after it.
pub broadcast proof fn lemma_shows_extend(x: Seq<char>, y: Seq<char>, e: Seq<char>)
    requires
        shows(x, e),
    ensures
        #[trigger] shows(x + y, e),
{
    reveal(shows);
    let (pre, post) = choose|pre: Seq<char>, post: Seq<char>| x == pre + e + post;
    assert(x + y =~= pre + e + (post + y));
}

/// Text that ends with the three pieces of an entry shows the entry.
pub broadcast proof fn lemma_shows_end(x: Seq<char>, a: Seq<char>, b: Seq<char>, c: Seq<char>)
    ensures
        #[trigger] shows(x + a + b + c, a + b + c),
{
    reveal(shows);
    assert(x + a + b + c =~= x + (a + b + c) + Seq::<char>::empty());
}

/// Each field of the description stands in the JSON under its own name:
/// the name in quotes and a colon, then that field's own value, closed by a
/// quote (text) or a comma (numbers).
pub proof fn law_json_fields(s: SysInfo)
    ensures
        shows(sysinfo_json(s), "\"os\":\""@ + s.os@ + "\""@),
        shows(sysinfo_json(s), "\"kernel\":\""@ + s.kernel@ + "\""@),
        shows(sysinfo_json(s), "\"hostname\":\""@ + s.hostname@ + "\""@),
        shows(sysinfo_json(s), "\"hypervisor\":\""@ + s.hypervisor@ + "\""@),
        shows(sysinfo_json(s), "\"cpu_model\":\""@ + s.cpu_model@ + "\""@),
        shows(sysinfo_json(s), "\"cpu_speed\":\""@ + s.cpu_speed@ + "\""@),
        shows(sysinfo_json(s), "\"cpu_cores\":"@ + decimal(s.cpu_cores as nat) + ","@),
        shows(sysinfo_json(s), "\"cpu_flags\":\""@ + s.cpu_flags@ + "\""@),
        shows(sysinfo_json(s), "\"l1_data\":\""@ + s.l1_data@ + "\""@),
        shows(sysinfo_json(s), "\"l1_inst\":\""@ + s.l1_inst@ + "\""@),
        shows(sysinfo_json(s), "\"l2\":\""@ + s.l2@ + "\""@),
        shows(sysinfo_json(s), "\"l3\":\""@ + s.l3@ + "\""@),
        shows(sysinfo_json(s), "\"cache_line\":"@ + decimal(s.cache_line as nat) + ","@),
        shows(sysinfo_json(s), "\"numa_nodes\":"@ + decimal(s.numa_nodes as nat) + ","@),
        shows(sysinfo_json(s), "\"page_size\":"@ + signed_decimal(s.page_size as int) + ","@),
        shows(sysinfo_json(s), "\"mem_total\":\""@ + s.mem_total@ + "\""@),
        shows(sysinfo_json(s), "\"uptime\":\""@ + s.uptime@ + "\""@),
        shows(sysinfo_json(s), "\"loadavg\":\""@ + s.loadavg@ + "\""@),
{
    broadcast use {lemma_shows_extend, lemma_shows_end};
}

fn push_text(out: &mut Vec<char>, t: &str)
    ensures
        final(out)@ == old(out)@ + t@,
{
    let c = chars_of(t);
    append_chars(out, c.as_slice());
}

impl SysInfo {
    /// The JSON object that describes the host.
    pub fn to_json(&self) -> (r: String)
        ensures
            r@ == sysinfo_json(*self),
    {
        let mut o: Vec<char> = Vec::new();
        push_text(&mut o, "{");
        push_text(&mut o, "\"os\":\"");
        push_text(&mut o, self.os.as_str());
        push_text(&mut o, "\"");
        push_text(&mut o, ",");
        push_text(&mut o, "\"kernel\":\"");
        push_text(&mut o, self.kernel.as_str());
        push_text(&mut o, "\"");
        push_text(&mut o, ",");
        push_text(&mut o, "\"hostname\":\"");
        push_text(&mut o, self.hostname.as_str());
        push_text(&mut o, "\"");
        push_text(&mut o, ",");
        push_text(&mut o, "\"hypervisor\":\"");
        push_text(&mut o, self.hypervisor.as_str());
        push_text(&mut o, "\"");
        push_text(&mut o, ",");
        push_text(&mut o, "\"cpu_model\":\"");
        push_text(&mut o, self.cpu_model.as_str());
        push_text(&mut o, "\"");
        push_text(&mut o, ",");
        push_text(&mut o, "\"cpu_speed\":\"");
        push_text(&mut o, self.cpu_speed.as_str());
        push_text(&mut o, "\"");
        push_text(&mut o, ",");
        push_text(&mut o, "\"cpu_cores\":");
        append_chars(&mut o, u64_decimal(self.cpu_cores as u64).as_slice());
        push_text(&mut o, ",");
        push_text(&mut o, "\"cpu_flags\":\"");
        push_text(&mut o, self.cpu_flags.as_str());
        push_text(&mut o, "\"");
        push_text(&mut o, ",");
        push_text(&mut o, "\"l1_data\":\"");
        push_text(&mut o, self.l1_data.as_str());
        push_text(&mut o, "\"");
        push_text(&mut o, ",");
        push_text(&mut o, "\"l1_inst\":\"");
        push_text(&mut o, self.l1_inst.as_str());
        push_text(&mut o, "\"");
        push_text(&mut o, ",");
        push_text(&mut o, "\"l2\":\"");
        push_text(&mut o, self.l2.as_str());
        push_text(&mut o, "\"");
        push_text(&mut o, ",");
        push_text(&mut o, "\"l3\":\"");
        push_text(&mut o, self.l3.as_str());
        push_text(&mut o, "\"");
        push_text(&mut o, ",");
        push_text(&mut o, "\"cache_line\":");
        append_chars(&mut o, u64_decimal(self.cache_line as u64).as_slice());
        push_text(&mut o, ",");
        push_text(&mut o, "\"numa_nodes\":");
        append_chars(&mut o, u64_decimal(self.numa_nodes as u64).as_slice());
        push_text(&mut o, ",");
        push_text(&mut o, "\"page_size\":");
        append_chars(&mut o, i64_decimal(self.page_size).as_slice());
        push_text(&mut o, ",");
        push_text(&mut o, "\"mem_total\":\"");
        push_text(&mut o, self.mem_total.as_str());
        push_text(&mut o, "\"");
        push_text(&mut o, ",");
        push_text(&mut o, "\"uptime\":\"");
        push_text(&mut o, self.uptime.as_str());
        push_text(&mut o, "\"");
        push_text(&mut o, ",");
        push_text(&mut o, "\"loadavg\":\"");
        push_text(&mut o, self.loadavg.as_str());
        push_text(&mut o, "\"");
        push_text(&mut o, "}");
        string_of(o.as_slice())
    }
}

} // verus!

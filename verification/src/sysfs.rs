//! What the agent makes of the kernel files it reads: the possible-CPU list
//! (`/sys/devices/system/cpu/possible`) and the battery capacity
//! (`/sys/class/power_supply/battery/capacity`).
use vstd::prelude::*;
use crate::text::{
    all_digits, all_white_space, chars_of, decimal_value, find_char, index_of, is_digit,
    is_white_space, lemma_index_of_bounds, lemma_index_of_found, lemma_trim_ignores_padding,
    opt_usize, parse_unsigned, parse_unsigned_range, trim, trim_bounds,
};

verus! {

/// The number of CPUs that a possible-CPU list names: for `a-b`, split at the
/// first `-`, the count is `b + 1` (what stands before the `-` is not read);
/// for a single number it is 1; anything else names no count. The text is
/// trimmed first, the part after the `-` is not.
pub open spec fn cpu_count(s: Seq<char>) -> Option<int> {
    let t = trim(s);
    match index_of(t, '-') {
        Some(k) => match parse_unsigned(t.subrange(k + 1, t.len() as int), usize::MAX as int) {
            Some(m) => Some(m + 1),
            None => None,
        },
        None => match parse_unsigned(t, usize::MAX as int) {
            Some(_) => Some(1),
            None => None,
        },
    }
}

/// The count of a possible-CPU list is one past the largest `usize`: the
/// end of the range is `usize::MAX`, and adding one to it overflows.
pub open spec fn cpu_count_overflows(s: Seq<char>) -> bool {
    cpu_count(s) == Some(usize::MAX as int + 1)
}

/// The battery level that the capacity file gives: its trimmed text read as
/// a `u8`, or 0 when that fails or when the file could not be read.
pub open spec fn battery_level(read: Option<Seq<char>>) -> int {
    match read {
        Some(content) => match parse_unsigned(trim(content), 255) {
            Some(v) => v,
            None => 0,
        },
        None => 0,
    }
}

/// The CPU count that the agent reports: the count of the possible-CPU list
/// when the file was read and names one, otherwise the number of CPUs online.
pub open spec fn cpu_total(read: Option<Seq<char>>, online_fallback: int) -> int {
    match read {
        Some(content) => match cpu_count(content) {
            Some(n) => n,
            None => online_fallback,
        },
        None => online_fallback,
    }
}

/// The count that the possible-CPU list `s` names, computed wide enough that
/// one past `usize::MAX` is still a value.
fn cpu_count_wide(s: &str) -> (r: Option<u128>)
    ensures
        match r {
            Some(v) => cpu_count(s@) == Some(v as int),
            None => cpu_count(s@) is None,
        },
{
    let cs = chars_of(s);
    let (a, b) = trim_bounds(&cs);
    let ghost t = cs@.subrange(a as int, b as int);
    match find_char(&cs, a, b, '-') {
        Some(k) => {
            proof {
                lemma_index_of_bounds(t, '-');
            }
            assert(cs@.subrange(a + k + 1, b as int) =~= t.subrange(k + 1, t.len() as int));
            match parse_unsigned_range(&cs, a + k + 1, b, usize::MAX) {
                Some(m) => Some(m as u128 + 1),
                None => None,
            }
        },
        None => match parse_unsigned_range(&cs, a, b, usize::MAX) {
            Some(_) => Some(1),
            None => None,
        },
    }
}

/// The number of CPUs named by the contents of the possible-CPU list: `b + 1`
/// for a range `a-b`, 1 for a single number, `None` when the text is neither.
pub fn parse_cpu_range(s: &str) -> (r: Option<usize>)
    requires
        !cpu_count_overflows(s@),
    ensures
        opt_usize(r) == cpu_count(s@),
{
    match cpu_count_wide(s) {
        Some(v) => Some(v as usize),
        None => None,
    }
}

/// Whether `s` is a range whose end is `usize::MAX`, on which counting the
/// CPUs overflows.
pub fn cpu_range_overflows(s: &str) -> (b: bool)
    ensures
        b == cpu_count_overflows(s@),
{
    match cpu_count_wide(s) {
        Some(v) => v == usize::MAX as u128 + 1,
        None => false,
    }
}

/// The CPU count to report from what reading the possible-CPU list gave
/// (`None` when it could not be read) and the number of CPUs online.
pub fn cpu_total_from(read: Option<&str>, online_fallback: usize) -> (n: usize)
    requires
        read matches Some(content) ==> !cpu_count_overflows(content@),
    ensures
        n == cpu_total(
            match read {
                Some(content) => Some(content@),
                None => None,
            },
            online_fallback as int,
        ),
{
    match read {
        Some(content) => match parse_cpu_range(content) {
            Some(n) => n,
            None => online_fallback,
        },
        None => online_fallback,
    }
}

/// The battery level to report from what reading the capacity file gave
/// (`None` when it could not be read).
pub fn battery_level_from(read: Option<&str>) -> (level: u8)
    ensures
        level == battery_level(
            match read {
                Some(content) => Some(content@),
                None => None,
            },
        ),
{
    match read {
        Some(content) => {
            let cs = chars_of(content);
            let (a, b) = trim_bounds(&cs);
            match parse_unsigned_range(&cs, a, b, 255) {
                Some(v) => v as u8,
                None => 0,
            }
        },
        None => 0,
    }
}

/// The kernel's files end in a newline: white space around what a file holds
/// changes neither the CPU count nor the battery level read from it.
pub proof fn padding_is_ignored(before: Seq<char>, s: Seq<char>, after: Seq<char>)
    requires
        all_white_space(before),
        all_white_space(after),
    ensures
        cpu_count(before + s + after) == cpu_count(s),
        battery_level(Some(before + s + after)) == battery_level(Some(s)),
{
    lemma_trim_ignores_padding(before, s, after);
}

proof fn lemma_trim_unpadded(s: Seq<char>)
    requires
        s.len() > 0,
        !is_white_space(s[0]),
        !is_white_space(s[s.len() - 1]),
    ensures
        trim(s) == s,
{
}

/// A range `a-b` whose end `b` is written in decimal digits counts `b + 1`
/// CPUs, whatever stands before the `-`.
pub proof fn cpu_range_counts_to_its_end(a: Seq<char>, d: Seq<char>)
    requires
        forall|i: int| 0 <= i < a.len() ==> a[i] != '-',
        a.len() > 0 ==> !is_white_space(a[0]),
        d.len() > 0,
        all_digits(d),
        decimal_value(d) <= usize::MAX,
    ensures
        cpu_count(a + seq!['-'] + d) == Some(decimal_value(d) + 1),
{
    let s = a + seq!['-'] + d;
    assert(is_digit(d[d.len() - 1]));
    assert(is_digit(d[0]));
    assert(s[s.len() - 1] == d[d.len() - 1]);
    assert(s[a.len() as int] == '-');
    if a.len() > 0 {
        assert(s[0] == a[0]);
    }
    lemma_trim_unpadded(s);
    assert forall|j: int| 0 <= j < a.len() implies s[j] != '-' by {
        assert(s[j] == a[j]);
    }
    lemma_index_of_found(s, '-', a.len() as int);
    assert(s.subrange(a.len() + 1int, s.len() as int) =~= d);
}

/// A single number written in decimal digits names one CPU.
pub proof fn single_number_counts_one(d: Seq<char>)
    requires
        d.len() > 0,
        all_digits(d),
        decimal_value(d) <= usize::MAX,
    ensures
        cpu_count(d) == Some(1int),
{
    assert(is_digit(d[d.len() - 1]));
    assert(is_digit(d[0]));
    lemma_trim_unpadded(d);
    assert forall|j: int| 0 <= j < d.len() implies d[j] != '-' by {
        assert(is_digit(d[j]));
    }
    crate::text::lemma_index_of_absent(d, '-');
}

/// A capacity written in decimal digits is the battery level when it fits in
/// a byte, and 0 when it does not; an unreadable file reads as 0.
pub proof fn battery_level_is_the_capacity(d: Seq<char>)
    requires
        d.len() > 0,
        all_digits(d),
    ensures
        decimal_value(d) <= 255 ==> battery_level(Some(d)) == decimal_value(d),
        decimal_value(d) > 255 ==> battery_level(Some(d)) == 0,
        battery_level(None) == 0,
{
    assert(is_digit(d[d.len() - 1]));
    assert(is_digit(d[0]));
    lemma_trim_unpadded(d);
}

/// When the possible-CPU list could not be read, or names no count, the
/// number of CPUs online is reported.
pub proof fn cpu_total_falls_back(content: Seq<char>, online: int)
    ensures
        cpu_total(None, online) == online,
        cpu_count(content) is None ==> cpu_total(Some(content), online) == online,
        cpu_count(content) matches Some(n) ==> cpu_total(Some(content), online) == n,
{
}

} // verus!

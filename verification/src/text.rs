//! Reading text the way `str::trim` and `str::parse` of the unsigned integer
//! types read it, over the characters of the text.
use vstd::prelude::*;

verus! {

/// The Unicode White_Space property, which `char::is_whitespace` tests.
pub open spec fn is_white_space(c: char) -> bool {
    let u = c as u32;
    ||| u == 0x20
    ||| (0x09 <= u && u <= 0x0d)
    ||| u == 0x85
    ||| u == 0xa0
    ||| u == 0x1680
    ||| (0x2000 <= u && u <= 0x200a)
    ||| u == 0x2028
    ||| u == 0x2029
    ||| u == 0x202f
    ||| u == 0x205f
    ||| u == 0x3000
}

/// `s` without its leading white space.
pub open spec fn trim_start(s: Seq<char>) -> Seq<char>
    decreases s.len(),
{
    if s.len() > 0 && is_white_space(s[0]) {
        trim_start(s.drop_first())
    } else {
        s
    }
}

/// `s` without its trailing white space.
pub open spec fn trim_end(s: Seq<char>) -> Seq<char>
    decreases s.len(),
{
    if s.len() > 0 && is_white_space(s.last()) {
        trim_end(s.drop_last())
    } else {
        s
    }
}

/// `s` without leading and trailing white space, as `str::trim` gives it.
pub open spec fn trim(s: Seq<char>) -> Seq<char> {
    trim_end(trim_start(s))
}

/// An ASCII decimal digit.
pub open spec fn is_digit(c: char) -> bool {
    48 <= (c as u32) && (c as u32) <= 57
}

pub open spec fn all_digits(s: Seq<char>) -> bool {
    forall|i: int| 0 <= i < s.len() ==> #[trigger] is_digit(s[i])
}

pub open spec fn digit_value(c: char) -> int {
    (c as u32) - 48
}

/// The number that the decimal digits `s` write, most significant first.
pub open spec fn decimal_value(s: Seq<char>) -> int
    decreases s.len(),
{
    if s.len() == 0 {
        0
    } else {
        decimal_value(s.drop_last()) * 10 + digit_value(s.last())
    }
}

/// The digits of an unsigned number as written: one leading `+` is allowed.
pub open spec fn unsigned_digits(s: Seq<char>) -> Seq<char> {
    if s.len() > 0 && s[0] == '+' {
        s.drop_first()
    } else {
        s
    }
}

/// What `str::parse` gives for an unsigned integer type whose largest value is
/// `max`: `None` for an empty text, a character other than a digit (after one
/// leading `+`), or a value above `max`.
pub open spec fn parse_unsigned(s: Seq<char>, max: int) -> Option<int> {
    let d = unsigned_digits(s);
    if d.len() > 0 && all_digits(d) && decimal_value(d) <= max {
        Some(decimal_value(d))
    } else {
        None
    }
}

/// The first position of `c` in `s`.
pub open spec fn index_of(s: Seq<char>, c: char) -> Option<int>
    decreases s.len(),
{
    if s.len() == 0 {
        None
    } else if s[0] == c {
        Some(0)
    } else {
        match index_of(s.drop_first(), c) {
            Some(k) => Some(k + 1),
            None => None,
        }
    }
}

/// The value of a spec `Option` of a machine integer, as an `Option<int>`.
pub open spec fn opt_usize(o: Option<usize>) -> Option<int> {
    match o {
        Some(v) => Some(v as int),
        None => None,
    }
}

proof fn lemma_decimal_value_nonneg(d: Seq<char>)
    requires
        all_digits(d),
    ensures
        decimal_value(d) >= 0,
    decreases d.len(),
{
    if d.len() > 0 {
        assert(is_digit(d[d.len() - 1]));
        lemma_decimal_value_nonneg(d.drop_last());
    }
}

/// A prefix of a run of digits never writes a larger number than the run.
proof fn lemma_decimal_value_prefix(d: Seq<char>, k: int)
    requires
        all_digits(d),
        0 <= k <= d.len(),
    ensures
        decimal_value(d.subrange(0, k)) <= decimal_value(d),
    decreases d.len(),
{
    if k < d.len() {
        let p = d.drop_last();
        assert(p.subrange(0, k) =~= d.subrange(0, k));
        assert(is_digit(d[d.len() - 1]));
        lemma_decimal_value_prefix(p, k);
        lemma_decimal_value_nonneg(p);
    } else {
        assert(d.subrange(0, k) =~= d);
    }
}

/// Tests `char::is_whitespace`.
pub fn is_white_space_char(c: char) -> (b: bool)
    ensures
        b == is_white_space(c),
{
    let u = c as u32;
    u == 0x20 || (0x09 <= u && u <= 0x0d) || u == 0x85 || u == 0xa0 || u == 0x1680 || (0x2000 <= u
        && u <= 0x200a) || u == 0x2028 || u == 0x2029 || u == 0x202f || u == 0x205f || u == 0x3000
}

/// The characters of `s`, in order, in a vector that can be indexed in
/// constant time.
pub fn chars_of(s: &str) -> (v: Vec<char>)
    ensures
        v@ == s@,
{
    let mut v: Vec<char> = Vec::new();
    for c in it: s.chars()
        invariant
            v@ == it.seq().take(it.index() as int),
    {
        v.push(c);
    }
    v
}

/// The bounds of `cs` once leading and trailing white space is cut off.
pub fn trim_bounds(cs: &Vec<char>) -> (r: (usize, usize))
    ensures
        r.0 <= r.1 <= cs.len(),
        cs@.subrange(r.0 as int, r.1 as int) == trim(cs@),
{
    let n = cs.len();
    let mut i: usize = 0;
    assert(cs@.subrange(0, n as int) =~= cs@);
    while i < n && is_white_space_char(cs[i])
        invariant
            n == cs.len(),
            i <= n,
            trim_start(cs@) == trim_start(cs@.subrange(i as int, n as int)),
        decreases n - i,
    {
        assert(cs@.subrange(i as int, n as int).drop_first() =~= cs@.subrange(
            i + 1,
            n as int,
        ));
        i = i + 1;
    }
    let ghost rest = cs@.subrange(i as int, n as int);
    assert(trim_start(rest) == rest);
    let mut j: usize = n;
    while j > i && is_white_space_char(cs[j - 1])
        invariant
            n == cs.len(),
            i <= j <= n,
            trim_end(rest) == trim_end(cs@.subrange(i as int, j as int)),
            rest == cs@.subrange(i as int, n as int),
        decreases j,
    {
        assert(cs@.subrange(i as int, j as int).drop_last() =~= cs@.subrange(
            i as int,
            j - 1,
        ));
        j = j - 1;
    }
    (i, j)
}

/// Reads `cs[from..to]` as `str::parse` reads an unsigned integer whose
/// largest value is `max`.
pub fn parse_unsigned_range(cs: &Vec<char>, from: usize, to: usize, max: usize) -> (r: Option<
    usize,
>)
    requires
        from <= to <= cs.len(),
    ensures
        opt_usize(r) == parse_unsigned(cs@.subrange(from as int, to as int), max as int),
{
    let ghost s = cs@.subrange(from as int, to as int);
    let mut k = from;
    if k < to && cs[k] == '+' {
        k = k + 1;
    }
    let start = k;
    let ghost d = cs@.subrange(start as int, to as int);
    assert(unsigned_digits(s) =~= d);
    if start == to {
        return None;
    }
    let mut v: usize = 0;
    assert(cs@.subrange(start as int, start as int) =~= Seq::<char>::empty());
    while k < to
        invariant
            from <= start <= k <= to <= cs.len(),
            d == cs@.subrange(start as int, to as int),
            s == cs@.subrange(from as int, to as int),
            unsigned_digits(s) == d,
            all_digits(cs@.subrange(start as int, k as int)),
            v as int == decimal_value(cs@.subrange(start as int, k as int)),
            v <= max,
        decreases to - k,
    {
        let c = cs[k];
        let ghost pre = cs@.subrange(start as int, k as int);
        let ghost next = cs@.subrange(start as int, k + 1);
        assert(next.drop_last() =~= pre);
        assert(d[k - start] == c);
        if !((c as u32) >= 48 && (c as u32) <= 57) {
            assert(!is_digit(d[k - start]));
            return None;
        }
        assert(all_digits(next)) by {
            assert forall|i: int| 0 <= i < next.len() implies #[trigger] is_digit(next[i]) by {
                if i < next.len() - 1 {
                    assert(next[i] == pre[i]);
                }
            }
        }
        let dv = ((c as u32) - 48) as usize;
        let w: u128 = (v as u128) * 10 + (dv as u128);
        if w > max as u128 {
            proof {
                assert(decimal_value(next) == w);
                if all_digits(d) {
                    assert(next =~= d.subrange(0, (k + 1 - start) as int));
                    lemma_decimal_value_prefix(d, (k + 1 - start) as int);
                }
            }
            return None;
        }
        v = w as usize;
        k = k + 1;
    }
    assert(cs@.subrange(start as int, k as int) =~= d);
    Some(v)
}

pub proof fn lemma_index_of_bounds(s: Seq<char>, c: char)
    ensures
        index_of(s, c) matches Some(k) ==> 0 <= k < s.len() && s[k] == c,
    decreases s.len(),
{
    if s.len() > 0 && s[0] != c {
        lemma_index_of_bounds(s.drop_first(), c);
    }
}

pub proof fn lemma_index_of_found(s: Seq<char>, c: char, i: int)
    requires
        0 <= i < s.len(),
        s[i] == c,
        forall|j: int| 0 <= j < i ==> s[j] != c,
    ensures
        index_of(s, c) == Some(i),
    decreases i,
{
    if i > 0 {
        lemma_index_of_found(s.drop_first(), c, i - 1);
    }
}

pub proof fn lemma_index_of_absent(s: Seq<char>, c: char)
    requires
        forall|j: int| 0 <= j < s.len() ==> s[j] != c,
    ensures
        index_of(s, c) is None,
    decreases s.len(),
{
    if s.len() > 0 {
        lemma_index_of_absent(s.drop_first(), c);
    }
}

/// The first position of `c` in `cs[from..to]`, counted from `from`.
pub fn find_char(cs: &Vec<char>, from: usize, to: usize, c: char) -> (r: Option<usize>)
    requires
        from <= to <= cs.len(),
    ensures
        opt_usize(r) == index_of(cs@.subrange(from as int, to as int), c),
{
    let ghost s = cs@.subrange(from as int, to as int);
    let mut i = from;
    while i < to
        invariant
            from <= i <= to <= cs.len(),
            s == cs@.subrange(from as int, to as int),
            forall|j: int| 0 <= j < i - from ==> s[j] != c,
        decreases to - i,
    {
        if cs[i] == c {
            proof {
                lemma_index_of_found(s, c, i - from);
            }
            return Some(i - from);
        }
        i = i + 1;
    }
    proof {
        lemma_index_of_absent(s, c);
    }
    None
}

/// Every character of `s` is white space.
pub open spec fn all_white_space(s: Seq<char>) -> bool {
    forall|i: int| 0 <= i < s.len() ==> #[trigger] is_white_space(s[i])
}

proof fn lemma_trim_start_of_white_space(q: Seq<char>)
    requires
        all_white_space(q),
    ensures
        trim_start(q) == Seq::<char>::empty(),
    decreases q.len(),
{
    if q.len() > 0 {
        assert(is_white_space(q[0]));
        lemma_trim_start_of_white_space(q.drop_first());
    } else {
        assert(q =~= Seq::<char>::empty());
    }
}

proof fn lemma_trim_start_after_white_space(p: Seq<char>, x: Seq<char>)
    requires
        all_white_space(p),
    ensures
        trim_start(p + x) == trim_start(x),
    decreases p.len(),
{
    if p.len() > 0 {
        assert(is_white_space(p[0]));
        assert((p + x)[0] == p[0]);
        assert((p + x).drop_first() =~= p.drop_first() + x);
        lemma_trim_start_after_white_space(p.drop_first(), x);
    } else {
        assert(p + x =~= x);
    }
}

proof fn lemma_trim_end_before_white_space(x: Seq<char>, q: Seq<char>)
    requires
        all_white_space(q),
    ensures
        trim_end(x + q) == trim_end(x),
    decreases q.len(),
{
    if q.len() > 0 {
        assert(is_white_space(q[q.len() - 1]));
        assert((x + q).last() == q.last());
        assert((x + q).drop_last() =~= x + q.drop_last());
        lemma_trim_end_before_white_space(x, q.drop_last());
    } else {
        assert(x + q =~= x);
    }
}

proof fn lemma_trim_before_white_space(s: Seq<char>, q: Seq<char>)
    requires
        all_white_space(q),
    ensures
        trim(s + q) == trim(s),
    decreases s.len(),
{
    if s.len() == 0 {
        assert(s + q =~= q);
        lemma_trim_start_of_white_space(q);
    } else if is_white_space(s[0]) {
        assert((s + q)[0] == s[0]);
        assert((s + q).drop_first() =~= s.drop_first() + q);
        lemma_trim_before_white_space(s.drop_first(), q);
    } else {
        assert((s + q)[0] == s[0]);
        lemma_trim_end_before_white_space(s, q);
    }
}

/// White space around a text does not change what trimming it gives.
pub proof fn lemma_trim_ignores_padding(before: Seq<char>, s: Seq<char>, after: Seq<char>)
    requires
        all_white_space(before),
        all_white_space(after),
    ensures
        trim(before + s + after) == trim(s),
{
    lemma_trim_before_white_space(before + s, after);
    lemma_trim_start_after_white_space(before, s);
}

/// Decimal notation: no digits write 0, and writing one more digit `c` after
/// the digits `d` multiplies their number by ten and adds the digit.
pub proof fn decimal_value_is_positional(d: Seq<char>, c: char)
    requires
        48 <= c as u32 <= 57,
    ensures
        decimal_value(Seq::<char>::empty()) == 0,
        decimal_value(d.push(c)) == 10 * decimal_value(d) + (c as u32 - 48),
{
    assert(d.push(c).drop_last() =~= d);
}

} // verus!

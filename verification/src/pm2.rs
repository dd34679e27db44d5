//! PM2: which `pm2` binary the agent runs, and what it reads of the process
//! list that `pm2 jlist` prints.
use vstd::prelude::*;
use vstd::utf8::{decode_utf8, valid_utf8};
use crate::json::{
    as_number, as_text, as_u64, field, get_field, json_document, number_of, parse_json,
    text_of, u64_of, JsonNumber, JsonValue,
};
use crate::text::{chars_of, opt_usize};

verus! {

/// Where Termux installs its packages.
pub const TERMUX_PREFIX: &'static str = "/data/data/com.termux/files/usr";

/// The home directory of the Termux user.
pub const TERMUX_HOME: &'static str = "/data/data/com.termux/files/home";

/// Where the `pm2` that the agent runs was found.
#[derive(Clone, Copy, Debug, PartialEq, Eq, Structural)]
pub enum Pm2Source {
    /// Termux's own package.
    Termux,
    /// A Node.js version installed with nvm under the Termux home.
    TermuxNvm,
    /// Whatever `pm2` the `PATH` finds.
    SystemPath,
}

/// How the agent runs `pm2`: the binary, and the `PM2_HOME` to run it with,
/// if any.
pub struct Pm2Config {
    pub bin: String,
    pub home: Option<String>,
    pub source: Pm2Source,
}

/// A process that PM2 manages, as the agent reports it.
pub struct Pm2Process {
    pub name: String,
    pub status: String,
    /// The `monit.cpu` number as PM2 printed it; `None` when there is none,
    /// which is reported as a usage of 0.
    pub cpu_percent: Option<JsonNumber>,
    pub memory_bytes: u64,
    pub restarts: u32,
}

/// Why the output of `pm2 jlist` gave no process list.
#[derive(Debug, PartialEq, Eq, Structural)]
pub enum JlistError {
    /// The JSON document is not an array.
    NotArray,
}

pub open spec fn unknown() -> Seq<char> {
    seq!['u', 'n', 'k', 'n', 'o', 'w', 'n']
}

pub open spec fn key_name() -> Seq<char> {
    seq!['n', 'a', 'm', 'e']
}

pub open spec fn key_pm2_env() -> Seq<char> {
    seq!['p', 'm', '2', '_', 'e', 'n', 'v']
}

pub open spec fn key_status() -> Seq<char> {
    seq!['s', 't', 'a', 't', 'u', 's']
}

pub open spec fn key_monit() -> Seq<char> {
    seq!['m', 'o', 'n', 'i', 't']
}

pub open spec fn key_cpu() -> Seq<char> {
    seq!['c', 'p', 'u']
}

pub open spec fn key_memory() -> Seq<char> {
    seq!['m', 'e', 'm', 'o', 'r', 'y']
}

pub open spec fn key_restart_time() -> Seq<char> {
    seq!['r', 'e', 's', 't', 'a', 'r', 't', '_', 't', 'i', 'm', 'e']
}

pub open spec fn text_or_unknown(t: Option<Seq<char>>) -> Seq<char> {
    match t {
        Some(s) => s,
        None => unknown(),
    }
}

pub open spec fn u64_or_zero(n: Option<u64>) -> u64 {
    match n {
        Some(v) => v,
        None => 0,
    }
}

/// `p` is what the agent reads of the process list entry `entry`: its `name`,
/// its `pm2_env.status` (each `"unknown"` when not a string), its
/// `monit.cpu`, its `monit.memory` (0 when not a non-negative integer) and its
/// `pm2_env.restart_time` (likewise 0), cut to its low 32 bits.
pub open spec fn describes(p: Pm2Process, entry: JsonValue) -> bool {
    let e = Some(entry);
    let env = field(e, key_pm2_env());
    let monit = field(e, key_monit());
    &&& p.name@ == text_or_unknown(as_text(field(e, key_name())))
    &&& p.status@ == text_or_unknown(as_text(field(env, key_status())))
    &&& p.cpu_percent == as_number(field(monit, key_cpu()))
    &&& p.memory_bytes == u64_or_zero(as_u64(field(monit, key_memory())))
    &&& p.restarts as int == u64_or_zero(as_u64(field(env, key_restart_time()))) % 0x1_0000_0000
}

/// The process list that the JSON document `doc` gives: one process per
/// element, in order, when `doc` is an array.
pub open spec fn jlist_describes(doc: JsonValue, r: Result<Vec<Pm2Process>, JlistError>) -> bool {
    match doc {
        JsonValue::Array(items) => match r {
            Ok(ps) => ps@.len() == items@.len() && forall|i: int|
                0 <= i < items@.len() ==> #[trigger] describes(ps@[i], items@[i]),
            Err(_) => false,
        },
        _ => r == Err::<Vec<Pm2Process>, JlistError>(JlistError::NotArray),
    }
}

fn text_or_unknown_of(t: Option<String>) -> (s: String)
    ensures
        s@ == text_or_unknown(
            match t {
                Some(x) => Some(x@),
                None => None,
            },
        ),
{
    match t {
        Some(x) => x,
        None => {
            let s = String::from_str("unknown");
            proof {
                reveal_strlit("unknown");
                assert(s@ =~= unknown());
            }
            s
        },
    }
}

/// Termux's `pm2` binary.
pub open spec fn termux_pm2_bin() -> Seq<char> {
    TERMUX_PREFIX@ + "/bin/pm2"@
}

/// The `PM2_HOME` of a `pm2` installed under Termux.
pub open spec fn termux_pm2_home() -> Seq<char> {
    TERMUX_HOME@ + "/.pm2"@
}

/// The directory that holds one directory per Node.js version of nvm.
pub open spec fn nvm_versions_dir() -> Seq<char> {
    TERMUX_HOME@ + "/.nvm/versions/node"@
}

/// The first candidate path that exists.
pub open spec fn first_existing(candidates: Seq<(String, bool)>) -> Option<Seq<char>>
    decreases candidates.len(),
{
    if candidates.len() == 0 {
        None
    } else if candidates[0].1 {
        Some(candidates[0].0@)
    } else {
        first_existing(candidates.drop_first())
    }
}

/// The binary, `PM2_HOME` and source that the agent picks: Termux's `pm2`
/// when it exists, else the first nvm `pm2` that exists (both with the
/// Termux `PM2_HOME`), else `pm2` from the `PATH` with no `PM2_HOME`.
pub open spec fn chosen_pm2(
    termux_pm2_exists: bool,
    nvm_candidates: Seq<(String, bool)>,
) -> (Seq<char>, Option<Seq<char>>, Pm2Source) {
    if termux_pm2_exists {
        (termux_pm2_bin(), Some(termux_pm2_home()), Pm2Source::Termux)
    } else {
        match first_existing(nvm_candidates) {
            Some(p) => (p, Some(termux_pm2_home()), Pm2Source::TermuxNvm),
            None => ("pm2"@, None, Pm2Source::SystemPath),
        }
    }
}

pub open spec fn config_view(c: Pm2Config) -> (Seq<char>, Option<Seq<char>>, Pm2Source) {
    (
        c.bin@,
        match c.home {
            Some(h) => Some(h@),
            None => None,
        },
        c.source,
    )
}

/// The path of Termux's `pm2` binary.
pub fn termux_pm2_bin_path() -> (s: String)
    ensures
        s@ == termux_pm2_bin(),
{
    String::from_str(TERMUX_PREFIX).concat("/bin/pm2")
}

/// The `PM2_HOME` of a `pm2` installed under Termux.
pub fn termux_pm2_home_path() -> (s: String)
    ensures
        s@ == termux_pm2_home(),
{
    String::from_str(TERMUX_HOME).concat("/.pm2")
}

/// The directory that holds one directory per Node.js version of nvm.
pub fn nvm_versions_dir_path() -> (s: String)
    ensures
        s@ == nvm_versions_dir(),
{
    String::from_str(TERMUX_HOME).concat("/.nvm/versions/node")
}

/// Picks how to run `pm2` from whether Termux's `pm2` exists and from the
/// `bin/pm2` path of each nvm Node.js version, in the order the directory
/// listing gave them, each with whether it exists.
pub fn choose_pm2_config(termux_pm2_exists: bool, nvm_candidates: &[(String, bool)]) -> (c:
    Pm2Config)
    ensures
        config_view(c) == chosen_pm2(termux_pm2_exists, nvm_candidates@),
{
    if termux_pm2_exists {
        return Pm2Config {
            bin: termux_pm2_bin_path(),
            home: Some(termux_pm2_home_path()),
            source: Pm2Source::Termux,
        };
    }
    let n = nvm_candidates.len();
    let mut i: usize = 0;
    assert(nvm_candidates@.subrange(0, n as int) =~= nvm_candidates@);
    while i < n
        invariant
            n == nvm_candidates@.len(),
            i <= n,
            first_existing(nvm_candidates@) == first_existing(
                nvm_candidates@.subrange(i as int, n as int),
            ),
            !termux_pm2_exists,
        decreases n - i,
    {
        let cand = &nvm_candidates[i];
        assert(nvm_candidates@.subrange(i as int, n as int)[0] == *cand);
        if cand.1 {
            return Pm2Config {
                bin: cand.0.clone(),
                home: Some(termux_pm2_home_path()),
                source: Pm2Source::TermuxNvm,
            };
        }
        assert(nvm_candidates@.subrange(i as int, n as int).drop_first()
            =~= nvm_candidates@.subrange(i + 1, n as int));
        i = i + 1;
    }
    Pm2Config { bin: String::from_str("pm2"), home: None, source: Pm2Source::SystemPath }
}

/// What the agent reads of one entry of the process list.
pub fn process_from_entry(entry: &JsonValue) -> (p: Pm2Process)
    ensures
        describes(p, *entry),
{
    let k_name = String::from_str("name");
    let k_env = String::from_str("pm2_env");
    let k_status = String::from_str("status");
    let k_monit = String::from_str("monit");
    let k_cpu = String::from_str("cpu");
    let k_memory = String::from_str("memory");
    let k_restart = String::from_str("restart_time");
    proof {
        reveal_strlit("name");
        reveal_strlit("pm2_env");
        reveal_strlit("status");
        reveal_strlit("monit");
        reveal_strlit("cpu");
        reveal_strlit("memory");
        reveal_strlit("restart_time");
        assert(k_name@ =~= key_name());
        assert(k_env@ =~= key_pm2_env());
        assert(k_status@ =~= key_status());
        assert(k_monit@ =~= key_monit());
        assert(k_cpu@ =~= key_cpu());
        assert(k_memory@ =~= key_memory());
        assert(k_restart@ =~= key_restart_time());
    }
    let e = Some(entry);
    let env = get_field(e, &k_env);
    let monit = get_field(e, &k_monit);
    let name = text_or_unknown_of(text_of(get_field(e, &k_name)));
    let status = text_or_unknown_of(text_of(get_field(env, &k_status)));
    let cpu_percent = number_of(get_field(monit, &k_cpu));
    let memory_bytes = match u64_of(get_field(monit, &k_memory)) {
        Some(v) => v,
        None => 0,
    };
    let restart_time = match u64_of(get_field(env, &k_restart)) {
        Some(v) => v,
        None => 0,
    };
    let restarts = restart_time as u32;
    assert(restarts == restart_time % 0x1_0000_0000) by (bit_vector)
        requires
            restarts == restart_time as u32,
    ;
    Pm2Process { name, status, cpu_percent, memory_bytes, restarts }
}

/// The process list that the JSON document printed by `pm2 jlist` gives.
pub fn processes_from_jlist(doc: &JsonValue) -> (r: Result<Vec<Pm2Process>, JlistError>)
    ensures
        jlist_describes(*doc, r),
{
    match doc {
        JsonValue::Array(items) => {
            let n = items.len();
            let mut ps: Vec<Pm2Process> = Vec::new();
            let mut i: usize = 0;
            while i < n
                invariant
                    n == items@.len(),
                    i <= n,
                    ps@.len() == i,
                    forall|j: int| 0 <= j < i ==> #[trigger] describes(ps@[j], items@[j]),
                decreases n - i,
            {
                let p = process_from_entry(&items[i]);
                ps.push(p);
                i = i + 1;
            }
            Ok(ps)
        },
        _ => Err(JlistError::NotArray),
    }
}

/// What `String::from_utf8_lossy` makes of `bytes`: the text they encode in
/// UTF-8, each invalid sequence replaced by U+FFFD.
pub uninterp spec fn lossy_utf8(bytes: Seq<u8>) -> Seq<char>;

/// `String::from_utf8_lossy`; on valid UTF-8 it gives the text encoded.
#[verifier::external_body]
fn utf8_lossy(bytes: &[u8]) -> (s: String)
    ensures
        s@ == lossy_utf8(bytes@),
        valid_utf8(bytes@) ==> s@ == decode_utf8(bytes@),
{
    String::from_utf8_lossy(bytes).into_owned()
}

/// The escape character that starts a terminal control sequence.
pub open spec fn is_escape(c: char) -> bool {
    c as u32 == 0x1b
}

/// A parameter or intermediate character of a control sequence.
pub open spec fn is_csi_param(c: char) -> bool {
    0x20 <= c as u32 && c as u32 <= 0x3f
}

/// The character that ends a control sequence.
pub open spec fn is_csi_final(c: char) -> bool {
    0x40 <= c as u32 && c as u32 <= 0x7e
}

/// The number of parameter and intermediate characters at the start of `t`.
pub open spec fn csi_param_len(t: Seq<char>) -> int
    decreases t.len(),
{
    if t.len() > 0 && is_csi_param(t[0]) {
        1 + csi_param_len(t.drop_first())
    } else {
        0
    }
}

pub proof fn lemma_csi_param_len_bounds(t: Seq<char>)
    ensures
        0 <= csi_param_len(t) <= t.len(),
    decreases t.len(),
{
    if t.len() > 0 && is_csi_param(t[0]) {
        lemma_csi_param_len_bounds(t.drop_first());
    }
}

/// `s` starts with `ESC [`, the start of a control sequence (as terminal
/// colour codes are written).
pub open spec fn starts_csi(s: Seq<char>) -> bool {
    s.len() >= 2 && is_escape(s[0]) && s[1] == '['
}

/// The length of the control sequence at the start of `s`: `ESC [`, its
/// parameters, and its final character when there is one.
pub open spec fn csi_len(s: Seq<char>) -> int {
    let p = csi_param_len(s.subrange(2, s.len() as int));
    if 2 + p < s.len() && is_csi_final(s[2 + p]) {
        3 + p
    } else {
        2 + p
    }
}

/// The position in `s` of the first `[` that does not belong to a control
/// sequence.
pub open spec fn array_offset(s: Seq<char>) -> Option<int>
    decreases s.len(),
{
    if s.len() == 0 {
        None
    } else if starts_csi(s) {
        proof {
            lemma_csi_param_len_bounds(s.subrange(2, s.len() as int));
        }
        let k = csi_len(s);
        match array_offset(s.subrange(k, s.len() as int)) {
            Some(o) => Some(o + k),
            None => None,
        }
    } else if s[0] == '[' {
        Some(0)
    } else {
        match array_offset(s.drop_first()) {
            Some(o) => Some(o + 1),
            None => None,
        }
    }
}

/// `text` from the start of its JSON array on, or all of it when no array
/// starts in it. PM2 may print warnings, coloured with terminal control
/// sequences, before the array: the array starts at the first `[` that is not
/// part of such a sequence. A `[` in the text of a warning still counts.
pub open spec fn from_array_start(text: Seq<char>) -> Seq<char> {
    match array_offset(text) {
        Some(k) => text.subrange(k, text.len() as int),
        None => text,
    }
}

pub open spec fn shifted(o: Option<int>, by: int) -> Option<int> {
    match o {
        Some(x) => Some(x + by),
        None => None,
    }
}

/// The position in `cs` of the first `[` that does not belong to a control
/// sequence.
fn array_start_index(cs: &Vec<char>) -> (r: Option<usize>)
    ensures
        opt_usize(r) == array_offset(cs@),
{
    let n = cs.len();
    let mut i: usize = 0;
    assert(cs@.subrange(0, n as int) =~= cs@);
    while i < n
        invariant
            n == cs@.len(),
            i <= n,
            array_offset(cs@) == shifted(array_offset(cs@.subrange(i as int, n as int)), i as int),
        decreases n - i,
    {
        let ghost t = cs@.subrange(i as int, n as int);
        if i + 1 < n && (cs[i] as u32) == 0x1b && cs[i + 1] == '[' {
            assert(starts_csi(t));
            proof {
                lemma_csi_param_len_bounds(t.subrange(2, t.len() as int));
            }
            assert(t.subrange(2, t.len() as int) =~= cs@.subrange(i + 2, n as int));
            let mut j = i + 2;
            assert(cs@.subrange(j as int, n as int) =~= cs@.subrange(i + 2, n as int));
            while j < n && (cs[j] as u32) >= 0x20 && (cs[j] as u32) <= 0x3f
                invariant
                    n == cs@.len(),
                    i + 2 <= j <= n,
                    array_offset(cs@) == shifted(
                        array_offset(cs@.subrange(i as int, n as int)),
                        i as int,
                    ),
                    csi_param_len(cs@.subrange(i + 2, n as int)) == (j - (i + 2)) + csi_param_len(
                        cs@.subrange(j as int, n as int),
                    ),
                decreases n - j,
            {
                assert(cs@.subrange(j as int, n as int).drop_first() =~= cs@.subrange(
                    j + 1,
                    n as int,
                ));
                j = j + 1;
            }
            assert(csi_param_len(cs@.subrange(j as int, n as int)) == 0);
            if j < n && (cs[j] as u32) >= 0x40 && (cs[j] as u32) <= 0x7e {
                j = j + 1;
            }
            assert(j - i == csi_len(t));
            assert(t.subrange(j - i, t.len() as int) =~= cs@.subrange(j as int, n as int));
            i = j;
        } else if cs[i] == '[' {
            return Some(i);
        } else {
            assert(t.drop_first() =~= cs@.subrange(i + 1, n as int));
            i = i + 1;
        }
    }
    None
}

/// The JSON text in the output of `pm2 jlist`: `None` when the command failed
/// (which the agent reads as an empty process list), otherwise its standard
/// output, decoded as `String::from_utf8_lossy` decodes it, from the start of
/// its JSON array on.
pub open spec fn jlist_text(succeeded: bool, stdout: Seq<u8>) -> Option<Seq<char>> {
    if succeeded {
        Some(from_array_start(lossy_utf8(stdout)))
    } else {
        None
    }
}

/// `text` from the start of its JSON array on, or all of it when no array
/// starts in it.
pub fn json_array_start(text: &str) -> (r: String)
    ensures
        r@ == from_array_start(text@),
{
    let cs = chars_of(text);
    let n = cs.len();
    match array_start_index(&cs) {
        Some(k) => {
            proof {
                lemma_array_offset_bounds(text@);
            }
            String::from_str(text.substring_char(k, n))
        },
        None => String::from_str(text),
    }
}

/// The JSON text to parse from what `pm2 jlist` gave: whether it exited
/// successfully and its standard output.
pub fn jlist_payload(succeeded: bool, stdout: &[u8]) -> (r: Option<String>)
    ensures
        match r {
            Some(s) => jlist_text(succeeded, stdout@) == Some(s@),
            None => jlist_text(succeeded, stdout@) is None,
        },
{
    if !succeeded {
        return None;
    }
    let text = utf8_lossy(stdout);
    Some(json_array_start(text.as_str()))
}

proof fn lemma_array_offset_bounds(s: Seq<char>)
    ensures
        array_offset(s) matches Some(k) ==> 0 <= k < s.len(),
    decreases s.len(),
{
    if s.len() > 0 {
        if starts_csi(s) {
            lemma_csi_param_len_bounds(s.subrange(2, s.len() as int));
            lemma_array_offset_bounds(s.subrange(csi_len(s), s.len() as int));
        } else if s[0] != '[' {
            lemma_array_offset_bounds(s.drop_first());
        }
    }
}

/// Text that PM2 may print before the JSON array and that the search for the
/// array passes over: characters other than `[` and the escape character,
/// and complete control sequences (`ESC [`, parameters, final character).
pub open spec fn is_skipped_text(p: Seq<char>) -> bool
    decreases p.len(),
{
    if p.len() == 0 {
        true
    } else if starts_csi(p) {
        proof {
            lemma_csi_param_len_bounds(p.subrange(2, p.len() as int));
        }
        let q = csi_param_len(p.subrange(2, p.len() as int));
        &&& 2 + q < p.len()
        &&& is_csi_final(p[2 + q])
        &&& is_skipped_text(p.subrange(3 + q, p.len() as int))
    } else {
        &&& p[0] != '['
        &&& !is_escape(p[0])
        &&& is_skipped_text(p.drop_first())
    }
}

proof fn lemma_csi_param_len_append(a: Seq<char>, b: Seq<char>)
    requires
        csi_param_len(a) < a.len(),
    ensures
        csi_param_len(a + b) == csi_param_len(a),
    decreases a.len(),
{
    assert((a + b)[0] == a[0]);
    if is_csi_param(a[0]) {
        assert((a + b).drop_first() =~= a.drop_first() + b);
        lemma_csi_param_len_append(a.drop_first(), b);
    }
}

proof fn lemma_skipped_prefix_offset(prefix: Seq<char>, rest: Seq<char>)
    requires
        is_skipped_text(prefix),
        rest.len() > 0,
        rest[0] == '[',
    ensures
        array_offset(prefix + rest) == Some(prefix.len() as int),
    decreases prefix.len(),
{
    let s = prefix + rest;
    if prefix.len() == 0 {
        assert(s =~= rest);
    } else if starts_csi(prefix) {
        let a = prefix.subrange(2, prefix.len() as int);
        lemma_csi_param_len_bounds(a);
        let q = csi_param_len(a);
        assert(a[q] == prefix[2 + q]);
        assert(!is_csi_param(a[q]));
        lemma_csi_param_len_bounds(a.subrange(0, 0));
        assert(csi_param_len(a) < a.len());
        assert(s.subrange(2, s.len() as int) =~= a + rest);
        lemma_csi_param_len_append(a, rest);
        assert(s[0] == prefix[0] && s[1] == prefix[1]);
        assert(s[2 + q] == prefix[2 + q]);
        assert(csi_len(s) == 3 + q);
        assert(s.subrange(3 + q, s.len() as int) =~= prefix.subrange(3 + q, prefix.len() as int)
            + rest);
        lemma_skipped_prefix_offset(prefix.subrange(3 + q, prefix.len() as int), rest);
    } else {
        assert(s[0] == prefix[0]);
        assert(s.drop_first() =~= prefix.drop_first() + rest);
        lemma_skipped_prefix_offset(prefix.drop_first(), rest);
    }
}

/// Text that the search passes over before a JSON array (warnings without
/// `[`, coloured or not) is skipped: the JSON text is the array and what
/// follows it.
pub proof fn array_start_skips_prefix(prefix: Seq<char>, rest: Seq<char>)
    requires
        is_skipped_text(prefix),
        rest.len() > 0,
        rest[0] == '[',
    ensures
        from_array_start(prefix + rest) == rest,
{
    lemma_skipped_prefix_offset(prefix, rest);
    assert((prefix + rest).subrange(prefix.len() as int, (prefix + rest).len() as int) =~= rest);
}

/// What the agent makes of one run of `pm2 jlist`.
pub enum JlistOutcome {
    /// The command exited with a failure.
    CommandFailed,
    /// Its output holds no JSON document where the array should start.
    InvalidJson,
    /// The document is not an array.
    NotArray,
    /// The processes that the array lists.
    Processes(Vec<Pm2Process>),
}

/// The outcome for a run of `pm2 jlist` that exited successfully or not
/// (`succeeded`) and printed `stdout`: its output from the start of the JSON
/// array on is parsed as JSON and each element of the array read as a process.
pub open spec fn jlist_outcome_is(succeeded: bool, stdout: Seq<u8>, r: JlistOutcome) -> bool {
    match jlist_text(succeeded, stdout) {
        None => r is CommandFailed,
        Some(text) => match json_document(text) {
            None => r is InvalidJson,
            Some(doc) => match r {
                JlistOutcome::Processes(ps) => jlist_describes(doc, Ok(ps)),
                JlistOutcome::NotArray => jlist_describes(doc, Err(JlistError::NotArray)),
                _ => false,
            },
        },
    }
}

/// Reads the output of one run of `pm2 jlist`.
pub fn processes_from_output(succeeded: bool, stdout: &[u8]) -> (r: JlistOutcome)
    ensures
        jlist_outcome_is(succeeded, stdout@, r),
{
    let text = match jlist_payload(succeeded, stdout) {
        Some(text) => text,
        None => return JlistOutcome::CommandFailed,
    };
    let doc = match parse_json(text.as_str()) {
        Some(doc) => doc,
        None => return JlistOutcome::InvalidJson,
    };
    match processes_from_jlist(&doc) {
        Ok(ps) => JlistOutcome::Processes(ps),
        Err(_) => JlistOutcome::NotArray,
    }
}

impl JlistOutcome {
    /// The processes to report: those listed, or none when the run gave no
    /// list.
    pub fn into_processes(self) -> (ps: Vec<Pm2Process>)
        ensures
            match self {
                JlistOutcome::Processes(listed) => ps == listed,
                _ => ps@.len() == 0,
            },
    {
        match self {
            JlistOutcome::Processes(ps) => ps,
            _ => Vec::new(),
        }
    }
}

/// Each field of a process is read whole from its entry: the `name` string
/// (and the `pm2_env.status` string) character for character, `"unknown"`
/// when it is not a string; `monit.memory` as the number it is, 0 when it is
/// not a non-negative integer; `pm2_env.restart_time` the same, cut to its
/// low 32 bits; `monit.cpu` as the number it is, or nothing.
pub proof fn process_fields_are_read_whole(p: Pm2Process, entry: JsonValue)
    requires
        describes(p, entry),
    ensures
        match field(Some(entry), seq!['n', 'a', 'm', 'e']) {
            Some(JsonValue::Str(s)) => p.name@ == s@,
            _ => p.name@ == seq!['u', 'n', 'k', 'n', 'o', 'w', 'n'],
        },
        match field(
            field(Some(entry), seq!['p', 'm', '2', '_', 'e', 'n', 'v']),
            seq!['s', 't', 'a', 't', 'u', 's'],
        ) {
            Some(JsonValue::Str(s)) => p.status@ == s@,
            _ => p.status@ == seq!['u', 'n', 'k', 'n', 'o', 'w', 'n'],
        },
        match field(
            field(Some(entry), seq!['m', 'o', 'n', 'i', 't']),
            seq!['m', 'e', 'm', 'o', 'r', 'y'],
        ) {
            Some(JsonValue::Number(JsonNumber::PosInt(m))) => p.memory_bytes == m,
            _ => p.memory_bytes == 0,
        },
        match field(
            field(Some(entry), seq!['p', 'm', '2', '_', 'e', 'n', 'v']),
            seq!['r', 'e', 's', 't', 'a', 'r', 't', '_', 't', 'i', 'm', 'e'],
        ) {
            Some(JsonValue::Number(JsonNumber::PosInt(r))) => p.restarts as int == r
                % 0x1_0000_0000,
            _ => p.restarts == 0,
        },
        match field(field(Some(entry), seq!['m', 'o', 'n', 'i', 't']), seq!['c', 'p', 'u']) {
            Some(JsonValue::Number(n)) => p.cpu_percent == Some(n),
            _ => p.cpu_percent is None,
        },
{
}

/// The process list of a JSON array has one process per element, in order,
/// each read whole from its element.
pub proof fn process_list_follows_the_array(doc: JsonValue, ps: Vec<Pm2Process>, i: int)
    requires
        jlist_describes(doc, Ok(ps)),
        0 <= i < ps@.len(),
    ensures
        doc matches JsonValue::Array(items) && items@.len() == ps@.len() && describes(
            ps@[i],
            items@[i],
        ),
{
}

/// Termux's `pm2` wins whenever it exists. Otherwise the first nvm candidate
/// that exists is run, wherever it stands in the list, with the Termux
/// `PM2_HOME`; `pm2` from the `PATH`, with no `PM2_HOME`, only when no
/// candidate exists at all.
pub proof fn pm2_choice(termux_pm2_exists: bool, candidates: Seq<(String, bool)>, k: int)
    ensures
        termux_pm2_exists ==> chosen_pm2(termux_pm2_exists, candidates) == (
            TERMUX_PREFIX@ + "/bin/pm2"@,
            Some(TERMUX_HOME@ + "/.pm2"@),
            Pm2Source::Termux,
        ),
        !termux_pm2_exists && 0 <= k < candidates.len() && candidates[k].1 && (forall|j: int|
            0 <= j < k ==> !(#[trigger] candidates[j]).1) ==> chosen_pm2(
            termux_pm2_exists,
            candidates,
        ) == (candidates[k].0@, Some(TERMUX_HOME@ + "/.pm2"@), Pm2Source::TermuxNvm),
        !termux_pm2_exists && (forall|j: int| 0 <= j < candidates.len() ==> !(#[trigger] candidates[
            j]).1) ==> chosen_pm2(termux_pm2_exists, candidates) == ("pm2"@, None::<Seq<char>>,
            Pm2Source::SystemPath),
{
    if !termux_pm2_exists {
        if 0 <= k < candidates.len() && candidates[k].1 && (forall|j: int|
            0 <= j < k ==> !(#[trigger] candidates[j]).1) {
            lemma_first_existing_at(candidates, k);
        }
        if forall|j: int| 0 <= j < candidates.len() ==> !(#[trigger] candidates[j]).1 {
            lemma_first_existing_none(candidates);
        }
    }
}

proof fn lemma_first_existing_at(c: Seq<(String, bool)>, k: int)
    requires
        0 <= k < c.len(),
        c[k].1,
        forall|j: int| 0 <= j < k ==> !(#[trigger] c[j]).1,
    ensures
        first_existing(c) == Some(c[k].0@),
    decreases k,
{
    if k > 0 {
        assert(!c[0].1);
        assert forall|j: int| 0 <= j < k - 1 implies !(#[trigger] c.drop_first()[j]).1 by {
            assert(c.drop_first()[j] == c[j + 1]);
        }
        lemma_first_existing_at(c.drop_first(), k - 1);
    }
}

proof fn lemma_first_existing_none(c: Seq<(String, bool)>)
    requires
        forall|j: int| 0 <= j < c.len() ==> !(#[trigger] c[j]).1,
    ensures
        first_existing(c) is None,
    decreases c.len(),
{
    if c.len() > 0 {
        assert(!c[0].1);
        assert forall|j: int| 0 <= j < c.len() - 1 implies !(#[trigger] c.drop_first()[j]).1 by {
            assert(c.drop_first()[j] == c[j + 1]);
        }
        lemma_first_existing_none(c.drop_first());
    }
}

proof fn lemma_no_bracket_no_offset(s: Seq<char>)
    requires
        forall|i: int| 0 <= i < s.len() ==> s[i] != '[',
    ensures
        array_offset(s) is None,
    decreases s.len(),
{
    if s.len() > 0 {
        if starts_csi(s) {
            assert(s[1] == '[');
        } else {
            assert forall|i: int| 0 <= i < s.len() - 1 implies s.drop_first()[i] != '[' by {
                assert(s.drop_first()[i] == s[i + 1]);
            }
            lemma_no_bracket_no_offset(s.drop_first());
        }
    }
}

/// Output without any `[` is handed to the parser whole; otherwise what is
/// handed over is the end of the output from a `[` on.
pub proof fn array_start_is_a_bracketed_suffix(text: Seq<char>)
    ensures
        (forall|i: int| 0 <= i < text.len() ==> text[i] != '[') ==> from_array_start(text)
            == text,
        from_array_start(text) != text ==> exists|k: int|
            0 <= k < text.len() && text[k] == '[' && from_array_start(text) == text.subrange(
                k,
                text.len() as int,
            ),
{
    if forall|i: int| 0 <= i < text.len() ==> text[i] != '[' {
        lemma_no_bracket_no_offset(text);
    }
    lemma_array_offset_bounds(text);
    if let Some(k) = array_offset(text) {
        lemma_array_offset_is_bracket(text);
        assert(text[k] == '[');
    }
}

proof fn lemma_array_offset_is_bracket(s: Seq<char>)
    ensures
        array_offset(s) matches Some(k) ==> 0 <= k < s.len() && s[k] == '[',
    decreases s.len(),
{
    if s.len() > 0 {
        if starts_csi(s) {
            lemma_csi_param_len_bounds(s.subrange(2, s.len() as int));
            let k = csi_len(s);
            lemma_array_offset_is_bracket(s.subrange(k, s.len() as int));
        } else if s[0] != '[' {
            lemma_array_offset_is_bracket(s.drop_first());
        }
    }
}

/// What one run of `pm2 jlist` gives: nothing to parse when the command
/// failed, whatever it printed; otherwise an invalid-JSON outcome exactly
/// when the text from the array on is not one JSON document, a non-array
/// outcome when that document is not an array, and otherwise one process per
/// array element.
pub proof fn jlist_outcomes(succeeded: bool, stdout: Seq<u8>, r: JlistOutcome)
    requires
        jlist_outcome_is(succeeded, stdout, r),
    ensures
        !succeeded ==> r is CommandFailed,
        succeeded ==> !(r is CommandFailed),
        succeeded ==> (r is InvalidJson <==> json_document(
            from_array_start(lossy_utf8(stdout)),
        ) is None),
        succeeded && r is NotArray ==> (json_document(from_array_start(lossy_utf8(stdout)))
            matches Some(doc) && !(doc is Array)),
        r is Processes ==> succeeded,
        r matches JlistOutcome::Processes(ps) ==> (json_document(
            from_array_start(lossy_utf8(stdout)),
        ) matches Some(doc) && (doc matches JsonValue::Array(items) && items@.len() == ps@.len()
            && forall|i: int| 0 <= i < ps@.len() ==> #[trigger] describes(ps@[i], items@[i]))),
{
}

} // verus!

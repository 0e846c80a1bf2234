//! Start-at-login: the user's wish is kept in `pin.ini` next to the
//! executable, and enforced through the per-user `Run` registry value.
//!
//! This module holds the decisions: reading and writing the settings text,
//! quoting and parsing the `Run` command, comparing paths, and the
//! reconcile step that repairs drift between the two. Reading files and the
//! registry is left to the caller.

use vstd::prelude::*;
use crate::text::{
    char_at, chars_of, eq_ignore_ascii_case, eq_ignore_ascii_case_in, find_back, find_char_in,
    find_from, find_white_in, index_of, is_white_space, lemma_find_back_bounds, lemma_find_back_is,
    lemma_find_back_passes, lemma_find_from_bounds, lemma_find_from_is, lower_code, lower_code_of,
    lowers_to, lowers_to_in, non_white_at, trim, trim_in, white_at,
};

verus! {

/// Key of the autostart line in the settings file.
pub const INI_KEY: &'static str = "AutoStart";

/// What the user asked for (`desired`) and what the registry currently
/// enforces (`effective`).
#[derive(Debug, Clone, Copy, PartialEq, Eq, Structural)]
pub struct AutoStartState {
    pub desired: bool,
    pub effective: bool,
}

/// What the `Run` value currently holds.
#[derive(Debug, Clone, Copy, PartialEq, Eq, Structural)]
pub enum RunState {
    /// No value, or one whose command names no program.
    Missing,
    /// The command starts this executable.
    CurrentExe,
    /// The command starts some other program.
    Other,
}

/// How the `Run` value must change to match the user's wish.
#[derive(Debug, Clone, Copy, PartialEq, Eq, Structural)]
pub enum ReconcileAction {
    Noop,
    EnableRegistry,
    DisableRegistry,
}

// ---------------------------------------------------------------------------
// The settings file
// ---------------------------------------------------------------------------

/// `text` cut at every `'\n'`. A `'\r'` before the `'\n'` stays on its line;
/// every line is trimmed before it is read, so this has the effect of
/// `str::lines` on what the parser sees.
pub open spec fn lines(text: Seq<char>) -> Seq<Seq<char>>
    decreases text.len(),
{
    if text.len() == 0 {
        seq![Seq::<char>::empty()]
    } else {
        let prev = lines(text.drop_last());
        if text.last() == '\n' {
            prev.push(Seq::<char>::empty())
        } else {
            prev.update(prev.len() - 1, prev.last().push(text.last()))
        }
    }
}

/// A truthy setting value: `1`, `true`, `yes` or `on`, in any ASCII case.
pub open spec fn truthy(value: Seq<char>) -> bool {
    ||| lowers_to(value, "1"@)
    ||| lowers_to(value, "true"@)
    ||| lowers_to(value, "yes"@)
    ||| lowers_to(value, "on"@)
}

/// The part of a line before its first `#`, trimmed.
pub open spec fn line_body(line: Seq<char>) -> Seq<char> {
    trim(line.take(index_of(line, '#')))
}

/// The autostart value that one line sets: the line (without its comment)
/// must hold a `=`, and the trimmed text before the first `=` must equal
/// `AutoStart` up to ASCII case; the value is the trimmed text after it.
pub open spec fn line_setting(line: Seq<char>) -> Option<bool> {
    let body = line_body(line);
    let eq = index_of(body, '=');
    if eq < body.len() && eq_ignore_ascii_case(trim(body.take(eq)), INI_KEY@) {
        Some(truthy(trim(body.skip(eq + 1))))
    } else {
        None
    }
}

/// The value set by the last line of `ls` that sets one.
pub open spec fn last_setting(ls: Seq<Seq<char>>) -> Option<bool>
    decreases ls.len(),
{
    if ls.len() == 0 {
        None
    } else {
        match line_setting(ls.last()) {
            Some(v) => Some(v),
            None => last_setting(ls.drop_last()),
        }
    }
}

/// The autostart wish recorded in a settings text: the last `AutoStart`
/// line wins; with none, autostart is off.
pub open spec fn ini_autostart(text: Seq<char>) -> bool {
    match last_setting(lines(text)) {
        Some(v) => v,
        None => false,
    }
}

/// The settings text that records `on`.
pub open spec fn ini_text(on: bool) -> Seq<char> {
    if on {
        "AutoStart=true\n"@
    } else {
        "AutoStart=false\n"@
    }
}

proof fn lemma_lines_nonempty(text: Seq<char>)
    ensures
        lines(text).len() >= 1,
    decreases text.len(),
{
    if text.len() > 0 {
        lemma_lines_nonempty(text.drop_last());
    }
}

/// Whether `v[lo..hi]`, ASCII lower-cased, is a truthy word.
fn truthy_in(v: &Vec<char>, lo: usize, hi: usize) -> (r: bool)
    requires
        lo <= hi <= v@.len(),
    ensures
        r == truthy(v@.subrange(lo as int, hi as int)),
{
    let one = chars_of("1");
    let t = chars_of("true");
    let y = chars_of("yes");
    let on = chars_of("on");
    lowers_to_in(v, lo, hi, &one) || lowers_to_in(v, lo, hi, &t) || lowers_to_in(v, lo, hi, &y)
        || lowers_to_in(v, lo, hi, &on)
}

/// Parses a setting value: `1`, `true`, `yes` and `on`, in any ASCII case,
/// are true; everything else is false.
pub fn parse_bool(s: &str) -> (r: bool)
    ensures
        r == truthy(s@),
{
    let v = chars_of(s);
    let n = v.len();
    proof {
        assert(v@.subrange(0, n as int) =~= v@);
    }
    truthy_in(&v, 0, n)
}

/// The setting held by the line `v[lo..hi]`.
fn line_setting_in(v: &Vec<char>, lo: usize, hi: usize, key: &Vec<char>) -> (r: Option<bool>)
    requires
        lo <= hi <= v@.len(),
        key@ == INI_KEY@,
    ensures
        r == line_setting(v@.subrange(lo as int, hi as int)),
{
    let ghost line = v@.subrange(lo as int, hi as int);
    let h = find_char_in(v, lo, hi, '#');
    let (a, b) = trim_in(v, lo, h);
    proof {
        assert(line.take(h - lo) =~= v@.subrange(lo as int, h as int));
    }
    let ghost body = v@.subrange(a as int, b as int);
    assert(body == line_body(line));
    let e = find_char_in(v, a, b, '=');
    if e < b {
        let (ka, kb) = trim_in(v, a, e);
        proof {
            assert(body.take(e - a) =~= v@.subrange(a as int, e as int));
            assert(body.skip(e - a + 1) =~= v@.subrange(e + 1, b as int));
        }
        if eq_ignore_ascii_case_in(v, ka, kb, key) {
            let (va, vb) = trim_in(v, e + 1, b);
            Some(truthy_in(v, va, vb))
        } else {
            None
        }
    } else {
        None
    }
}

/// Reads the autostart wish from the text of `pin.ini`: the last line whose
/// key is `AutoStart` (ASCII case-insensitive) decides; `#` starts a comment;
/// a missing key means off.
pub fn parse_ini_autostart(text: &str) -> (r: bool)
    ensures
        r == ini_autostart(text@),
{
    let v = chars_of(text);
    let key = chars_of(INI_KEY);
    let n = v.len();
    let mut parsed: Option<bool> = None;
    let mut start: usize = 0;
    let mut i: usize = 0;
    while i < n
        invariant
            n == v@.len(),
            key@ == INI_KEY@,
            start <= i <= n,
            lines(v@.take(i as int)).len() >= 1,
            lines(v@.take(i as int)).last() == v@.subrange(start as int, i as int),
            parsed == last_setting(lines(v@.take(i as int)).drop_last()),
        decreases n - i,
    {
        let ghost prev = lines(v@.take(i as int));
        proof {
            assert(v@.take(i + 1).drop_last() =~= v@.take(i as int));
            assert(v@.take(i + 1).last() == v@[i as int]);
        }
        if v[i] == '\n' {
            let s = line_setting_in(&v, start, i, &key);
            match s {
                Some(b) => {
                    parsed = Some(b);
                },
                None => {},
            }
            proof {
                let next = lines(v@.take(i + 1));
                assert(next == prev.push(Seq::<char>::empty()));
                assert(next.drop_last() =~= prev);
                assert(next.last() =~= v@.subrange(i + 1, i + 1));
            }
            start = i + 1;
        } else {
            proof {
                let next = lines(v@.take(i + 1));
                assert(next == prev.update(prev.len() - 1, prev.last().push(v@[i as int])));
                assert(next.drop_last() =~= prev.drop_last());
                assert(next.last() =~= v@.subrange(start as int, i + 1));
            }
        }
        i = i + 1;
    }
    proof {
        assert(v@.take(n as int) =~= v@);
    }
    let last = line_setting_in(&v, start, n, &key);
    match last {
        Some(b) => b,
        None => match parsed {
            Some(b) => b,
            None => false,
        },
    }
}

/// The text of `pin.ini` that records `on`.
pub fn format_ini_autostart(on: bool) -> (r: String)
    ensures
        r@ == ini_text(on),
{
    if on {
        String::from_str("AutoStart=true\n")
    } else {
        String::from_str("AutoStart=false\n")
    }
}

proof fn lemma_lines_single(s: Seq<char>)
    requires
        forall|j: int| 0 <= j < s.len() ==> s[j] != '\n',
    ensures
        lines(s) == seq![s],
    decreases s.len(),
{
    if s.len() > 0 {
        lemma_lines_single(s.drop_last());
        let prev = lines(s.drop_last());
        assert(prev.last() == s.drop_last());
        assert(s.drop_last().push(s.last()) =~= s);
        assert(s.last() == s[s.len() - 1]);
        assert(prev.update(0, s) =~= seq![s]);
    } else {
        assert(s =~= Seq::<char>::empty());
    }
}

proof fn lemma_trim_unchanged(s: Seq<char>)
    requires
        s.len() > 0,
        !is_white_space(s[0]),
        !is_white_space(s.last()),
    ensures
        trim(s) == s,
{
    let n = s.len() as int;
    lemma_find_from_is(n, non_white_at(s), 0, 0);
    lemma_find_back_is(non_white_at(s), n, n);
    assert(s.subrange(0, n) =~= s);
}

proof fn lemma_index_of_is(s: Seq<char>, c: char, k: int)
    requires
        0 <= k <= s.len(),
        forall|j: int| 0 <= j < k ==> s[j] != c,
        k == s.len() || s[k] == c,
    ensures
        index_of(s, c) == k,
{
    assert forall|j: int| 0 <= j < k implies !(#[trigger] char_at(s, c)(j)) by {}
    lemma_find_from_is(s.len() as int, char_at(s, c), 0, k);
}

proof fn lemma_blank_line_sets_nothing()
    ensures
        line_setting(Seq::<char>::empty()) is None,
{
    let e = Seq::<char>::empty();
    lemma_index_of_is(e, '#', 0);
    assert(e.take(0) =~= e);
    lemma_find_from_bounds(0, non_white_at(e), 0);
    lemma_find_back_bounds(non_white_at(e), 0);
    lemma_index_of_is(trim(e), '=', 0);
}

/// Reading back the settings text written for `on` gives `on`.
pub proof fn lemma_ini_text_round_trip(on: bool)
    ensures
        ini_autostart(ini_text(on)) == on,
{
    reveal_strlit("AutoStart=true\n");
    reveal_strlit("AutoStart=false\n");
    reveal_strlit("AutoStart");
    reveal_strlit("1");
    reveal_strlit("true");
    reveal_strlit("yes");
    reveal_strlit("on");
    reveal_strlit("false");
    let t = ini_text(on);
    let line = t.drop_last();
    assert(t.last() == '\n');
    lemma_lines_single(line);
    assert(lines(t) == seq![line, Seq::<char>::empty()]);
    lemma_blank_line_sets_nothing();
    let ls = lines(t);
    assert(ls.last() == Seq::<char>::empty());
    assert(ls.drop_last() =~= seq![line]);
    assert(seq![line].drop_last() =~= Seq::<Seq<char>>::empty());
    lemma_index_of_is(line, '#', line.len() as int);
    assert(line.take(line.len() as int) =~= line);
    lemma_trim_unchanged(line);
    assert(line_body(line) == line);
    lemma_index_of_is(line, '=', 9);
    let key = line.take(9);
    lemma_trim_unchanged(key);
    assert(eq_ignore_ascii_case(trim(key), INI_KEY@));
    let value = line.skip(10);
    lemma_trim_unchanged(value);
    let eq = index_of(line, '=');
    assert(eq == 9);
    assert(trim(line.take(eq)) == key);
    assert(line_body(line).skip(eq + 1) == value);
    if on {
        assert(value =~= "true"@);
        assert(lowers_to(value, "true"@));
        assert(line_setting(line) == Some(true));
    } else {
        assert(value =~= "false"@);
        assert(!truthy(value));
        assert(line_setting(line) == Some(false));
    }
    assert(last_setting(ls.drop_last()) == line_setting(line));
}

proof fn lemma_lines_extend(a: Seq<char>, b: Seq<char>)
    requires
        forall|j: int| 0 <= j < b.len() ==> b[j] != '\n',
    ensures
        lines(a + b) == lines(a).update(lines(a).len() - 1, lines(a).last() + b),
    decreases b.len(),
{
    lemma_lines_nonempty(a);
    if b.len() == 0 {
        assert(a + b =~= a);
        assert(lines(a).last() + b =~= lines(a).last());
        assert(lines(a).update(lines(a).len() - 1, lines(a).last()) =~= lines(a));
    } else {
        let b0 = b.drop_last();
        lemma_lines_extend(a, b0);
        assert((a + b).drop_last() =~= a + b0);
        assert((a + b).last() == b[b.len() - 1]);
        let prev = lines(a + b0);
        assert(prev.last() == lines(a).last() + b0);
        assert((lines(a).last() + b0).push(b.last()) =~= lines(a).last() + b);
        assert(prev.update(prev.len() - 1, prev.last().push(b.last())) =~= lines(a).update(
            lines(a).len() - 1,
            lines(a).last() + b,
        ));
    }
}

/// A line that sets autostart overrides every earlier line: whatever `text`
/// holds, appending a further line that sets `v` makes the result `v`.
pub proof fn lemma_last_setting_wins(text: Seq<char>, line: Seq<char>, v: bool)
    requires
        forall|j: int| 0 <= j < line.len() ==> line[j] != '\n',
        line_setting(line) == Some(v),
    ensures
        ini_autostart(text.push('\n') + line) == v,
{
    let a = text.push('\n');
    lemma_lines_extend(a, line);
    assert(a.drop_last() =~= text);
    lemma_lines_nonempty(text);
    let la = lines(a);
    assert(la == lines(text).push(Seq::<char>::empty()));
    assert(la.last() + line =~= line);
    let ls = lines(a + line);
    assert(ls.last() == line);
}

// ---------------------------------------------------------------------------
// The Run command
// ---------------------------------------------------------------------------

/// Positions of `s` at which `.exe` starts, in any ASCII case.
pub open spec fn exe_at(s: Seq<char>) -> spec_fn(int) -> bool {
    |i: int|
        {
            &&& 0 <= i
            &&& i + 4 <= s.len()
            &&& lower_code(s[i]) == 46
            &&& lower_code(s[i + 1]) == 101
            &&& lower_code(s[i + 2]) == 120
            &&& lower_code(s[i + 3]) == 101
        }
}

/// The program path named by a `Run` command line. After trimming: a
/// command that starts with `"` names the text up to the next `"` (none
/// when that quote is missing or the text is empty); otherwise the path
/// runs to the end of the first `.exe` (any ASCII case), or, without one,
/// up to the first white space, and is trimmed again (none when empty).
pub open spec fn run_command_path(value: Seq<char>) -> Option<Seq<char>> {
    let v = trim(value);
    if v.len() == 0 {
        None
    } else if v[0] == '"' {
        let rest = v.drop_first();
        let end = index_of(rest, '"');
        if end == rest.len() || end == 0 {
            None
        } else {
            Some(rest.take(end))
        }
    } else {
        let n = v.len() as int;
        let e = find_from(n, exe_at(v), 0);
        let exe_end = if e < n {
            e + 4
        } else {
            find_from(n, white_at(v), 0)
        };
        let path = trim(v.take(exe_end));
        if path.len() == 0 {
            None
        } else {
            Some(path)
        }
    }
}

/// The text of a `Run` value that starts `path`: the path in double quotes.
pub open spec fn quoted(path: Seq<char>) -> Seq<char> {
    seq!['"'] + path + seq!['"']
}

fn exe_at_in(v: &Vec<char>, i: usize, hi: usize) -> (r: bool)
    requires
        i <= hi <= v@.len(),
    ensures
        r == (i + 4 <= hi && lower_code(v@[i as int]) == 46 && lower_code(v@[i + 1]) == 101
            && lower_code(v@[i + 2]) == 120 && lower_code(v@[i + 3]) == 101),
{
    hi - i >= 4 && lower_code_of(v[i]) == 46 && lower_code_of(v[i + 1]) == 101 && lower_code_of(
        v[i + 2],
    ) == 120 && lower_code_of(v[i + 3]) == 101
}

/// Position of the first `.exe` (any ASCII case) in `v[lo..hi]`, or `hi`.
fn find_exe_in(v: &Vec<char>, lo: usize, hi: usize) -> (r: usize)
    requires
        lo <= hi <= v@.len(),
    ensures
        lo <= r <= hi,
        r - lo == find_from(hi - lo, exe_at(v@.subrange(lo as int, hi as int)), 0),
{
    let ghost s = v@.subrange(lo as int, hi as int);
    let mut i = lo;
    while i < hi && !exe_at_in(v, i, hi)
        invariant
            lo <= i <= hi <= v@.len(),
            s == v@.subrange(lo as int, hi as int),
            forall|j: int| 0 <= j < i - lo ==> !(#[trigger] exe_at(s)(j)),
        decreases hi - i,
    {
        proof {
            let j = i - lo;
            if j + 4 <= s.len() {
                assert(s[j] == v@[i as int]);
                assert(s[j + 1] == v@[i + 1]);
                assert(s[j + 2] == v@[i + 2]);
                assert(s[j + 3] == v@[i + 3]);
            }
        }
        i = i + 1;
    }
    proof {
        let j = i - lo;
        if i < hi {
            assert(s[j] == v@[i as int]);
            assert(s[j + 1] == v@[i + 1]);
            assert(s[j + 2] == v@[i + 2]);
            assert(s[j + 3] == v@[i + 3]);
            assert(exe_at(s)(j));
        }
        lemma_find_from_is(s.len() as int, exe_at(s), 0, j);
    }
    i
}

/// Extracts the program path from a `Run` command line; see
/// [`run_command_path`] for the rule.
pub fn parse_run_command_path(value: &str) -> (r: Option<String>)
    ensures
        (match r {
            Some(p) => Some(p@),
            None => None,
        }) == run_command_path(value@),
{
    let v = chars_of(value);
    let n = v.len();
    let (a, b) = trim_in(&v, 0, n);
    let ghost t = v@.subrange(a as int, b as int);
    proof {
        assert(v@.subrange(0, n as int) =~= value@);
        assert(t == trim(value@));
    }
    if a == b {
        return None;
    }
    assert(t[0] == v@[a as int]);
    if v[a] == '"' {
        let end = find_char_in(&v, a + 1, b, '"');
        proof {
            assert(t.drop_first() =~= v@.subrange(a + 1, b as int));
        }
        if end == b || end == a + 1 {
            None
        } else {
            let p = value.substring_char(a + 1, end);
            proof {
                assert(t.drop_first().take(end - (a + 1)) =~= value@.subrange(a + 1, end as int));
            }
            Some(String::from_str(p))
        }
    } else {
        let e = find_exe_in(&v, a, b);
        proof {
            lemma_find_from_bounds(t.len() as int, exe_at(t), 0);
        }
        let exe_end = if e < b {
            e + 4
        } else {
            find_white_in(&v, a, b)
        };
        let (pa, pb) = trim_in(&v, a, exe_end);
        proof {
            assert(t.take(exe_end - a) =~= v@.subrange(a as int, exe_end as int));
        }
        if pa == pb {
            None
        } else {
            let p = value.substring_char(pa, pb);
            Some(String::from_str(p))
        }
    }
}

/// How many UTF-16 units of a registry string value to keep, given the
/// value's buffer and the byte count the registry reported: half the byte
/// count, less a terminating NUL when the last of those units is one.
pub fn run_value_unit_count(units: &[u16], byte_count: u32) -> (r: usize)
    ensures
        r == ({
            let n = byte_count / 2;
            if n > 0 && n - 1 < units@.len() && units@[n - 1] == 0 {
                n - 1
            } else {
                n as int
            }
        }),
{
    let n = (byte_count / 2) as usize;
    if n > 0 && n - 1 < units.len() && units[n - 1] == 0 {
        n - 1
    } else {
        n
    }
}

/// The `Run` value that starts the program at `path`: the path in double
/// quotes, so that spaces in it survive.
pub fn quote_exe_path(path: &str) -> (r: String)
    ensures
        r@ == quoted(path@),
{
    let mut s = String::from_str("\"");
    s.append(path);
    s.append("\"");
    proof {
        reveal_strlit("\"");
        assert(s@ =~= quoted(path@));
    }
    s
}

/// Whether two paths name the same file. `same_path` is the result of
/// comparing them as paths; `canonical_same` compares their canonical
/// forms, when both could be resolved. Failing both, the two texts are
/// compared with ASCII case ignored.
pub fn paths_equal(same_path: bool, canonical_same: Option<bool>, a: &str, b: &str) -> (r: bool)
    ensures
        r == (same_path || match canonical_same {
            Some(c) => c,
            None => eq_ignore_ascii_case(a@, b@),
        }),
{
    if same_path {
        return true;
    }
    match canonical_same {
        Some(c) => c,
        None => {
            let va = chars_of(a);
            let vb = chars_of(b);
            let n = va.len();
            proof {
                assert(va@.subrange(0, n as int) =~= va@);
            }
            eq_ignore_ascii_case_in(&va, 0, n, &vb)
        },
    }
}

/// The state of the `Run` value: `None` when it is missing or names no
/// program, otherwise whether the program it names is this executable.
pub fn run_state_of(names_current_exe: Option<bool>) -> (r: RunState)
    ensures
        r == (match names_current_exe {
            None => RunState::Missing,
            Some(true) => RunState::CurrentExe,
            Some(false) => RunState::Other,
        }),
{
    match names_current_exe {
        None => RunState::Missing,
        Some(true) => RunState::CurrentExe,
        Some(false) => RunState::Other,
    }
}

/// A path written to `Run` with [`quote_exe_path`] is read back unchanged
/// by [`parse_run_command_path`], as long as it is not empty and holds no
/// double quote.
pub proof fn lemma_quoted_path_round_trip(path: Seq<char>)
    requires
        path.len() > 0,
        forall|j: int| 0 <= j < path.len() ==> path[j] != '"',
    ensures
        run_command_path(quoted(path)) == Some(path),
{
    let q = quoted(path);
    assert(q[0] == '"');
    assert(q.last() == '"');
    lemma_trim_unchanged(q);
    let rest = q.drop_first();
    assert(rest =~= path + seq!['"']);
    lemma_index_of_is(rest, '"', path.len() as int);
    assert(rest.take(path.len() as int) =~= path);
}

/// A `Run` command line that starts with an unquoted path to an `.exe`
/// (`.exe` in any ASCII case, first found at its end; the path may hold
/// spaces) and goes on with arguments names that path, whatever the
/// arguments are.
pub proof fn lemma_unquoted_exe_path_with_arguments(path: Seq<char>, args: Seq<char>)
    requires
        path.len() >= 4,
        path[0] != '"',
        !is_white_space(path[0]),
        lower_code(path[path.len() - 4]) == 46,
        lower_code(path[path.len() - 3]) == 101,
        lower_code(path[path.len() - 2]) == 120,
        lower_code(path[path.len() - 1]) == 101,
        forall|i: int|
            #![trigger path[i]]
            0 <= i < path.len() - 4 ==> !(lower_code(path[i]) == 46 && lower_code(path[i + 1]) == 101
                && lower_code(path[i + 2]) == 120 && lower_code(path[i + 3]) == 101),
    ensures
        run_command_path(path + seq![' '] + args) == Some(path),
{
    let s = path + seq![' '] + args;
    let n = s.len() as int;
    let m = path.len() as int;
    assert(s[0] == path[0]);
    assert(s[m - 1] == path[m - 1]);
    assert(!is_white_space(path[m - 1]));
    assert(non_white_at(s)(0));
    assert(non_white_at(s)(m - 1));
    lemma_find_from_is(n, non_white_at(s), 0, 0);
    lemma_find_back_passes(non_white_at(s), n, m - 1);
    let hi = find_back(non_white_at(s), n);
    let v = trim(s);
    assert(v == s.subrange(0, hi));
    assert(v[0] != '"');
    assert forall|j: int| 0 <= j < m - 4 implies !#[trigger] exe_at(v)(j) by {
        assert(v[j] == path[j] && v[j + 1] == path[j + 1] && v[j + 2] == path[j + 2] && v[j + 3]
            == path[j + 3]);
    }
    assert(v[m - 4] == path[m - 4] && v[m - 3] == path[m - 3] && v[m - 2] == path[m - 2] && v[m
        - 1] == path[m - 1]);
    assert(exe_at(v)(m - 4));
    lemma_find_from_is(v.len() as int, exe_at(v), 0, m - 4);
    assert(v.take(m) =~= path);
    lemma_trim_unchanged(path);
}

/// A `Run` command line that starts with a quoted path and goes on with
/// arguments names that path, whatever the arguments are (quoted ones
/// included): the path ends at the quote that closes it.
pub proof fn lemma_quoted_path_with_arguments(path: Seq<char>, args: Seq<char>)
    requires
        path.len() > 0,
        forall|j: int| 0 <= j < path.len() ==> path[j] != '"',
    ensures
        run_command_path(quoted(path) + seq![' '] + args) == Some(path),
{
    let s = quoted(path) + seq![' '] + args;
    let n = s.len() as int;
    let m = path.len() as int;
    assert(s[0] == '"');
    assert(s[m + 1] == '"');
    assert(non_white_at(s)(0));
    assert(non_white_at(s)(m + 1));
    lemma_find_from_is(n, non_white_at(s), 0, 0);
    lemma_find_back_passes(non_white_at(s), n, m + 1);
    let hi = find_back(non_white_at(s), n);
    let v = trim(s);
    assert(v == s.subrange(0, hi));
    let rest = v.drop_first();
    assert forall|j: int| 0 <= j < m implies rest[j] != '"' by {
        assert(rest[j] == s[j + 1]);
        assert(s[j + 1] == path[j]);
    }
    assert(rest[m] == s[m + 1]);
    lemma_index_of_is(rest, '"', m);
    assert(rest.take(m) =~= path) by {
        assert forall|j: int| 0 <= j < m implies rest.take(m)[j] == path[j] by {
            assert(rest[j] == s[j + 1]);
        }
    }
}

// ---------------------------------------------------------------------------
// Reconciling the wish with the registry
// ---------------------------------------------------------------------------

/// The action that brings the `Run` value in line with the wish.
pub open spec fn reconcile_action_spec(desired: bool, run_state: RunState) -> ReconcileAction {
    if desired {
        if run_state == RunState::CurrentExe {
            ReconcileAction::Noop
        } else {
            ReconcileAction::EnableRegistry
        }
    } else {
        if run_state == RunState::CurrentExe {
            ReconcileAction::DisableRegistry
        } else {
            ReconcileAction::Noop
        }
    }
}

/// What the `Run` value holds after `action` is carried out on `run_state`:
/// enabling writes this executable, disabling deletes the value.
pub open spec fn run_state_after(action: ReconcileAction, run_state: RunState) -> RunState {
    match action {
        ReconcileAction::Noop => run_state,
        ReconcileAction::EnableRegistry => RunState::CurrentExe,
        ReconcileAction::DisableRegistry => RunState::Missing,
    }
}

/// Decides how to repair drift between the wish and the `Run` value: a wish
/// for autostart needs `Run` to start this executable; no wish needs `Run`
/// not to start it.
pub fn reconcile_action(desired: bool, run_state: RunState) -> (r: ReconcileAction)
    ensures
        r == reconcile_action_spec(desired, run_state),
{
    match (desired, run_state) {
        (true, RunState::CurrentExe) => ReconcileAction::Noop,
        (false, RunState::Missing) => ReconcileAction::Noop,
        (false, RunState::Other) => ReconcileAction::Noop,
        (true, RunState::Missing) => ReconcileAction::EnableRegistry,
        (true, RunState::Other) => ReconcileAction::EnableRegistry,
        (false, RunState::CurrentExe) => ReconcileAction::DisableRegistry,
    }
}

/// The state reported for a wish and a `Run` value: autostart is effective
/// exactly when `Run` starts this executable.
pub fn autostart_state(desired: bool, run_state: RunState) -> (r: AutoStartState)
    ensures
        r.desired == desired,
        r.effective == (run_state == RunState::CurrentExe),
{
    let effective = match run_state {
        RunState::CurrentExe => true,
        _ => false,
    };
    AutoStartState { desired, effective }
}

/// The value a toggle of the menu item switches to: the opposite of the
/// wish, whatever the registry holds.
pub fn toggle_target(state: AutoStartState) -> (r: bool)
    ensures
        r == !state.desired,
{
    !state.desired
}

/// Reconciling makes autostart effective exactly when it is desired.
pub proof fn lemma_reconcile_makes_effective_match_desired(desired: bool, run_state: RunState)
    ensures
        (run_state_after(reconcile_action_spec(desired, run_state), run_state)
            == RunState::CurrentExe) == desired,
{
}

/// Reconciling touches the registry only when the two disagree.
pub proof fn lemma_reconcile_acts_only_on_drift(desired: bool, run_state: RunState)
    ensures
        (reconcile_action_spec(desired, run_state) == ReconcileAction::Noop) == ((run_state
            == RunState::CurrentExe) == desired),
{
}

} // verus!

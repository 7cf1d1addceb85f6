//! The output sanitizer: removes ANSI CSI color sequences from captured
//! error text and trims the surrounding whitespace of every line.
//!
//! The removal pass walks the input once, keeping an output buffer; when a
//! final byte (`m` or `G`) closes a `ESC [ <params>` opening already in the
//! buffer, the whole sequence is deleted. Deleting may expose a sequence
//! that was split around the deleted one, and the buffer scan catches it on
//! the next final byte, so the finished output never contains a sequence.

use vstd::prelude::*;

use crate::chars::esc_char;
use crate::chars::is_csi_param;
use crate::chars::is_csi_param_char;
use crate::chars::is_ws;
use crate::chars::is_ws_char;
use crate::chars::str_to_chars;
use crate::chars::string_from_chars;

verus! {

// ---------------------------------------------------------------------------
// Stripping ANSI CSI sequences
// ---------------------------------------------------------------------------

/// A complete ANSI CSI color sequence: `ESC [`, parameter characters, and a
/// final `m` or `G`.
pub open spec fn is_csi(s: Seq<char>) -> bool {
    &&& s.len() >= 3
    &&& s[0] == esc_char()
    &&& s[1] == '['
    &&& (s.last() == 'm' || s.last() == 'G')
    &&& forall|k: int| 2 <= k < s.len() - 1 ==> is_csi_param(s[k])
}

/// `s` contains a CSI sequence as a substring.
pub open spec fn contains_csi(s: Seq<char>) -> bool {
    exists|i: int, j: int| 0 <= i && i + 3 <= j <= s.len() && is_csi(s.subrange(i, j))
}

/// Start of the `ESC [` opening whose parameter characters run up to
/// position `i` of `s`, if there is one.
pub open spec fn csi_open_from(s: Seq<char>, i: int) -> Option<int>
    decreases i,
{
    if i >= 2 && s[i - 2] == esc_char() && s[i - 1] == '[' {
        Some(i - 2)
    } else if i >= 1 && is_csi_param(s[i - 1]) {
        csi_open_from(s, i - 1)
    } else {
        None
    }
}

/// One step of the stripping pass: append `c` to the output, unless `c`
/// closes a CSI sequence at the end of the output, which is then deleted.
pub open spec fn strip_step(out: Seq<char>, c: char) -> Seq<char> {
    if c == 'm' || c == 'G' {
        match csi_open_from(out, out.len() as int) {
            Some(j) => out.subrange(0, j),
            None => out.push(c),
        }
    } else {
        out.push(c)
    }
}

/// The stripping pass over a whole string.
pub open spec fn strip_ansi(s: Seq<char>) -> Seq<char>
    decreases s.len(),
{
    if s.len() == 0 {
        Seq::empty()
    } else {
        strip_step(strip_ansi(s.drop_last()), s.last())
    }
}

// ---------------------------------------------------------------------------
// Splitting into lines, trimming, joining
// ---------------------------------------------------------------------------

/// The newline-separated lines of `s`. An empty string has one empty line,
/// and every newline separates two lines.
pub open spec fn split_lines(s: Seq<char>) -> Seq<Seq<char>>
    decreases s.len(),
{
    if s.len() == 0 {
        seq![Seq::empty()]
    } else if s[0] == '\n' {
        seq![Seq::<char>::empty()] + split_lines(s.drop_first())
    } else {
        let rest = split_lines(s.drop_first());
        seq![seq![s[0]] + rest[0]] + rest.drop_first()
    }
}

/// The lines of `ls` joined with single newlines.
pub open spec fn join_lines(ls: Seq<Seq<char>>) -> Seq<char>
    decreases ls.len(),
{
    if ls.len() == 0 {
        Seq::empty()
    } else if ls.len() == 1 {
        ls[0]
    } else {
        ls[0] + seq!['\n'] + join_lines(ls.drop_first())
    }
}

/// `s` without its leading whitespace.
pub open spec fn trim_start(s: Seq<char>) -> Seq<char>
    decreases s.len(),
{
    if s.len() > 0 && is_ws(s[0]) {
        trim_start(s.drop_first())
    } else {
        s
    }
}

/// `s` without its trailing whitespace.
pub open spec fn trim_end(s: Seq<char>) -> Seq<char>
    decreases s.len(),
{
    if s.len() > 0 && is_ws(s.last()) {
        trim_end(s.drop_last())
    } else {
        s
    }
}

/// `s` without its surrounding whitespace.
pub open spec fn trim(s: Seq<char>) -> Seq<char> {
    trim_end(trim_start(s))
}

/// Every line of `ls`, trimmed.
pub open spec fn map_trim(ls: Seq<Seq<char>>) -> Seq<Seq<char>> {
    ls.map_values(|l: Seq<char>| trim(l))
}

/// Each line of `s` trimmed, with the newlines kept.
pub open spec fn trim_lines(s: Seq<char>) -> Seq<char> {
    join_lines(map_trim(split_lines(s)))
}

/// What the sanitizer returns: the input with CSI sequences stripped and
/// every line trimmed.
pub open spec fn sanitize_spec(s: Seq<char>) -> Seq<char> {
    trim_lines(strip_ansi(s))
}

// ---------------------------------------------------------------------------
// Executable sanitizer
// ---------------------------------------------------------------------------

/// Finds the `ESC [` opening whose parameters reach the end of `out`.
fn find_open(out: &Vec<char>) -> (r: Option<usize>)
    ensures
        match r {
            Some(j) => csi_open_from(out@, out@.len() as int) == Some(j as int) && j + 2
                <= out@.len(),
            None => csi_open_from(out@, out@.len() as int) is None,
        },
{
    let mut i: usize = out.len();
    loop
        invariant
            i <= out@.len(),
            csi_open_from(out@, out@.len() as int) == csi_open_from(out@, i as int),
        decreases i,
    {
        if i >= 2 && out[i - 2] == '\u{1b}' && out[i - 1] == '[' {
            return Some(i - 2);
        } else if i >= 1 && is_csi_param_char(out[i - 1]) {
            i = i - 1;
        } else {
            return None;
        }
    }
}

/// The stripping pass over a character vector.
fn strip_ansi_exec(v: &Vec<char>) -> (out: Vec<char>)
    ensures
        out@ == strip_ansi(v@),
{
    let mut out: Vec<char> = Vec::new();
    let mut i: usize = 0;
    proof {
        assert(v@.subrange(0, 0) =~= Seq::<char>::empty());
    }
    while i < v.len()
        invariant
            i <= v@.len(),
            out@ == strip_ansi(v@.subrange(0, i as int)),
        decreases v@.len() - i,
    {
        let ghost prev = out@;
        let c = v[i];
        if c == 'm' || c == 'G' {
            match find_open(&out) {
                Some(j) => {
                    out.truncate(j);
                },
                None => {
                    out.push(c);
                },
            }
        } else {
            out.push(c);
        }
        i = i + 1;
        proof {
            let p = v@.subrange(0, i as int);
            assert(p.drop_last() =~= v@.subrange(0, i - 1));
            assert(p.last() == v@[i - 1]);
            assert(out@ == strip_step(prev, v@[i - 1]));
        }
    }
    proof {
        assert(v@.subrange(0, v@.len() as int) =~= v@);
    }
    out
}

/// Relates the structural definition of `split_lines` to a scan: when no
/// newline occurs before `j`, the first line is `s` up to `j` and the rest
/// are the lines after it.
proof fn lemma_split_lines_first(s: Seq<char>, j: int)
    requires
        0 <= j <= s.len(),
        forall|k: int| 0 <= k < j ==> s[k] != '\n',
        j < s.len() ==> s[j] == '\n',
    ensures
        j == s.len() ==> split_lines(s) == seq![s],
        j < s.len() ==> split_lines(s) == seq![s.subrange(0, j)] + split_lines(
            s.subrange(j + 1, s.len() as int),
        ),
    decreases s.len(),
{
    if s.len() == 0 {
        assert(s =~= Seq::<char>::empty());
        assert(split_lines(s) == seq![Seq::<char>::empty()]);
        assert(split_lines(s) =~= seq![s]);
    } else if j == 0 {
        if j < s.len() {
            assert(s[0] == '\n');
            assert(s.drop_first() =~= s.subrange(1, s.len() as int));
            assert(s.subrange(0, 0) =~= Seq::<char>::empty());
            assert(split_lines(s) =~= seq![s.subrange(0, 0)] + split_lines(
                s.subrange(1, s.len() as int),
            ));
        }
    } else {
        let t = s.drop_first();
        lemma_split_lines_first(t, j - 1);
        let rest = split_lines(t);
        lemma_split_lines_nonempty(t);
        if j == s.len() {
            assert(rest == seq![t]);
            assert(seq![s[0]] + rest[0] =~= s);
            assert(split_lines(s) =~= seq![s]);
        } else {
            assert(rest == seq![t.subrange(0, j - 1)] + split_lines(
                t.subrange(j, t.len() as int),
            ));
            assert(rest[0] == t.subrange(0, j - 1));
            assert(seq![s[0]] + rest[0] =~= s.subrange(0, j));
            assert(t.subrange(j, t.len() as int) =~= s.subrange(j + 1, s.len() as int));
            assert(rest.drop_first() =~= split_lines(s.subrange(j + 1, s.len() as int)));
            assert(split_lines(s) =~= seq![s.subrange(0, j)] + split_lines(
                s.subrange(j + 1, s.len() as int),
            ));
        }
    }
}

/// A string always splits into at least one line.
proof fn lemma_split_lines_nonempty(s: Seq<char>)
    ensures
        split_lines(s).len() >= 1,
    decreases s.len(),
{
    if s.len() > 0 {
        lemma_split_lines_nonempty(s.drop_first());
    }
}

/// Trimming keeps exactly the characters between the outer whitespace.
proof fn lemma_trim_start_subrange(l: Seq<char>, a: int)
    requires
        0 <= a <= l.len(),
        forall|k: int| 0 <= k < a ==> is_ws(l[k]),
        a < l.len() ==> !is_ws(l[a]),
    ensures
        trim_start(l) == l.subrange(a, l.len() as int),
    decreases a,
{
    if a == 0 {
        assert(l.subrange(0, l.len() as int) =~= l);
    } else {
        assert(is_ws(l[0]));
        let t = l.drop_first();
        lemma_trim_start_subrange(t, a - 1);
        assert(t.subrange(a - 1, t.len() as int) =~= l.subrange(a, l.len() as int));
    }
}

proof fn lemma_trim_end_subrange(l: Seq<char>, b: int)
    requires
        0 <= b <= l.len(),
        forall|k: int| b <= k < l.len() ==> is_ws(l[k]),
        b > 0 ==> !is_ws(l[b - 1]),
    ensures
        trim_end(l) == l.subrange(0, b),
    decreases l.len() - b,
{
    if b == l.len() {
        if l.len() > 0 && is_ws(l.last()) {
            assert(false);
        }
        assert(l.subrange(0, l.len() as int) =~= l);
    } else {
        assert(is_ws(l.last()));
        let t = l.drop_last();
        lemma_trim_end_subrange(t, b);
        assert(t.subrange(0, b) =~= l.subrange(0, b));
    }
}

/// Trimming a line is taking the subrange between its outer whitespace.
proof fn lemma_trim_subrange(l: Seq<char>, a: int, b: int)
    requires
        0 <= a <= b <= l.len(),
        forall|k: int| 0 <= k < a ==> is_ws(l[k]),
        forall|k: int| b <= k < l.len() ==> is_ws(l[k]),
        a < b ==> !is_ws(l[a]) && !is_ws(l[b - 1]),
        a == b ==> b == l.len(),
    ensures
        trim(l) == l.subrange(a, b),
{
    lemma_trim_start_subrange(l, a);
    let m = l.subrange(a, l.len() as int);
    lemma_trim_end_subrange(m, b - a);
    assert(m.subrange(0, b - a) =~= l.subrange(a, b));
}

/// The trimming pass over a character vector: every newline-separated line
/// loses its surrounding whitespace.
fn trim_lines_exec(v: &Vec<char>) -> (out: Vec<char>)
    ensures
        out@ == trim_lines(v@),
{
    let n = v.len();
    let mut out: Vec<char> = Vec::new();
    let mut i: usize = 0;
    proof {
        assert(v@.subrange(0, n as int) =~= v@);
    }
    loop
        invariant_except_break
            trim_lines(v@) == out@ + trim_lines(v@.subrange(i as int, n as int)),
        invariant
            i <= n,
            n == v@.len(),
        ensures
            out@ == trim_lines(v@),
        decreases n - i,
    {
        let ghost rem = v@.subrange(i as int, n as int);
        let mut j: usize = i;
        while j < n && v[j] != '\n'
            invariant
                i <= j <= n,
                n == v@.len(),
                forall|k: int| i <= k < j ==> v@[k] != '\n',
            decreases n - j,
        {
            j = j + 1;
        }
        let mut a: usize = i;
        while a < j && is_ws_char(v[a])
            invariant
                i <= a <= j <= n,
                n == v@.len(),
                forall|k: int| i <= k < a ==> is_ws(v@[k]),
            decreases j - a,
        {
            a = a + 1;
        }
        let mut b: usize = j;
        while b > a && is_ws_char(v[b - 1])
            invariant
                a <= b <= j <= n,
                n == v@.len(),
                forall|k: int| b <= k < j ==> is_ws(v@[k]),
            decreases b,
        {
            b = b - 1;
        }
        let ghost line = v@.subrange(i as int, j as int);
        proof {
            if a < b {
                assert(!is_ws(v@[a as int]));
                assert(!is_ws(v@[b - 1]));
            }
            lemma_trim_subrange(line, a - i, b - i);
            assert(line.subrange(a - i, b - i) =~= v@.subrange(a as int, b as int));
            lemma_split_lines_first(rem, j - i);
            assert(rem.subrange(0, j - i) =~= line);
        }
        let ghost out_before = out@;
        let mut k: usize = a;
        while k < b
            invariant
                a <= k <= b <= n,
                n == v@.len(),
                out@ == out_before + v@.subrange(a as int, k as int),
            decreases b - k,
        {
            out.push(v[k]);
            k = k + 1;
            proof {
                assert(out_before + v@.subrange(a as int, k as int) =~= (out_before
                    + v@.subrange(a as int, k - 1)).push(v@[k - 1]));
            }
        }
        proof {
            assert(out@ == out_before + trim(line));
        }
        if j == n {
            proof {
                assert(split_lines(rem) == seq![rem]);
                assert(rem =~= line);
                assert(map_trim(seq![line]) =~= seq![trim(line)]);
                assert(trim_lines(rem) == trim(line));
                assert(out@ =~= out_before + trim_lines(rem));
            }
            break ;
        }
        out.push('\n');
        proof {
            let rem2 = v@.subrange(j + 1, n as int);
            assert(rem.subrange(j - i + 1, rem.len() as int) =~= rem2);
            assert(split_lines(rem) == seq![line] + split_lines(rem2));
            lemma_split_lines_nonempty(rem2);
            let ls = map_trim(split_lines(rem));
            assert(ls =~= seq![trim(line)] + map_trim(split_lines(rem2)));
            assert(ls.len() >= 2);
            assert(ls[0] == trim(line));
            assert(ls.drop_first() =~= map_trim(split_lines(rem2)));
            assert(trim_lines(rem) == trim(line) + seq!['\n'] + trim_lines(rem2));
            assert(out@ =~= out_before + trim(line) + seq!['\n']);
            assert(trim_lines(v@) == out@ + trim_lines(rem2));
        }
        i = j + 1;
    }
    out
}

// ---------------------------------------------------------------------------
// Laws of the sanitizer
// ---------------------------------------------------------------------------

/// No character of a CSI sequence is a newline.
proof fn lemma_csi_no_newline(s: Seq<char>, p: int)
    requires
        is_csi(s),
        0 <= p < s.len(),
    ensures
        s[p] != '\n',
{
    if 2 <= p < s.len() - 1 {
        assert(is_csi_param(s[p]));
    }
}

/// A CSI substring of a subrange of `s` is a CSI substring of `s`.
proof fn lemma_contains_csi_subrange(s: Seq<char>, lo: int, hi: int)
    requires
        0 <= lo <= hi <= s.len(),
        contains_csi(s.subrange(lo, hi)),
    ensures
        contains_csi(s),
{
    let sub = s.subrange(lo, hi);
    let (i, j) = choose|i: int, j: int| 0 <= i && i + 3 <= j <= sub.len() && is_csi(
        sub.subrange(i, j),
    );
    assert(sub.subrange(i, j) =~= s.subrange(lo + i, lo + j));
    assert(is_csi(s.subrange(lo + i, lo + j)));
}

/// What the backward scan finds is an opening with parameters up to `i0`.
proof fn lemma_csi_open_sound(s: Seq<char>, i0: int, j: int)
    requires
        0 <= i0 <= s.len(),
        csi_open_from(s, i0) == Some(j),
    ensures
        0 <= j && j + 2 <= i0,
        s[j] == esc_char() && s[j + 1] == '[',
        forall|k: int| j + 2 <= k < i0 ==> is_csi_param(s[k]),
    decreases i0,
{
    if i0 >= 2 && s[i0 - 2] == esc_char() && s[i0 - 1] == '[' {
    } else if i0 >= 1 && is_csi_param(s[i0 - 1]) {
        lemma_csi_open_sound(s, i0 - 1, j);
    }
}

/// An opening whose parameters reach `i0` does not escape the backward scan.
proof fn lemma_csi_open_complete(s: Seq<char>, i0: int, i: int)
    requires
        0 <= i && i + 2 <= i0 <= s.len(),
        s[i] == esc_char() && s[i + 1] == '[',
        forall|k: int| i + 2 <= k < i0 ==> is_csi_param(s[k]),
    ensures
        csi_open_from(s, i0) is Some,
    decreases i0,
{
    if i0 >= 2 && s[i0 - 2] == esc_char() && s[i0 - 1] == '[' {
    } else {
        assert(i + 2 < i0);
        assert(is_csi_param(s[i0 - 1]));
        lemma_csi_open_complete(s, i0 - 1, i);
    }
}

/// One stripping step keeps the output free of CSI sequences.
proof fn lemma_strip_step_no_csi(out: Seq<char>, c: char)
    requires
        !contains_csi(out),
    ensures
        !contains_csi(strip_step(out, c)),
{
    let res = strip_step(out, c);
    if c == 'm' || c == 'G' {
        match csi_open_from(out, out.len() as int) {
            Some(j) => {
                lemma_csi_open_sound(out, out.len() as int, j);
                if contains_csi(res) {
                    lemma_contains_csi_subrange(out, 0, j);
                }
            },
            None => {
                if contains_csi(res) {
                    let (i, j2) = choose|i: int, j2: int|
                        0 <= i && i + 3 <= j2 <= res.len() && is_csi(res.subrange(i, j2));
                    if j2 <= out.len() {
                        assert(res.subrange(i, j2) =~= out.subrange(i, j2));
                        assert(is_csi(out.subrange(i, j2)));
                        assert(contains_csi(out));
                    } else {
                        let sub = res.subrange(i, j2);
                        assert(out[i] == sub[0]);
                        assert(out[i + 1] == sub[1]);
                        assert forall|k: int| i + 2 <= k < out.len() implies is_csi_param(
                            out[k],
                        ) by {
                            assert(out[k] == sub[k - i]);
                            assert(2 <= k - i < sub.len() - 1);
                        }
                        lemma_csi_open_complete(out, out.len() as int, i);
                    }
                }
            },
        }
    } else {
        if contains_csi(res) {
            let (i, j2) = choose|i: int, j2: int|
                0 <= i && i + 3 <= j2 <= res.len() && is_csi(res.subrange(i, j2));
            if j2 <= out.len() {
                assert(res.subrange(i, j2) =~= out.subrange(i, j2));
                assert(is_csi(out.subrange(i, j2)));
                assert(contains_csi(out));
            } else {
                assert(res.subrange(i, j2).last() == c);
            }
        }
    }
}

/// The stripping pass leaves no CSI sequence in its output.
pub proof fn lemma_strip_no_csi(s: Seq<char>)
    ensures
        !contains_csi(strip_ansi(s)),
    decreases s.len(),
{
    if s.len() == 0 {
        assert(!contains_csi(Seq::<char>::empty()));
    } else {
        lemma_strip_no_csi(s.drop_last());
        lemma_strip_step_no_csi(strip_ansi(s.drop_last()), s.last());
    }
}

/// Stripping is the identity on text without CSI sequences.
pub proof fn lemma_strip_identity(s: Seq<char>)
    requires
        !contains_csi(s),
    ensures
        strip_ansi(s) == s,
    decreases s.len(),
{
    if s.len() == 0 {
        assert(strip_ansi(s) =~= s);
    } else {
        let p = s.drop_last();
        let c = s.last();
        assert(p =~= s.subrange(0, s.len() - 1));
        if contains_csi(p) {
            lemma_contains_csi_subrange(s, 0, s.len() - 1);
        }
        lemma_strip_identity(p);
        if c == 'm' || c == 'G' {
            match csi_open_from(p, p.len() as int) {
                Some(j) => {
                    lemma_csi_open_sound(p, p.len() as int, j);
                    let sub = s.subrange(j, s.len() as int);
                    assert(sub[0] == s[j] && s[j] == p[j]);
                    assert(sub[1] == s[j + 1] && s[j + 1] == p[j + 1]);
                    assert(sub.last() == c);
                    assert forall|k: int| 2 <= k < sub.len() - 1 implies is_csi_param(
                        sub[k],
                    ) by {
                        assert(sub[k] == p[j + k]);
                        assert(j + 2 <= j + k < p.len());
                    }
                    assert(is_csi(sub));
                    assert(contains_csi(s));
                },
                None => {
                    assert(p.push(c) =~= s);
                },
            }
        } else {
            assert(p.push(c) =~= s);
        }
    }
}

/// No line produced by `split_lines` contains a newline.
proof fn lemma_split_lines_no_newline(s: Seq<char>)
    ensures
        forall|k: int, p: int|
            0 <= k < split_lines(s).len() && 0 <= p < split_lines(s)[k].len()
                ==> #[trigger] split_lines(s)[k][p] != '\n',
    decreases s.len(),
{
    if s.len() == 0 {
    } else {
        let t = s.drop_first();
        lemma_split_lines_no_newline(t);
        lemma_split_lines_nonempty(t);
        let rest = split_lines(t);
        if s[0] == '\n' {
            assert forall|k: int, p: int|
                0 <= k < split_lines(s).len() && 0 <= p < split_lines(s)[k].len() implies #[trigger] split_lines(
                s,
            )[k][p] != '\n' by {
                if k >= 1 {
                    assert(split_lines(s)[k] == rest[k - 1]);
                }
            }
        } else {
            assert forall|k: int, p: int|
                0 <= k < split_lines(s).len() && 0 <= p < split_lines(s)[k].len() implies #[trigger] split_lines(
                s,
            )[k][p] != '\n' by {
                if k == 0 {
                    assert(split_lines(s)[0] == seq![s[0]] + rest[0]);
                    if p >= 1 {
                        assert(split_lines(s)[0][p] == rest[0][p - 1]);
                    }
                } else {
                    assert(split_lines(s)[k] == rest.drop_first()[k - 1]);
                    assert(split_lines(s)[k] == rest[k]);
                }
            }
        }
    }
}

/// The first line of `s` is a prefix of `s`.
proof fn lemma_first_line_prefix(s: Seq<char>)
    ensures
        split_lines(s)[0].len() <= s.len(),
        split_lines(s)[0] == s.subrange(0, split_lines(s)[0].len() as int),
    decreases s.len(),
{
    if s.len() == 0 {
        assert(split_lines(s)[0] =~= s.subrange(0, 0));
    } else if s[0] == '\n' {
        assert(split_lines(s)[0] =~= s.subrange(0, 0));
    } else {
        let t = s.drop_first();
        lemma_first_line_prefix(t);
        lemma_split_lines_nonempty(t);
        let rest = split_lines(t);
        let l = split_lines(s)[0];
        assert(l == seq![s[0]] + rest[0]);
        assert(l =~= s.subrange(0, l.len() as int));
    }
}

/// Every line of `s` is a contiguous subrange of `s`.
proof fn lemma_line_substring(s: Seq<char>, k: int)
    requires
        0 <= k < split_lines(s).len(),
    ensures
        exists|off: int|
            0 <= off && off + split_lines(s)[k].len() <= s.len() && #[trigger] s.subrange(
                off,
                off + split_lines(s)[k].len() as int,
            ) == split_lines(s)[k],
    decreases s.len(),
{
    let l = split_lines(s)[k];
    if k == 0 {
        lemma_first_line_prefix(s);
        assert(0 <= 0 && 0 + l.len() <= s.len() && s.subrange(0, 0 + l.len() as int) == l);
    } else {
        let t = s.drop_first();
        lemma_split_lines_nonempty(t);
        let rest = split_lines(t);
        if s[0] == '\n' {
            assert(l == rest[k - 1]);
            lemma_line_substring(t, k - 1);
            let off = choose|off: int|
                0 <= off && off + rest[k - 1].len() <= t.len() && #[trigger] t.subrange(
                    off,
                    off + rest[k - 1].len() as int,
                ) == rest[k - 1];
            assert(s.subrange(off + 1, off + 1 + l.len() as int) =~= t.subrange(
                off,
                off + l.len() as int,
            ));
            assert(s.subrange(off + 1, off + 1 + l.len() as int) == l);
        } else {
            assert(l == rest.drop_first()[k - 1]);
            assert(l == rest[k]);
            lemma_line_substring(t, k);
            let off = choose|off: int|
                0 <= off && off + rest[k].len() <= t.len() && #[trigger] t.subrange(
                    off,
                    off + rest[k].len() as int,
                ) == rest[k];
            assert(s.subrange(off + 1, off + 1 + l.len() as int) =~= t.subrange(
                off,
                off + l.len() as int,
            ));
            assert(s.subrange(off + 1, off + 1 + l.len() as int) == l);
        }
    }
}

/// `trim_start` keeps a suffix of its argument.
proof fn lemma_trim_start_suffix(l: Seq<char>)
    ensures
        trim_start(l).len() <= l.len(),
        trim_start(l) == l.subrange(l.len() - trim_start(l).len(), l.len() as int),
    decreases l.len(),
{
    if l.len() > 0 && is_ws(l[0]) {
        let t = l.drop_first();
        lemma_trim_start_suffix(t);
        assert(t.subrange(t.len() - trim_start(t).len(), t.len() as int) =~= l.subrange(
            l.len() - trim_start(l).len(),
            l.len() as int,
        ));
    } else {
        assert(l.subrange(0, l.len() as int) =~= l);
    }
}

/// `trim_end` keeps a prefix of its argument.
proof fn lemma_trim_end_prefix(l: Seq<char>)
    ensures
        trim_end(l).len() <= l.len(),
        trim_end(l) == l.subrange(0, trim_end(l).len() as int),
    decreases l.len(),
{
    if l.len() > 0 && is_ws(l.last()) {
        let t = l.drop_last();
        lemma_trim_end_prefix(t);
        assert(t.subrange(0, trim_end(t).len() as int) =~= l.subrange(
            0,
            trim_end(l).len() as int,
        ));
    } else {
        assert(l.subrange(0, l.len() as int) =~= l);
    }
}

/// Trimming keeps a contiguous subrange of the line.
proof fn lemma_trim_is_subrange(l: Seq<char>)
    ensures
        exists|a: int, b: int| 0 <= a <= b <= l.len() && #[trigger] l.subrange(a, b) == trim(l),
{
    lemma_trim_start_suffix(l);
    let ts = trim_start(l);
    let a = l.len() - ts.len();
    lemma_trim_end_prefix(ts);
    let b = a + trim_end(ts).len();
    assert(l.subrange(a, b as int) =~= ts.subrange(0, trim_end(ts).len() as int));
    assert(0 <= a <= b <= l.len() && l.subrange(a, b as int) == trim(l));
}

/// After trimming, a line neither starts nor ends with whitespace.
proof fn lemma_trim_start_skip(l: Seq<char>)
    ensures
        trim_start(l).len() > 0 ==> !is_ws(trim_start(l)[0]),
    decreases l.len(),
{
    if l.len() > 0 && is_ws(l[0]) {
        lemma_trim_start_skip(l.drop_first());
    }
}

proof fn lemma_trim_end_skip(l: Seq<char>)
    ensures
        trim_end(l).len() > 0 ==> !is_ws(trim_end(l).last()),
    decreases l.len(),
{
    if l.len() > 0 && is_ws(l.last()) {
        lemma_trim_end_skip(l.drop_last());
    }
}

/// Trimming an already trimmed line changes nothing.
pub proof fn lemma_trim_idempotent(l: Seq<char>)
    ensures
        trim(trim(l)) == trim(l),
{
    let ts = trim_start(l);
    let r = trim_end(ts);
    lemma_trim_start_skip(l);
    lemma_trim_end_prefix(ts);
    lemma_trim_end_skip(ts);
    if r.len() == 0 {
        assert(trim(trim(l)) == trim(r));
    } else {
        assert(r[0] == ts[0]);
        assert(!is_ws(r[0]));
        assert(trim_start(r) == r);
        assert(!is_ws(r.last()));
        assert(trim_end(r) == r);
    }
}

/// Splitting the joined lines gives the lines back, provided none of them
/// contains a newline.
proof fn lemma_split_of_join(ls: Seq<Seq<char>>)
    requires
        ls.len() >= 1,
        forall|k: int, p: int|
            0 <= k < ls.len() && 0 <= p < ls[k].len() ==> #[trigger] ls[k][p] != '\n',
    ensures
        split_lines(join_lines(ls)) == ls,
    decreases ls.len(),
{
    if ls.len() == 1 {
        let l = ls[0];
        assert(forall|p: int| 0 <= p < l.len() ==> #[trigger] l[p] != '\n');
        lemma_split_lines_first(l, l.len() as int);
        assert(split_lines(join_lines(ls)) =~= ls);
    } else {
        let l0 = ls[0];
        let rest = ls.drop_first();
        let s = join_lines(ls);
        assert(s == l0 + seq!['\n'] + join_lines(rest));
        assert forall|k: int| 0 <= k < l0.len() implies s[k] != '\n' by {
            assert(s[k] == l0[k]);
        }
        assert(s[l0.len() as int] == '\n');
        lemma_split_lines_first(s, l0.len() as int);
        assert(s.subrange(0, l0.len() as int) =~= l0);
        assert(s.subrange(l0.len() as int + 1, s.len() as int) =~= join_lines(rest));
        assert forall|k: int, p: int|
            0 <= k < rest.len() && 0 <= p < rest[k].len() implies #[trigger] rest[k][p]
            != '\n' by {
            assert(rest[k] == ls[k + 1]);
        }
        lemma_split_of_join(rest);
        assert(split_lines(s) =~= ls);
    }
}

/// A window of the joined lines that contains no newline lies within one
/// line.
proof fn lemma_join_window(ls: Seq<Seq<char>>, i: int, j: int)
    requires
        ls.len() >= 1,
        0 <= i <= j <= join_lines(ls).len(),
        forall|p: int| i <= p < j ==> #[trigger] join_lines(ls)[p] != '\n',
    ensures
        exists|m: int, off: int|
            0 <= m < ls.len() && 0 <= off && off + (j - i) <= ls[m].len() && #[trigger] ls[
                m
            ].subrange(off, off + (j - i)) == join_lines(ls).subrange(i, j),
    decreases ls.len(),
{
    let s = join_lines(ls);
    if ls.len() == 1 {
        assert(ls[0].subrange(i, i + (j - i)) =~= s.subrange(i, j));
        assert(0 <= 0 < ls.len() && 0 <= i && i + (j - i) <= ls[0].len() && ls[0].subrange(
            i,
            i + (j - i),
        ) == s.subrange(i, j));
    } else {
        let l0 = ls[0];
        let rest = ls.drop_first();
        assert(s == l0 + seq!['\n'] + join_lines(rest));
        if j <= l0.len() {
            assert(l0.subrange(i, i + (j - i)) =~= s.subrange(i, j));
            assert(0 <= 0 < ls.len() && 0 <= i && i + (j - i) <= ls[0].len() && ls[0].subrange(
                i,
                i + (j - i),
            ) == s.subrange(i, j));
        } else if i >= l0.len() + 1 {
            let i2 = i - l0.len() - 1;
            let j2 = j - l0.len() - 1;
            assert forall|p: int| i2 <= p < j2 implies #[trigger] join_lines(rest)[p] != '\n' by {
                assert(join_lines(rest)[p] == s[p + l0.len() + 1]);
            }
            lemma_join_window(rest, i2, j2);
            let (m, off) = choose|m: int, off: int|
                0 <= m < rest.len() && 0 <= off && off + (j2 - i2) <= rest[m].len()
                    && #[trigger] rest[m].subrange(off, off + (j2 - i2)) == join_lines(
                    rest,
                ).subrange(i2, j2);
            assert(join_lines(rest).subrange(i2, j2) =~= s.subrange(i, j));
            assert(ls[m + 1] == rest[m]);
            assert(0 <= m + 1 < ls.len() && 0 <= off && off + (j - i) <= ls[m + 1].len() && ls[m
                + 1].subrange(off, off + (j - i)) == s.subrange(i, j));
        } else {
            assert(s[l0.len() as int] == '\n');
            assert(i <= l0.len() < j);
            assert(false);
        }
    }
}

/// Splitting the trimmed text gives exactly the trimmed lines.
pub proof fn lemma_split_trim_lines(t: Seq<char>)
    ensures
        split_lines(trim_lines(t)) == map_trim(split_lines(t)),
{
    let ls = split_lines(t);
    let mt = map_trim(ls);
    lemma_split_lines_nonempty(t);
    lemma_split_lines_no_newline(t);
    assert forall|k: int, p: int|
        0 <= k < mt.len() && 0 <= p < mt[k].len() implies #[trigger] mt[k][p] != '\n' by {
        assert(mt[k] == trim(ls[k]));
        lemma_trim_is_subrange(ls[k]);
        let (a, b) = choose|a: int, b: int|
            0 <= a <= b <= ls[k].len() && #[trigger] ls[k].subrange(a, b) == trim(ls[k]);
        assert(mt[k][p] == ls[k][a + p]);
    }
    lemma_split_of_join(mt);
}

/// The sanitizer's output never contains an ANSI CSI sequence.
pub proof fn lemma_sanitize_no_csi(s: Seq<char>)
    ensures
        !contains_csi(sanitize_spec(s)),
{
    let t = strip_ansi(s);
    lemma_strip_no_csi(s);
    let ls = split_lines(t);
    let mt = map_trim(ls);
    let res = trim_lines(t);
    lemma_split_lines_nonempty(t);
    lemma_split_lines_no_newline(t);
    if contains_csi(res) {
        let (i, j) = choose|i: int, j: int|
            0 <= i && i + 3 <= j <= res.len() && is_csi(res.subrange(i, j));
        let w = res.subrange(i, j);
        assert forall|p: int| i <= p < j implies #[trigger] res[p] != '\n' by {
            assert(res[p] == w[p - i]);
            lemma_csi_no_newline(w, p - i);
        }
        assert forall|k: int, p: int|
            0 <= k < mt.len() && 0 <= p < mt[k].len() implies #[trigger] mt[k][p] != '\n' by {
            assert(mt[k] == trim(ls[k]));
            lemma_trim_is_subrange(ls[k]);
            let (a, b) = choose|a: int, b: int|
                0 <= a <= b <= ls[k].len() && #[trigger] ls[k].subrange(a, b) == trim(ls[k]);
            assert(mt[k][p] == ls[k][a + p]);
        }
        lemma_join_window(mt, i, j);
        let (m, off) = choose|m: int, off: int|
            0 <= m < mt.len() && 0 <= off && off + (j - i) <= mt[m].len() && #[trigger] mt[
                m
            ].subrange(off, off + (j - i)) == res.subrange(i, j);
        assert(is_csi(mt[m].subrange(off, off + (j - i))));
        assert(contains_csi(mt[m]));
        lemma_trim_is_subrange(ls[m]);
        let (a, b) = choose|a: int, b: int|
            0 <= a <= b <= ls[m].len() && #[trigger] ls[m].subrange(a, b) == trim(ls[m]);
        assert(mt[m] == ls[m].subrange(a, b));
        lemma_contains_csi_subrange(ls[m], a, b);
        lemma_line_substring(t, m);
        let off2 = choose|off2: int|
            0 <= off2 && off2 + ls[m].len() <= t.len() && #[trigger] t.subrange(
                off2,
                off2 + ls[m].len() as int,
            ) == ls[m];
        lemma_contains_csi_subrange(t, off2, off2 + ls[m].len() as int);
        assert(false);
    }
}

/// Each line of the sanitizer's output is the corresponding line of the
/// stripped input with its surrounding whitespace removed.
pub proof fn lemma_sanitize_lines(s: Seq<char>)
    ensures
        split_lines(sanitize_spec(s)).len() == split_lines(strip_ansi(s)).len(),
        forall|k: int|
            0 <= k < split_lines(strip_ansi(s)).len() ==> #[trigger] split_lines(
                sanitize_spec(s),
            )[k] == trim(split_lines(strip_ansi(s))[k]),
{
    lemma_split_trim_lines(strip_ansi(s));
}

/// For input free of CSI sequences, each output line is the corresponding
/// input line with its surrounding whitespace removed.
pub proof fn lemma_sanitize_lines_no_csi(s: Seq<char>)
    requires
        !contains_csi(s),
    ensures
        split_lines(sanitize_spec(s)).len() == split_lines(s).len(),
        forall|k: int|
            0 <= k < split_lines(s).len() ==> #[trigger] split_lines(sanitize_spec(s))[k] == trim(
                split_lines(s)[k],
            ),
{
    lemma_strip_identity(s);
    lemma_sanitize_lines(s);
}

/// Empty input yields empty output.
pub proof fn lemma_sanitize_empty()
    ensures
        sanitize_spec(Seq::<char>::empty()) == Seq::<char>::empty(),
{
    let e = Seq::<char>::empty();
    assert(strip_ansi(e) == e);
    assert(split_lines(e) == seq![e]);
    assert(trim_start(e) == e);
    assert(trim_end(e) == e);
    assert(map_trim(seq![e]) =~= seq![e]);
    assert(join_lines(seq![e]) == e);
}

/// Sanitizing is idempotent.
pub proof fn lemma_sanitize_idempotent(s: Seq<char>)
    ensures
        sanitize_spec(sanitize_spec(s)) == sanitize_spec(s),
{
    let t = strip_ansi(s);
    let y = sanitize_spec(s);
    lemma_sanitize_no_csi(s);
    lemma_strip_identity(y);
    lemma_split_trim_lines(t);
    let ls = split_lines(t);
    assert(split_lines(y) == map_trim(ls));
    assert forall|k: int| 0 <= k < map_trim(ls).len() implies #[trigger] map_trim(map_trim(ls))[k]
        == map_trim(ls)[k] by {
        assert(map_trim(map_trim(ls))[k] == trim(map_trim(ls)[k]));
        assert(map_trim(ls)[k] == trim(ls[k]));
        lemma_trim_idempotent(ls[k]);
    }
    assert(map_trim(map_trim(ls)) =~= map_trim(ls));
    assert(trim_lines(y) == join_lines(map_trim(split_lines(y))));
    assert(map_trim(split_lines(y)) == map_trim(ls));
    assert(sanitize_spec(sanitize_spec(s)) == trim_lines(y));
    assert(trim_lines(y) == join_lines(map_trim(ls)));
    assert(join_lines(map_trim(ls)) == trim_lines(t));
}

/// Sanitizes captured error output: removes ANSI CSI color sequences and
/// trims the surrounding whitespace of every line.
pub fn clean_error_output(error_output: &str) -> (r: String)
    ensures
        r@ == sanitize_spec(error_output@),
{
    let v = str_to_chars(error_output);
    let stripped = strip_ansi_exec(&v);
    let trimmed = trim_lines_exec(&stripped);
    string_from_chars(&trimmed)
}

} // verus!

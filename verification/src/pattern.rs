//! The command grammar: how inbound message text is recognized as a
//! command with arguments, as inline math, or as neither.
use vstd::prelude::*;
use vstd::string::StrSliceExecFns;
use crate::text::to_char_vec;

verus! {

/// Whether `p` is a prefix of `s`.
pub open spec fn starts_with(s: Seq<char>, p: Seq<char>) -> bool {
    p.len() <= s.len() && s.subrange(0, p.len() as int) == p
}

/// Whether `cs` starts with `p`.
pub fn starts_with_exec(cs: &Vec<char>, p: &Vec<char>) -> (r: bool)
    ensures
        r == starts_with(cs@, p@),
{
    let pl = p.len();
    if pl > cs.len() {
        return false;
    }
    range_eq(cs, 0, pl, p)
}

/// Whether the characters of `cs` from `from` to `to` are exactly `w`.
pub fn range_eq(cs: &Vec<char>, from: usize, to: usize, w: &Vec<char>) -> (r: bool)
    requires
        from <= to <= cs@.len(),
    ensures
        r == (cs@.subrange(from as int, to as int) == w@),
{
    if to - from != w.len() {
        return false;
    }
    let mut k: usize = 0;
    while k < w.len()
        invariant
            from <= to <= cs@.len(),
            to - from == w@.len(),
            k <= w@.len(),
            forall|t: int| 0 <= t < k ==> cs@[from + t] == w@[t],
        decreases w@.len() - k,
    {
        if cs[from + k] != w[k] {
            proof {
                assert(cs@.subrange(from as int, to as int)[k as int] != w@[k as int]);
            }
            return false;
        }
        k = k + 1;
    }
    proof {
        assert(cs@.subrange(from as int, to as int) =~= w@);
    }
    true
}

/// The first position at or after `i` where `c` occurs in `s`, or the
/// length of `s` when it does not occur there.
pub open spec fn find_char_from(s: Seq<char>, c: char, i: int) -> int
    decreases s.len() - i,
{
    if i >= s.len() {
        s.len() as int
    } else if 0 <= i && s[i] == c {
        i
    } else {
        find_char_from(s, c, i + 1)
    }
}

proof fn lemma_find_char_from(s: Seq<char>, c: char, from: int, at: int)
    requires
        0 <= from <= at <= s.len(),
        forall|t: int| from <= t < at ==> s[t] != c,
        at == s.len() || s[at] == c,
    ensures
        find_char_from(s, c, from) == at,
    decreases at - from,
{
    if from < at {
        lemma_find_char_from(s, c, from + 1, at);
    }
}

/// The first position at or after `from` holding `c`, or the length of
/// `cs` when none does.
pub fn find_char_exec(cs: &Vec<char>, c: char, from: usize) -> (r: usize)
    requires
        from <= cs@.len(),
    ensures
        r as int == find_char_from(cs@, c, from as int),
        from <= r <= cs@.len(),
        r < cs@.len() ==> cs@[r as int] == c,
        forall|t: int| from <= t < r ==> cs@[t] != c,
{
    let n = cs.len();
    let mut i: usize = from;
    while i < n
        invariant
            from <= i <= n,
            n == cs@.len(),
            forall|t: int| from <= t < i ==> cs@[t] != c,
        decreases n - i,
    {
        if cs[i] == c {
            proof {
                lemma_find_char_from(cs@, c, from as int, i as int);
            }
            return i;
        }
        i = i + 1;
    }
    proof {
        lemma_find_char_from(cs@, c, from as int, n as int);
    }
    n
}

/// Whether `c` counts as whitespace for the inline-math delimiter rule.
pub open spec fn is_space(c: char) -> bool {
    c == ' ' || c == '\t' || c == '\n' || c == '\r' || c == '\u{b}' || c == '\u{c}'
}

/// Whether `c` may not stand directly inside an inline-math delimiter.
pub open spec fn is_space_or_dollar(c: char) -> bool {
    is_space(c) || c == '$'
}

fn is_space_or_dollar_exec(c: char) -> (r: bool)
    ensures
        r == is_space_or_dollar(c),
{
    c == ' ' || c == '\t' || c == '\n' || c == '\r' || c == '\u{b}' || c == '\u{c}' || c == '$'
}

/// An inline-math span in `s`: `d` dollar signs at `i` (one or two), an
/// inner text from `i + d` up to `j` that is nonempty, stays on one
/// line, and neither begins nor ends with whitespace or a dollar sign,
/// then `d` closing dollar signs at `j`.
pub open spec fn inline_span_at(s: Seq<char>, i: int, j: int, d: int) -> bool {
    &&& (d == 1 || d == 2)
    &&& 0 <= i
    &&& i + d < j
    &&& j + d <= s.len()
    &&& (forall|k: int| i <= k < i + d ==> s[k] == '$')
    &&& (forall|k: int| j <= k < j + d ==> s[k] == '$')
    &&& !is_space_or_dollar(s[i + d])
    &&& !is_space_or_dollar(s[j - 1])
    &&& (forall|k: int| i + d <= k < j ==> s[k] != '\n')
}

/// Whether `s` holds an inline-math span anywhere.
pub open spec fn has_inline_math(s: Seq<char>) -> bool {
    exists|i: int, j: int, d: int| inline_span_at(s, i, j, d)
}

fn span_at(cs: &Vec<char>, i: usize, j: usize, d: usize) -> (r: bool)
    requires
        d == 1 || d == 2,
    ensures
        r == inline_span_at(cs@, i as int, j as int, d as int),
{
    let n = cs.len();
    if n < d || j > n - d {
        return false;
    }
    if j <= i || j - i <= d {
        return false;
    }
    if cs[i] != '$' {
        return false;
    }
    if d == 2 && cs[i + 1] != '$' {
        return false;
    }
    if cs[j] != '$' {
        return false;
    }
    if d == 2 && cs[j + 1] != '$' {
        return false;
    }
    if is_space_or_dollar_exec(cs[i + d]) {
        return false;
    }
    if is_space_or_dollar_exec(cs[j - 1]) {
        return false;
    }
    let mut k: usize = i + d;
    while k < j
        invariant
            i + d <= k <= j,
            j < n == cs@.len(),
            forall|t: int| i + d <= t < k ==> cs@[t] != '\n',
        decreases j - k,
    {
        if cs[k] == '\n' {
            return false;
        }
        k = k + 1;
    }
    true
}

/// Whether `cs` holds an inline-math span anywhere.
pub fn has_inline_math_exec(cs: &Vec<char>) -> (r: bool)
    ensures
        r == has_inline_math(cs@),
{
    let n = cs.len();
    let mut i: usize = 0;
    while i < n
        invariant
            i <= n,
            n == cs@.len(),
            forall|ii: int, jj: int, dd: int|
                0 <= ii < i ==> !#[trigger] inline_span_at(cs@, ii, jj, dd),
        decreases n - i,
    {
        let mut j: usize = 0;
        while j < n
            invariant
                i < n == cs@.len(),
                j <= n,
                forall|ii: int, jj: int, dd: int|
                    0 <= ii < i ==> !#[trigger] inline_span_at(cs@, ii, jj, dd),
                forall|jj: int, dd: int|
                    0 <= jj < j ==> !#[trigger] inline_span_at(cs@, i as int, jj, dd),
            decreases n - j,
        {
            if span_at(cs, i, j, 1) {
                return true;
            }
            if span_at(cs, i, j, 2) {
                return true;
            }
            proof {
                assert forall|dd: int| !inline_span_at(cs@, i as int, j as int, dd) by {
                    if dd == 1 || dd == 2 {
                    } else {
                        assert(!inline_span_at(cs@, i as int, j as int, dd));
                    }
                }
            }
            j = j + 1;
        }
        proof {
            assert forall|jj: int, dd: int| !inline_span_at(cs@, i as int, jj, dd) by {
                if 0 <= jj < n {
                } else {
                    assert(!inline_span_at(cs@, i as int, jj, dd));
                }
            }
        }
        i = i + 1;
    }
    proof {
        assert forall|ii: int, jj: int, dd: int| !inline_span_at(cs@, ii, jj, dd) by {
            if 0 <= ii < n {
            } else {
                assert(!inline_span_at(cs@, ii, jj, dd));
            }
        }
    }
    false
}

/// The shrug sequence whose presence keeps a message out of inline
/// rendering.
pub open spec fn shrug_seq() -> Seq<char> {
    seq!['\u{af}', '\\', '\\', '_', '\u{30c4}', '\\', '_', '/', '\u{af}']
}

/// The shrug sequence as characters.
pub fn shrug_chars() -> (v: Vec<char>)
    ensures
        v@ == shrug_seq(),
{
    let v = vec!['\u{af}', '\\', '\\', '_', '\u{30c4}', '\\', '_', '/', '\u{af}'];
    proof {
        assert(v@ =~= shrug_seq());
    }
    v
}

/// Whether every character of `cs` between `from` and `to` is a space.
pub fn all_spaces_range(cs: &Vec<char>, from: usize, to: usize) -> (r: bool)
    requires
        from <= to <= cs@.len(),
    ensures
        r == blank(cs@.subrange(from as int, to as int)),
{
    let mut k: usize = from;
    while k < to
        invariant
            from <= k <= to <= cs@.len(),
            forall|t: int| from <= t < k ==> cs@[t] == ' ',
        decreases to - k,
    {
        if cs[k] != ' ' {
            proof {
                assert(cs@.subrange(from as int, to as int)[k - from] != ' ');
            }
            return false;
        }
        k = k + 1;
    }
    true
}

/// Whether `s` holds nothing but spaces.
pub open spec fn blank(s: Seq<char>) -> bool {
    forall|i: int| 0 <= i < s.len() ==> s[i] == ' '
}

/// `s` with one trailing newline removed, the way the line-anchored edit
/// patterns read a message.
pub open spec fn line_of(s: Seq<char>) -> Seq<char> {
    if s.len() > 0 && s.last() == '\n' {
        s.drop_last()
    } else {
        s
    }
}

/// Whether no newline occurs in `s`.
pub open spec fn single_line(s: Seq<char>) -> bool {
    forall|k: int| 0 <= k < s.len() ==> s[k] != '\n'
}

/// Whether `s` matches the line-anchored edit pattern for the command
/// word `w` under `prefix`: the prefix, the word, one space, then the
/// argument text, all on one line.
pub open spec fn edit_cmd_match(prefix: Seq<char>, w: Seq<char>, s: Seq<char>) -> bool {
    let l = line_of(s);
    let head = prefix + w + seq![' '];
    starts_with(l, head) && single_line(l.subrange(head.len() as int, l.len() as int))
}

/// The argument text of a message matching the edit pattern for `w`.
pub open spec fn edit_cmd_args(prefix: Seq<char>, w: Seq<char>, s: Seq<char>) -> Seq<char> {
    let l = line_of(s);
    let head = prefix + w + seq![' '];
    l.subrange(head.len() as int, l.len() as int)
}

/// Matches `content` against the line-anchored edit pattern for the
/// command word `w` under `prefix`, returning the argument text.
pub fn edit_match(prefix: &str, w: &Vec<char>, content: &str) -> (r: Option<String>)
    ensures
        match r {
            Some(a) => edit_cmd_match(prefix@, w@, content@) && a@ == edit_cmd_args(
                prefix@,
                w@,
                content@,
            ),
            None => !edit_cmd_match(prefix@, w@, content@),
        },
{
    let cs = to_char_vec(content);
    let pv = to_char_vec(prefix);
    let n = cs.len();
    let line_len = if n > 0 && cs[n - 1] == '\n' {
        n - 1
    } else {
        n
    };
    proof {
        assert(line_of(content@) =~= cs@.subrange(0, line_len as int));
    }
    let pl = pv.len();
    let wl = w.len();
    if line_len < pl || line_len - pl < wl || line_len - pl - wl < 1 {
        proof {
            let head = prefix@ + w@ + seq![' '];
            assert(head.len() == pl + wl + 1);
            assert(!starts_with(line_of(content@), head));
        }
        return None;
    }
    let head_len = pl + wl + 1;
    if !range_eq(&cs, 0, pl, &pv) {
        proof {
            let l = line_of(content@);
            let head = prefix@ + w@ + seq![' '];
            if starts_with(l, head) {
                assert(l.subrange(0, head.len() as int) == head);
                assert(cs@.subrange(0, pl as int) =~= head.subrange(0, pl as int));
                assert(head.subrange(0, pl as int) =~= prefix@);
            }
        }
        return None;
    }
    if !range_eq(&cs, pl, pl + wl, w) {
        proof {
            let l = line_of(content@);
            let head = prefix@ + w@ + seq![' '];
            if starts_with(l, head) {
                assert(l.subrange(0, head.len() as int) == head);
                assert forall|t: int| 0 <= t < wl implies l[pl + t] == w@[t] by {
                    assert(head[pl + t] == w@[t]);
                }
                assert(cs@.subrange(pl as int, (pl + wl) as int) =~= w@);
            }
        }
        return None;
    }
    if cs[pl + wl] != ' ' {
        proof {
            let l = line_of(content@);
            let head = prefix@ + w@ + seq![' '];
            if starts_with(l, head) {
                assert(l.subrange(0, head.len() as int) == head);
                assert(l[pl + wl] == head[pl + wl]);
                assert(head[pl + wl] == ' ');
            }
        }
        return None;
    }
    let nl = find_char_exec(&cs, '\n', head_len);
    if nl < line_len {
        proof {
            let l = line_of(content@);
            let head = prefix@ + w@ + seq![' '];
            assert(l.subrange(head.len() as int, l.len() as int)[nl - head_len] == '\n');
        }
        return None;
    }
    proof {
        let l = line_of(content@);
        let head = prefix@ + w@ + seq![' '];
        assert(l.subrange(0, head.len() as int) =~= head) by {
            assert(cs@.subrange(0, pl as int) == prefix@);
            assert(cs@.subrange(pl as int, (pl + wl) as int) == w@);
            assert forall|t: int| 0 <= t < head.len() implies l[t] == head[t] by {
                if t < pl {
                    assert(cs@.subrange(0, pl as int)[t] == prefix@[t]);
                } else if t < pl + wl {
                    assert(cs@.subrange(pl as int, (pl + wl) as int)[t - pl] == w@[t - pl]);
                }
            }
        }
        assert(starts_with(l, head));
        assert(single_line(l.subrange(head.len() as int, l.len() as int)));
    }
    let args = content.substring_char(head_len, line_len);
    proof {
        assert(args@ =~= edit_cmd_args(prefix@, w@, content@));
    }
    Some(args.to_owned())
}

} // verus!

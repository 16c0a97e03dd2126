//! Small verified helpers on characters, strings and numbers that the
//! rest of the crate builds message text from.
use vstd::prelude::*;
use vstd::string::StrSliceExecFns;
use vstd::string::StringExecFns;

verus! {

/// The decimal digit character for `d`, which must be below ten.
pub open spec fn digit_char(d: nat) -> char {
    if d == 0 {
        '0'
    } else if d == 1 {
        '1'
    } else if d == 2 {
        '2'
    } else if d == 3 {
        '3'
    } else if d == 4 {
        '4'
    } else if d == 5 {
        '5'
    } else if d == 6 {
        '6'
    } else if d == 7 {
        '7'
    } else if d == 8 {
        '8'
    } else {
        '9'
    }
}

/// The decimal representation of `n`, most significant digit first.
pub open spec fn dec_seq(n: nat) -> Seq<char>
    decreases n,
{
    if n < 10 {
        seq![digit_char(n)]
    } else {
        dec_seq(n / 10).push(digit_char(n % 10))
    }
}

fn digit_str(d: u64) -> (r: &'static str)
    requires
        d < 10,
    ensures
        r@ == seq![digit_char(d as nat)],
{
    if d == 0 {
        proof {
            reveal_strlit("0");
            assert("0"@ =~= seq![digit_char(0)]);
        }
        "0"
    } else if d == 1 {
        proof {
            reveal_strlit("1");
            assert("1"@ =~= seq![digit_char(1)]);
        }
        "1"
    } else if d == 2 {
        proof {
            reveal_strlit("2");
            assert("2"@ =~= seq![digit_char(2)]);
        }
        "2"
    } else if d == 3 {
        proof {
            reveal_strlit("3");
            assert("3"@ =~= seq![digit_char(3)]);
        }
        "3"
    } else if d == 4 {
        proof {
            reveal_strlit("4");
            assert("4"@ =~= seq![digit_char(4)]);
        }
        "4"
    } else if d == 5 {
        proof {
            reveal_strlit("5");
            assert("5"@ =~= seq![digit_char(5)]);
        }
        "5"
    } else if d == 6 {
        proof {
            reveal_strlit("6");
            assert("6"@ =~= seq![digit_char(6)]);
        }
        "6"
    } else if d == 7 {
        proof {
            reveal_strlit("7");
            assert("7"@ =~= seq![digit_char(7)]);
        }
        "7"
    } else if d == 8 {
        proof {
            reveal_strlit("8");
            assert("8"@ =~= seq![digit_char(8)]);
        }
        "8"
    } else {
        proof {
            reveal_strlit("9");
            assert("9"@ =~= seq![digit_char(d as nat)]);
        }
        "9"
    }
}

/// Renders `n` in decimal.
pub fn u64_to_string(n: u64) -> (s: String)
    ensures
        s@ == dec_seq(n as nat),
    decreases n,
{
    if n < 10 {
        digit_str(n).to_owned()
    } else {
        let prefix = u64_to_string(n / 10);
        let s = prefix.concat(digit_str(n % 10));
        proof {
            assert(s@ =~= dec_seq(n as nat));
        }
        s
    }
}

/// Renders `n` in decimal.
pub fn usize_to_string(n: usize) -> (s: String)
    ensures
        s@ == dec_seq(n as nat),
{
    u64_to_string(n as u64)
}

/// The characters of `s`, one vector element per character.
pub fn to_char_vec(s: &str) -> (v: Vec<char>)
    ensures
        v@ == s@,
{
    let n = s.unicode_len();
    let mut v: Vec<char> = Vec::new();
    let mut i: usize = 0;
    while i < n
        invariant
            i <= n,
            n == s@.len(),
            v@ == s@.subrange(0, i as int),
        decreases n - i,
    {
        v.push(s.get_char(i));
        i = i + 1;
        proof {
            assert(v@ =~= s@.subrange(0, i as int));
        }
    }
    proof {
        assert(v@ =~= s@);
    }
    v
}

/// Whether `needle` occurs as a contiguous run inside `hay`.
pub open spec fn contains_seq(hay: Seq<char>, needle: Seq<char>) -> bool {
    exists|i: int|
        0 <= i && i + needle.len() <= hay.len() && #[trigger] hay.subrange(i, i + needle.len())
            == needle
}

/// Whether `hay` holds `needle` as a contiguous run.
pub fn find_seq(hay: &Vec<char>, needle: &Vec<char>) -> (r: bool)
    ensures
        r == contains_seq(hay@, needle@),
{
    let nl = needle.len();
    let hl = hay.len();
    if nl > hl {
        proof {
            assert(!contains_seq(hay@, needle@)) by {
                if contains_seq(hay@, needle@) {
                    let i = choose|i: int|
                        0 <= i && i + needle@.len() <= hay@.len() && #[trigger] hay@.subrange(
                            i,
                            i + needle@.len(),
                        ) == needle@;
                    assert(false);
                }
            }
        }
        return false;
    }
    let mut i: usize = 0;
    while i <= hl - nl
        invariant
            nl == needle@.len(),
            hl == hay@.len(),
            nl <= hl,
            i <= hl - nl + 1,
            forall|k: int|
                0 <= k < i ==> #[trigger] hay@.subrange(k, k + needle@.len()) != needle@,
        decreases hl - nl + 1 - i,
    {
        let mut j: usize = 0;
        let mut matched: bool = true;
        while j < nl
            invariant
                nl == needle@.len(),
                hl == hay@.len(),
                i + nl <= hl,
                j <= nl,
                matched == (forall|k: int| 0 <= k < j ==> hay@[i + k] == needle@[k]),
            decreases nl - j,
        {
            if hay[i + j] != needle[j] {
                matched = false;
                j = nl;
            } else {
                j = j + 1;
            }
        }
        if matched {
            proof {
                assert(hay@.subrange(i as int, i + needle@.len()) =~= needle@);
            }
            return true;
        }
        proof {
            assert(hay@.subrange(i as int, i + needle@.len()) != needle@);
        }
        i = i + 1;
    }
    proof {
        assert forall|k: int| !(0 <= k && k + needle@.len() <= hay@.len()
            && #[trigger] hay@.subrange(k, k + needle@.len()) == needle@) by {
            if 0 <= k && k + needle@.len() <= hay@.len() {
                assert(k < i);
            }
        }
    }
    false
}

/// Whether `c` is a decimal digit.
pub open spec fn is_dec_digit(c: char) -> bool {
    '0' <= c && c <= '9'
}

/// The numeric value of the digit `c`.
pub open spec fn digit_val(c: char) -> nat {
    ((c as int) - ('0' as int)) as nat
}

/// The numeric value of a run of digits, most significant first.
pub open spec fn digits_val(s: Seq<char>) -> nat
    decreases s.len(),
{
    if s.len() == 0 {
        0
    } else {
        digits_val(s.drop_last()) * 10 + digit_val(s.last())
    }
}

/// The length of the run of decimal digits in `s` starting at `i`.
pub open spec fn digit_run(s: Seq<char>, i: int) -> nat
    decreases s.len() - i,
{
    if 0 <= i < s.len() && is_dec_digit(s[i]) {
        1 + digit_run(s, i + 1)
    } else {
        0
    }
}

proof fn lemma_digits_val_step(s: Seq<char>, from: int, i: int)
    requires
        0 <= from <= i < s.len(),
    ensures
        digits_val(s.subrange(from, i + 1)) == digits_val(s.subrange(from, i)) * 10 + digit_val(
            s[i],
        ),
{
    let t = s.subrange(from, i + 1);
    assert(t.drop_last() =~= s.subrange(from, i));
    assert(t.last() == s[i]);
}

/// Reads the run of decimal digits in `s` that starts at `from`: its value
/// when the run is nonempty and the value fits in `usize`, nothing otherwise.
pub fn parse_digit_run(s: &Vec<char>, from: usize) -> (r: Option<usize>)
    requires
        from <= s@.len(),
    ensures
        ({
            let k = digit_run(s@, from as int);
            match r {
                Some(v) => k > 0 && v as nat == digits_val(
                    s@.subrange(from as int, from + k),
                ),
                None => k == 0 || digits_val(s@.subrange(from as int, from + k)) > usize::MAX
                    as nat,
            }
        }),
{
    let len = s.len();
    let mut i: usize = from;
    let mut val: usize = 0;
    let mut overflow: bool = false;
    while i < len && is_dec_digit_exec(s[i])
        invariant
            from <= i <= len,
            len == s@.len(),
            digit_run(s@, from as int) == (i - from) + digit_run(s@, i as int),
            !overflow ==> val as nat == digits_val(s@.subrange(from as int, i as int)),
            overflow ==> digits_val(s@.subrange(from as int, i as int)) > usize::MAX as nat,
        decreases len - i,
    {
        let c = s[i];
        let d = (c as u32 - '0' as u32) as usize;
        proof {
            lemma_digits_val_step(s@, from as int, i as int);
            assert(d as nat == digit_val(s@[i as int]));
        }
        if overflow {
            proof {
                let prev = digits_val(s@.subrange(from as int, i as int));
                assert(prev * 10 >= prev) by (nonlinear_arith)
                    requires prev >= 0;
            }
        } else if val > (usize::MAX - d) / 10 {
            proof {
                let m = (usize::MAX - d) as int;
                assert(10 * (m / 10) >= m - 9);
                assert(val * 10 >= (m / 10) * 10 + 10) by (nonlinear_arith)
                    requires val >= m / 10 + 1;
            }
            overflow = true;
        } else {
            proof {
                assert(val * 10 + d <= ((usize::MAX - d) / 10) * 10 + d <= usize::MAX) by (
                nonlinear_arith)
                    requires
                        val <= (usize::MAX - d) / 10,
                        d <= usize::MAX,
                        (usize::MAX - d) / 10 * 10 <= usize::MAX - d,
                ;
            }
            val = val * 10 + d;
        }
        i = i + 1;
    }
    proof {
        assert(digit_run(s@, i as int) == 0);
    }
    if i == from || overflow {
        None
    } else {
        Some(val)
    }
}

/// Whether `c` is a decimal digit.
pub fn is_dec_digit_exec(c: char) -> (r: bool)
    ensures
        r == is_dec_digit(c),
{
    '0' <= c && c <= '9'
}

/// The trailing ellipsis appended to truncated text.
pub open spec fn ellipsis() -> Seq<char> {
    seq!['.', '.', '.']
}

/// `s` unchanged while it fits in `cap` characters; otherwise its first
/// `keep` characters followed by an ellipsis.
pub open spec fn truncated(s: Seq<char>, cap: nat, keep: nat) -> Seq<char> {
    if s.len() <= cap {
        s
    } else {
        s.subrange(0, keep as int) + ellipsis()
    }
}

/// Caps `s` at `cap` characters, keeping the head and marking the cut
/// with an ellipsis.
pub fn truncate_with_ellipsis(s: &str, cap: usize, keep: usize) -> (r: String)
    requires
        keep <= cap,
    ensures
        r@ == truncated(s@, cap as nat, keep as nat),
{
    let n = s.unicode_len();
    if n <= cap {
        s.to_owned()
    } else {
        let head = s.substring_char(0, keep);
        let r = head.to_owned().concat("...");
        proof {
            reveal_strlit("...");
            assert("..."@ =~= ellipsis());
        }
        r
    }
}

} // verus!

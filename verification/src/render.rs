//! Verified text building: decimal numbers, level tags, the location tag
//! with its `?` fallback and last-`::`-segment rule, and the thread suffix.
//!
//! Every function states the exact sequence of characters it produces.

use vstd::prelude::*;
use crate::level::Level;

verus! {

/// The decimal digit character for `d` (0 through 9).
pub open spec fn digit_char(d: int) -> char {
    if d == 0 {
        '0'
    } else if d == 1 {
        '1'
    } else if d == 2 {
        '2'
    } else if d == 3 {
        '3'
    } else if d == 4 {
        '4'
    } else if d == 5 {
        '5'
    } else if d == 6 {
        '6'
    } else if d == 7 {
        '7'
    } else if d == 8 {
        '8'
    } else {
        '9'
    }
}

/// The usual decimal rendering of `n`: no sign, no padding, a single `0`
/// for zero.
pub open spec fn dec_rep(n: nat) -> Seq<char>
    decreases n,
{
    if n < 10 {
        seq![digit_char(n as int)]
    } else {
        dec_rep(n / 10) + seq![digit_char((n % 10) as int)]
    }
}

/// Two-digit zero-padded decimal rendering of `n` (for `n < 100`).
pub open spec fn two_digit_rep(n: int) -> Seq<char> {
    seq![digit_char(n / 10), digit_char(n % 10)]
}

/// The single-character string for digit `d`.
fn digit_str(d: u64) -> (s: &'static str)
    requires
        d < 10,
    ensures
        s@ == seq![digit_char(d as int)],
{
    proof {
        reveal_strlit("0");
        reveal_strlit("1");
        reveal_strlit("2");
        reveal_strlit("3");
        reveal_strlit("4");
        reveal_strlit("5");
        reveal_strlit("6");
        reveal_strlit("7");
        reveal_strlit("8");
        reveal_strlit("9");
    }
    if d == 0 {
        "0"
    } else if d == 1 {
        "1"
    } else if d == 2 {
        "2"
    } else if d == 3 {
        "3"
    } else if d == 4 {
        "4"
    } else if d == 5 {
        "5"
    } else if d == 6 {
        "6"
    } else if d == 7 {
        "7"
    } else if d == 8 {
        "8"
    } else {
        "9"
    }
}

/// Append the decimal rendering of `n` to `out`.
pub fn push_decimal(out: &mut String, n: u64)
    ensures
        final(out)@ == old(out)@ + dec_rep(n as nat),
    decreases n,
{
    if n < 10 {
        out.append(digit_str(n));
    } else {
        push_decimal(out, n / 10);
        out.append(digit_str(n % 10));
        assert(out@ =~= old(out)@ + dec_rep(n as nat));
    }
}

/// Append the two-digit zero-padded rendering of `n` to `out`.
pub fn push_two_digit(out: &mut String, n: u64)
    requires
        n < 100,
    ensures
        final(out)@ == old(out)@ + two_digit_rep(n as int),
{
    out.append(digit_str(n / 10));
    out.append(digit_str(n % 10));
    assert(out@ =~= old(out)@ + two_digit_rep(n as int));
}

/// The level's name, left-aligned and padded with spaces to width 5.
pub open spec fn level_name_padded(level: Level) -> Seq<char> {
    match level {
        Level::Error => seq!['E', 'R', 'R', 'O', 'R'],
        Level::Warn => seq!['W', 'A', 'R', 'N', ' '],
        Level::Info => seq!['I', 'N', 'F', 'O', ' '],
        Level::Debug => seq!['D', 'E', 'B', 'U', 'G'],
        Level::Trace => seq!['T', 'R', 'A', 'C', 'E'],
    }
}

/// The ANSI escape that starts the level's color: red for `Error`, yellow
/// for `Warn`, cyan for `Info`, magenta for `Debug`, and the bare reset for
/// `Trace`.
pub open spec fn color_code(level: Level) -> Seq<char> {
    match level {
        Level::Error => seq!['\x1b', '[', '3', '1', 'm'],
        Level::Warn => seq!['\x1b', '[', '3', '3', 'm'],
        Level::Info => seq!['\x1b', '[', '3', '6', 'm'],
        Level::Debug => seq!['\x1b', '[', '3', '5', 'm'],
        Level::Trace => seq!['\x1b', '[', 'm'],
    }
}

/// The ANSI reset escape.
pub open spec fn color_reset() -> Seq<char> {
    seq!['\x1b', '[', 'm']
}

/// The level tag: the padded name, wrapped in the level's color code and a
/// reset when colors are on.
pub open spec fn level_tag_spec(level: Level, colors: bool) -> Seq<char> {
    if colors {
        color_code(level) + level_name_padded(level) + color_reset()
    } else {
        level_name_padded(level)
    }
}

/// The level's padded name as a string.
fn level_name_str(level: Level) -> (s: &'static str)
    ensures
        s@ == level_name_padded(level),
{
    proof {
        reveal_strlit("ERROR");
        reveal_strlit("WARN ");
        reveal_strlit("INFO ");
        reveal_strlit("DEBUG");
        reveal_strlit("TRACE");
    }
    match level {
        Level::Error => "ERROR",
        Level::Warn => "WARN ",
        Level::Info => "INFO ",
        Level::Debug => "DEBUG",
        Level::Trace => "TRACE",
    }
}

/// The escape that starts the level's color.
fn color_code_str(level: Level) -> (s: &'static str)
    ensures
        s@ == color_code(level),
{
    proof {
        reveal_strlit("\x1b[31m");
        reveal_strlit("\x1b[33m");
        reveal_strlit("\x1b[36m");
        reveal_strlit("\x1b[35m");
        reveal_strlit("\x1b[m");
    }
    match level {
        Level::Error => "\x1b[31m",
        Level::Warn => "\x1b[33m",
        Level::Info => "\x1b[36m",
        Level::Debug => "\x1b[35m",
        Level::Trace => "\x1b[m",
    }
}

/// Append the level tag for `level` to `out`, colorized when `colors` is on.
pub fn push_level_tag(out: &mut String, level: Level, colors: bool)
    ensures
        final(out)@ == old(out)@ + level_tag_spec(level, colors),
{
    if colors {
        out.append(color_code_str(level));
        out.append(level_name_str(level));
        proof {
            reveal_strlit("\x1b[m");
        }
        out.append("\x1b[m");
        assert(out@ =~= old(out)@ + level_tag_spec(level, colors));
    } else {
        out.append(level_name_str(level));
    }
}

/// A `::` separator starts at position `j` of `s`.
pub open spec fn sep_at(s: Seq<char>, j: int) -> bool {
    0 <= j && j + 1 < s.len() && s[j] == ':' && s[j + 1] == ':'
}

/// Whether `s` contains a `::` separator.
pub open spec fn has_sep(s: Seq<char>) -> bool
    decreases s.len(),
{
    if s.len() < 2 {
        false
    } else if s[0] == ':' && s[1] == ':' {
        true
    } else {
        has_sep(s.skip(1))
    }
}

/// The last piece of `s` split on `::`: separators are consumed left to
/// right, never overlapping, and the piece after the final one is the
/// result (all of `s` when there is none).
pub open spec fn last_seg(s: Seq<char>) -> Seq<char>
    decreases s.len(),
{
    if !has_sep(s) {
        s
    } else if s[0] == ':' && s[1] == ':' {
        last_seg(s.skip(2))
    } else {
        last_seg(s.skip(1))
    }
}

/// A sequence with no separator at any position has no separator at all.
proof fn lemma_no_sep(s: Seq<char>)
    requires
        forall|j: int| !sep_at(s, j),
    ensures
        !has_sep(s),
    decreases s.len(),
{
    if s.len() >= 2 {
        assert(!sep_at(s, 0));
        assert(forall|j: int| sep_at(s.skip(1), j) ==> sep_at(s, j + 1));
        lemma_no_sep(s.skip(1));
    }
}

/// A separator somewhere makes `has_sep` true.
proof fn lemma_has_sep_witness(s: Seq<char>, k: int)
    requires
        sep_at(s, k),
    ensures
        has_sep(s),
    decreases k,
{
    if k > 0 {
        assert(sep_at(s.skip(1), k - 1));
        lemma_has_sep_witness(s.skip(1), k - 1);
    }
}

/// Splitting left to right, the first separator of `s` (at `k`, with none
/// before it) is consumed whole: the last piece of `s` is the last piece of
/// what follows it.
proof fn lemma_last_seg_advance(s: Seq<char>, k: int)
    requires
        sep_at(s, k),
        forall|j: int| 0 <= j < k ==> !sep_at(s, j),
    ensures
        last_seg(s) == last_seg(s.skip(k + 2)),
    decreases k,
{
    lemma_has_sep_witness(s, k);
    if k == 0 {
        assert(s.skip(2) =~= s.skip(k + 2));
    } else {
        assert(!sep_at(s, 0));
        assert(sep_at(s.skip(1), k - 1));
        assert(forall|j: int| 0 <= j < k - 1 ==> sep_at(s.skip(1), j) ==> sep_at(s, j + 1));
        lemma_last_seg_advance(s.skip(1), k - 1);
        assert(s.skip(1).skip(k + 1) =~= s.skip(k + 2));
    }
}

/// The piece of `s` after the last left-to-right `::` separator, as the
/// module-path split rule takes it.
pub fn last_segment(s: &str) -> (r: &str)
    ensures
        r@ == last_seg(s@),
{
    let n = s.unicode_len();
    let mut p: usize = 0;
    let mut i: usize = 0;
    proof {
        assert(s@.skip(0) =~= s@);
    }
    while i < n && i + 1 < n
        invariant
            p <= i <= n,
            n == s@.len(),
            last_seg(s@) == last_seg(s@.skip(p as int)),
            forall|j: int| p <= j < i ==> !sep_at(s@, j),
        decreases n - i,
    {
        let c1 = s.get_char(i);
        let c2 = s.get_char(i + 1);
        if c1 == ':' && c2 == ':' {
            proof {
                let sub = s@.skip(p as int);
                assert(sep_at(sub, i - p)) by {
                    assert(sub[i - p] == s@[i as int]);
                    assert(sub[i - p + 1] == s@[i + 1]);
                }
                assert forall|j: int| 0 <= j < i - p implies !sep_at(sub, j) by {
                    assert(sub[j] == s@[p + j]);
                    assert(sub[j + 1] == s@[p + j + 1]);
                    assert(!sep_at(s@, p + j));
                }
                lemma_last_seg_advance(sub, i - p);
                assert(sub.skip(i - p + 2) =~= s@.skip(i + 2));
            }
            i = i + 2;
            p = i;
        } else {
            proof {
                assert(!sep_at(s@, i as int));
            }
            i = i + 1;
        }
    }
    proof {
        let sub = s@.skip(p as int);
        assert forall|j: int| !sep_at(sub, j) by {
            if 0 <= j && j + 1 < sub.len() {
                assert(sub[j] == s@[p + j]);
                assert(sub[j + 1] == s@[p + j + 1]);
                assert(p + j < i);
                assert(!sep_at(s@, p + j));
            }
        }
        lemma_no_sep(sub);
    }
    s.substring_char(p, n)
}

/// The character sequences of an optional string.
pub open spec fn opt_chars(o: Option<&str>) -> Option<Seq<char>> {
    match o {
        None => None,
        Some(s) => Some(s@),
    }
}

/// The location tag: the last `::` piece of the target when the target is
/// non-empty, else of the module path when there is one, else of the
/// placeholder `?`.
pub open spec fn location_spec(target: Seq<char>, path: Option<Seq<char>>) -> Seq<char> {
    last_seg(
        if target.len() > 0 {
            target
        } else {
            match path {
                Some(p) => p,
                None => seq!['?'],
            }
        },
    )
}

/// Compute the location tag from a record's target and module path.
pub fn location<'a>(target: &'a str, path: Option<&'a str>) -> (r: &'a str)
    ensures
        r@ == location_spec(target@, opt_chars(path)),
{
    let base: &'a str = if !target.is_empty() {
        target
    } else {
        match path {
            Some(p) => p,
            None => {
                proof {
                    reveal_strlit("?");
                }
                "?"
            },
        }
    };
    proof {
        if target@.len() == 0 && path is None {
            assert(base@ =~= seq!['?']);
        }
    }
    last_segment(base)
}

/// Whether `s` is exactly the four characters of `main`.
fn is_main_name(s: &str) -> (r: bool)
    ensures
        r == (s@ == seq!['m', 'a', 'i', 'n']),
{
    let ghost m: Seq<char> = seq!['m', 'a', 'i', 'n'];
    if s.unicode_len() != 4 {
        proof {
            assert(s@ != m) by {
                assert(m.len() == 4);
            }
        }
        return false;
    }
    let ok = s.get_char(0) == 'm' && s.get_char(1) == 'a' && s.get_char(2) == 'i' && s.get_char(3)
        == 'n';
    proof {
        if ok {
            assert(s@ =~= m);
        } else {
            assert(s@ != m) by {
                assert(m[0] == 'm' && m[1] == 'a' && m[2] == 'i' && m[3] == 'n');
            }
        }
    }
    ok
}

/// The thread suffix: `/` followed by the thread's name, except that an
/// unnamed thread and the thread named `main` contribute nothing.
pub open spec fn thread_suffix_spec(name: Option<Seq<char>>) -> Seq<char> {
    match name {
        None => Seq::<char>::empty(),
        Some(n) => if n == seq!['m', 'a', 'i', 'n'] {
            Seq::<char>::empty()
        } else {
            seq!['/'] + n
        },
    }
}

/// Append the thread suffix for `name` to `out`.
pub fn push_thread_suffix(out: &mut String, name: Option<&str>)
    ensures
        final(out)@ == old(out)@ + thread_suffix_spec(opt_chars(name)),
{
    match name {
        None => {
            proof {
                assert(out@ =~= out@ + Seq::<char>::empty());
            }
        },
        Some(n) => {
            if is_main_name(n) {
                proof {
                    assert(out@ =~= out@ + Seq::<char>::empty());
                }
            } else {
                proof {
                    reveal_strlit("/");
                }
                out.append("/");
                out.append(n);
                assert(out@ =~= old(out)@ + thread_suffix_spec(opt_chars(name)));
            }
        },
    }
}

} // verus!

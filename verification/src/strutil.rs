//! Character-exact string helpers.
//!
//! The parsers and rewriters of this library work line by line on text.
//! Everything here is specified over the character view of strings: prefix
//! tests, whitespace trimming (ASCII whitespace, which is all the parsed
//! tool output uses), substring search, ASCII-case-insensitive comparison,
//! line splitting and joining as `str::lines` does it, and decimal rendering
//! of numbers.

use vstd::prelude::*;

verus! {

/// The whitespace the trimmer strips: blank, tab, carriage return, newline.
pub open spec fn is_wspace(c: char) -> bool {
    c == ' ' || c == '\t' || c == '\r' || c == '\n'
}

fn is_wspace_char(c: char) -> (r: bool)
    ensures
        r == is_wspace(c),
{
    c == ' ' || c == '\t' || c == '\r' || c == '\n'
}

/// `p` is a prefix of `s`.
pub open spec fn spec_starts_with(s: Seq<char>, p: Seq<char>) -> bool {
    p.len() <= s.len() && s.subrange(0, p.len() as int) == p
}

/// Whether `s` starts with `p`.
pub fn starts_with(s: &str, p: &str) -> (r: bool)
    ensures
        r == spec_starts_with(s@, p@),
{
    let n = s.unicode_len();
    let m = p.unicode_len();
    if m > n {
        return false;
    }
    let mut i: usize = 0;
    while i < m
        invariant
            m <= n,
            n == s@.len(),
            m == p@.len(),
            i <= m,
            forall|j: int| 0 <= j < i ==> s@[j] == p@[j],
        decreases m - i,
    {
        if s.get_char(i) != p.get_char(i) {
            assert(s@.subrange(0, m as int)[i as int] != p@[i as int]);
            return false;
        }
        i += 1;
    }
    proof {
        assert(s@.subrange(0, m as int) =~= p@);
    }
    true
}

/// How many whitespace characters `s` begins with.
pub open spec fn lead_ws_len(s: Seq<char>) -> nat
    decreases s.len(),
{
    if s.len() > 0 && is_wspace(s[0]) {
        1 + lead_ws_len(s.skip(1))
    } else {
        0
    }
}

/// How many whitespace characters `s` ends with.
pub open spec fn trail_ws_len(s: Seq<char>) -> nat
    decreases s.len(),
{
    if s.len() > 0 && is_wspace(s.last()) {
        1 + trail_ws_len(s.drop_last())
    } else {
        0
    }
}

/// `s` with leading and trailing whitespace stripped.
pub open spec fn spec_trim(s: Seq<char>) -> Seq<char> {
    if lead_ws_len(s) == s.len() {
        Seq::empty()
    } else {
        s.subrange(lead_ws_len(s) as int, s.len() - trail_ws_len(s))
    }
}

proof fn lemma_lead_ws(s: Seq<char>)
    ensures
        lead_ws_len(s) <= s.len(),
        forall|j: int| 0 <= j < lead_ws_len(s) ==> is_wspace(s[j]),
        lead_ws_len(s) < s.len() ==> !is_wspace(s[lead_ws_len(s) as int]),
    decreases s.len(),
{
    if s.len() > 0 && is_wspace(s[0]) {
        lemma_lead_ws(s.skip(1));
        assert(forall|j: int|
            1 <= j < lead_ws_len(s) ==> s[j] == s.skip(1)[j - 1] && is_wspace(s.skip(1)[j - 1]));
    }
}

proof fn lemma_trail_ws(s: Seq<char>)
    ensures
        trail_ws_len(s) <= s.len(),
        forall|j: int| s.len() - trail_ws_len(s) <= j < s.len() ==> is_wspace(s[j]),
        trail_ws_len(s) < s.len() ==> !is_wspace(s[s.len() - trail_ws_len(s) - 1]),
    decreases s.len(),
{
    if s.len() > 0 && is_wspace(s.last()) {
        lemma_trail_ws(s.drop_last());
        assert(forall|j: int|
            s.len() - trail_ws_len(s) <= j < s.len() - 1 ==> s[j] == s.drop_last()[j] && is_wspace(
                s.drop_last()[j],
            ));
    }
}

/// When the whole string is whitespace, the trailing count is the length too.
proof fn lemma_all_ws_trail(s: Seq<char>)
    requires
        forall|j: int| 0 <= j < s.len() ==> is_wspace(s[j]),
    ensures
        trail_ws_len(s) == s.len(),
    decreases s.len(),
{
    if s.len() > 0 {
        assert(forall|j: int| 0 <= j < s.drop_last().len() ==> is_wspace(s.drop_last()[j]));
        lemma_all_ws_trail(s.drop_last());
    }
}

/// `s` trimmed of leading and trailing whitespace, as `str::trim` does on
/// text whose whitespace is ASCII.
pub fn trim(s: &str) -> (r: String)
    ensures
        r@ == spec_trim(s@),
{
    proof {
        lemma_lead_ws(s@);
        lemma_trail_ws(s@);
    }
    let n = s.unicode_len();
    let mut a: usize = 0;
    let mut scanning = true;
    while scanning && a < n
        invariant
            n == s@.len(),
            a <= n,
            forall|j: int| 0 <= j < a ==> is_wspace(s@[j]),
            !scanning ==> a < n && !is_wspace(s@[a as int]),
        decreases n - a + (if scanning {
            1int
        } else {
            0int
        }),
    {
        if is_wspace_char(s.get_char(a)) {
            a += 1;
        } else {
            scanning = false;
        }
    }
    if scanning {
        // every character is whitespace
        assert(a == n);
        assert(lead_ws_len(s@) == n) by {
            if lead_ws_len(s@) < n {
                assert(is_wspace(s@[lead_ws_len(s@) as int]));
            }
        }
        return String::new();
    }
    assert(a == lead_ws_len(s@)) by {
        if a < lead_ws_len(s@) {
            assert(!is_wspace(s@[a as int]) && is_wspace(s@[a as int]));
        }
        if a > lead_ws_len(s@) {
            assert(lead_ws_len(s@) < n);
            assert(is_wspace(s@[lead_ws_len(s@) as int]));
        }
    }
    let mut b: usize = n;
    let mut scanning_back = true;
    while scanning_back && b > a + 1
        invariant
            n == s@.len(),
            a < n,
            !is_wspace(s@[a as int]),
            a + 1 <= b <= n,
            forall|j: int| b <= j < n ==> is_wspace(s@[j]),
            !scanning_back ==> !is_wspace(s@[b - 1]),
        decreases b + (if scanning_back {
            1int
        } else {
            0int
        }),
    {
        if is_wspace_char(s.get_char(b - 1)) {
            b -= 1;
        } else {
            scanning_back = false;
        }
    }
    assert(!is_wspace(s@[b - 1])) by {
        if scanning_back {
            assert(b == a + 1);
        }
    }
    assert(n - b == trail_ws_len(s@)) by {
        if n - b < trail_ws_len(s@) {
            assert(is_wspace(s@[n - trail_ws_len(s@)]) || n - trail_ws_len(s@) == b - 1);
            assert(is_wspace(s@[b - 1]));
        }
        if n - b > trail_ws_len(s@) {
            assert(trail_ws_len(s@) < n);
            assert(is_wspace(s@[n - trail_ws_len(s@) - 1]));
        }
    }
    let piece = s.substring_char(a, b);
    proof {
        assert(piece@ =~= spec_trim(s@));
    }
    String::from_str(piece)
}

/// The characters of `s` from position `from` on.
pub fn substring_from(s: &str, from: usize) -> (r: String)
    requires
        from <= s@.len(),
    ensures
        r@ == s@.skip(from as int),
{
    let n = s.unicode_len();
    let piece = s.substring_char(from, n);
    proof {
        assert(piece@ =~= s@.skip(from as int));
    }
    String::from_str(piece)
}

/// `p` occurs somewhere in `s`.
pub open spec fn spec_contains(s: Seq<char>, p: Seq<char>) -> bool {
    exists|k: int| 0 <= k && k + p.len() <= s.len() && #[trigger] s.subrange(k, k + p.len()) == p
}

/// Whether `p` occurs somewhere in `s`.
pub fn contains(s: &str, p: &str) -> (r: bool)
    ensures
        r == spec_contains(s@, p@),
{
    let n = s.unicode_len();
    let m = p.unicode_len();
    if m > n {
        assert(!spec_contains(s@, p@));
        return false;
    }
    if m == 0 {
        proof {
            assert(s@.subrange(0, 0 + p@.len() as int) =~= p@);
            assert(spec_contains(s@, p@));
        }
        return true;
    }
    let mut k: usize = 0;
    while k <= n - m
        invariant
            n == s@.len(),
            m == p@.len(),
            1 <= m <= n,
            k <= n - m + 1,
            forall|l: int| 0 <= l < k ==> #[trigger] s@.subrange(l, l + p@.len()) != p@,
        decreases n - m - k + 1,
    {
        let mut i: usize = 0;
        let mut matches_here = true;
        while i < m && matches_here
            invariant
                n == s@.len(),
                m == p@.len(),
                k + m <= n,
                i <= m,
                matches_here ==> forall|j: int| 0 <= j < i ==> s@[k + j] == p@[j],
                !matches_here ==> s@.subrange(k as int, k + p@.len()) != p@,
            decreases m - i + (if matches_here {
                1int
            } else {
                0int
            }),
        {
            if s.get_char(k + i) != p.get_char(i) {
                assert(s@.subrange(k as int, k + p@.len())[i as int] != p@[i as int]);
                matches_here = false;
            } else {
                i += 1;
            }
        }
        if matches_here {
            proof {
                assert(s@.subrange(k as int, k + p@.len()) =~= p@);
            }
            return true;
        }
        k += 1;
    }
    proof {
        if spec_contains(s@, p@) {
            let l = choose|l: int|
                0 <= l && l + p@.len() <= s@.len() && #[trigger] s@.subrange(l, l + p@.len())
                    == p@;
            assert(l < k);
        }
    }
    false
}

/// A character with an ASCII capital letter folded to its small letter.
pub open spec fn lower_char(c: char) -> char {
    if c == 'A' {
        'a'
    } else if c == 'B' {
        'b'
    } else if c == 'C' {
        'c'
    } else if c == 'D' {
        'd'
    } else if c == 'E' {
        'e'
    } else if c == 'F' {
        'f'
    } else if c == 'G' {
        'g'
    } else if c == 'H' {
        'h'
    } else if c == 'I' {
        'i'
    } else if c == 'J' {
        'j'
    } else if c == 'K' {
        'k'
    } else if c == 'L' {
        'l'
    } else if c == 'M' {
        'm'
    } else if c == 'N' {
        'n'
    } else if c == 'O' {
        'o'
    } else if c == 'P' {
        'p'
    } else if c == 'Q' {
        'q'
    } else if c == 'R' {
        'r'
    } else if c == 'S' {
        's'
    } else if c == 'T' {
        't'
    } else if c == 'U' {
        'u'
    } else if c == 'V' {
        'v'
    } else if c == 'W' {
        'w'
    } else if c == 'X' {
        'x'
    } else if c == 'Y' {
        'y'
    } else if c == 'Z' {
        'z'
    } else {
        c
    }
}

fn lower_char_exec(c: char) -> (r: char)
    ensures
        r == lower_char(c),
{
    match c {
        'A' => 'a',
        'B' => 'b',
        'C' => 'c',
        'D' => 'd',
        'E' => 'e',
        'F' => 'f',
        'G' => 'g',
        'H' => 'h',
        'I' => 'i',
        'J' => 'j',
        'K' => 'k',
        'L' => 'l',
        'M' => 'm',
        'N' => 'n',
        'O' => 'o',
        'P' => 'p',
        'Q' => 'q',
        'R' => 'r',
        'S' => 's',
        'T' => 't',
        'U' => 'u',
        'V' => 'v',
        'W' => 'w',
        'X' => 'x',
        'Y' => 'y',
        'Z' => 'z',
        _ => c,
    }
}

/// The characters with ASCII capitals folded.
pub open spec fn lower_chars(s: Seq<char>) -> Seq<char> {
    Seq::new(s.len(), |i: int| lower_char(s[i]))
}

/// Whether `a` and `b` are equal up to ASCII case — exactly the matching
/// used on process names: capitals A to Z fold, everything else must match
/// as it stands.
pub fn eq_ignore_ascii_case(a: &str, b: &str) -> (r: bool)
    ensures
        r == (lower_chars(a@) == lower_chars(b@)),
{
    let n = a.unicode_len();
    let m = b.unicode_len();
    if n != m {
        assert(lower_chars(a@).len() != lower_chars(b@).len());
        return false;
    }
    let mut i: usize = 0;
    while i < n
        invariant
            n == a@.len(),
            n == b@.len(),
            i <= n,
            forall|j: int| 0 <= j < i ==> lower_char(a@[j]) == lower_char(b@[j]),
        decreases n - i,
    {
        let x = lower_char_exec(a.get_char(i));
        let y = lower_char_exec(b.get_char(i));
        if x != y {
            assert(lower_chars(a@)[i as int] != lower_chars(b@)[i as int]);
            return false;
        }
        i += 1;
    }
    proof {
        assert(lower_chars(a@) =~= lower_chars(b@));
    }
    true
}

/// Whether `a` and `b` hold the same characters.
pub fn str_eq(a: &str, b: &str) -> (r: bool)
    ensures
        r == (a@ == b@),
{
    let n = a.unicode_len();
    let m = b.unicode_len();
    if n != m {
        return false;
    }
    let mut i: usize = 0;
    while i < n
        invariant
            n == a@.len(),
            n == b@.len(),
            i <= n,
            forall|j: int| 0 <= j < i ==> a@[j] == b@[j],
        decreases n - i,
    {
        if a.get_char(i) != b.get_char(i) {
            return false;
        }
        i += 1;
    }
    proof {
        assert(a@ =~= b@);
    }
    true
}

/// The position of the first newline in `s`, or its length when none occurs.
pub open spec fn first_nl(s: Seq<char>) -> nat
    decreases s.len(),
{
    if s.len() == 0 {
        0
    } else if s[0] == '\n' {
        0
    } else {
        1 + first_nl(s.skip(1))
    }
}

proof fn lemma_first_nl(s: Seq<char>)
    ensures
        first_nl(s) <= s.len(),
        first_nl(s) < s.len() ==> s[first_nl(s) as int] == '\n',
        forall|j: int| 0 <= j < first_nl(s) ==> s[j] != '\n',
    decreases s.len(),
{
    if s.len() > 0 && s[0] != '\n' {
        lemma_first_nl(s.skip(1));
        assert(forall|j: int| 1 <= j < first_nl(s) ==> s[j] == s.skip(1)[j - 1]);
    }
}

/// A line with one trailing carriage return removed, as line splitting does
/// before each newline.
pub open spec fn chomp_cr(t: Seq<char>) -> Seq<char> {
    if t.len() > 0 && t.last() == '\r' {
        t.drop_last()
    } else {
        t
    }
}

/// The lines of `s`, split as `str::lines` splits: at each newline, with a
/// carriage return directly before a newline stripped, and no empty final
/// line for text that ends with a newline.
pub open spec fn spec_lines(s: Seq<char>) -> Seq<Seq<char>>
    decreases s.len(),
{
    if s.len() == 0 {
        Seq::empty()
    } else {
        let i = first_nl(s) as int;
        if i >= s.len() {
            seq![s]
        } else {
            seq![chomp_cr(s.take(i))] + spec_lines(s.skip(i + 1))
        }
    }
}

/// Splits `s` into its lines.
pub fn split_lines(s: &str) -> (r: Vec<String>)
    ensures
        r.deep_view() == spec_lines(s@),
{
    let n = s.unicode_len();
    let mut lines: Vec<String> = Vec::new();
    let mut start: usize = 0;
    let mut i: usize = 0;
    proof {
        assert(s@.skip(0) =~= s@);
        assert(lines.deep_view() =~= Seq::<Seq<char>>::empty());
        assert(lines.deep_view() + spec_lines(s@) =~= spec_lines(s@));
    }
    while i < n
        invariant
            n == s@.len(),
            start <= i <= n,
            spec_lines(s@) == lines.deep_view() + spec_lines(s@.skip(start as int)),
            forall|j: int| start <= j < i ==> s@[j] != '\n',
        decreases n - i,
    {
        if s.get_char(i) == '\n' {
            let ghost rest = s@.skip(start as int);
            proof {
                lemma_first_nl(rest);
                assert(forall|j: int|
                    0 <= j < i - start ==> rest[j] == s@[start + j] && s@[start + j] != '\n');
                assert(rest[i - start] == s@[i as int]);
                assert(first_nl(rest) == i - start) by {
                    if first_nl(rest) < i - start {
                        assert(rest[first_nl(rest) as int] == '\n');
                        assert(s@[start + first_nl(rest)] != '\n');
                    }
                    if first_nl(rest) > i - start {
                        assert(rest[i - start] != '\n');
                    }
                }
                assert(rest.take(i - start) =~= s@.subrange(start as int, i as int));
                assert(rest.skip(i - start + 1) =~= s@.skip(i as int + 1));
            }
            let piece = if i > start && s.get_char(i - 1) == '\r' {
                let p = s.substring_char(start, i - 1);
                proof {
                    assert(rest.take(i - start).last() == '\r');
                    assert(p@ =~= chomp_cr(rest.take(i - start)));
                }
                p
            } else {
                let p = s.substring_char(start, i);
                proof {
                    if i > start {
                        assert(rest.take(i - start).last() == s@[i - 1]);
                    }
                    assert(p@ =~= chomp_cr(rest.take(i - start)));
                }
                p
            };
            let ghost before = lines.deep_view();
            lines.push(String::from_str(piece));
            proof {
                assert(lines.deep_view() =~= before.push(piece@));
                assert(before.push(piece@) =~= before + seq![chomp_cr(rest.take(i - start))]);
                assert(spec_lines(s@) == lines.deep_view() + spec_lines(s@.skip(i as int + 1)));
            }
            start = i + 1;
        }
        i += 1;
    }
    if start < n {
        let ghost rest = s@.skip(start as int);
        proof {
            lemma_first_nl(rest);
            assert(forall|j: int|
                0 <= j < rest.len() ==> rest[j] == s@[start + j] && s@[start + j] != '\n');
            assert(first_nl(rest) == rest.len()) by {
                if first_nl(rest) < rest.len() {
                    assert(rest[first_nl(rest) as int] == '\n');
                }
            }
        }
        let piece = s.substring_char(start, n);
        let ghost before = lines.deep_view();
        lines.push(String::from_str(piece));
        proof {
            assert(piece@ =~= rest);
            assert(lines.deep_view() =~= before.push(rest));
            assert(before.push(rest) =~= before + seq![rest]);
        }
    } else {
        proof {
            assert(s@.skip(start as int).len() == 0);
            assert(lines.deep_view() + spec_lines(s@.skip(start as int)) =~= lines.deep_view());
        }
    }
    lines
}

/// The lines joined with single newlines, no trailing newline.
pub open spec fn spec_join(ls: Seq<Seq<char>>) -> Seq<char>
    decreases ls.len(),
{
    if ls.len() == 0 {
        Seq::empty()
    } else if ls.len() == 1 {
        ls[0]
    } else {
        ls[0] + seq!['\n'] + spec_join(ls.skip(1))
    }
}

proof fn lemma_spec_join_push(ls: Seq<Seq<char>>, x: Seq<char>)
    ensures
        ls.len() == 0 ==> spec_join(ls.push(x)) == x,
        ls.len() > 0 ==> spec_join(ls.push(x)) == spec_join(ls) + seq!['\n'] + x,
    decreases ls.len(),
{
    let p = ls.push(x);
    if ls.len() == 0 {
        assert(p.len() == 1 && p[0] == x);
    } else {
        lemma_spec_join_push(ls.skip(1), x);
        assert(p.skip(1) =~= ls.skip(1).push(x));
        if ls.len() == 1 {
            assert(spec_join(p) == p[0] + seq!['\n'] + spec_join(p.skip(1)));
            assert(spec_join(p.skip(1)) == x);
            assert(spec_join(ls) == ls[0]);
        } else {
            assert(spec_join(p) == p[0] + seq!['\n'] + spec_join(p.skip(1)));
            assert(spec_join(p.skip(1)) == spec_join(ls.skip(1)) + seq!['\n'] + x);
            assert(ls[0] + seq!['\n'] + (spec_join(ls.skip(1)) + seq!['\n'] + x) =~= (ls[0]
                + seq!['\n'] + spec_join(ls.skip(1))) + seq!['\n'] + x);
        }
    }
}

/// Joins lines with single newlines, as the rewriters write text back.
pub fn join_lines(lines: &Vec<String>) -> (r: String)
    ensures
        r@ == spec_join(lines.deep_view()),
{
    let mut acc = String::new();
    let n = lines.len();
    let mut i: usize = 0;
    proof {
        reveal_strlit("\n");
    }
    while i < n
        invariant
            n == lines@.len(),
            i <= n,
            acc@ == spec_join(lines.deep_view().take(i as int)),
            "\n"@ =~= seq!['\n'],
        decreases n - i,
    {
        let ghost before = lines.deep_view().take(i as int);
        proof {
            lemma_spec_join_push(before, lines.deep_view()[i as int]);
            assert(lines.deep_view().take(i as int + 1) =~= before.push(
                lines.deep_view()[i as int],
            ));
        }
        if i > 0 {
            acc.append("\n");
        }
        acc.append(lines[i].as_str());
        i += 1;
    }
    proof {
        assert(lines.deep_view().take(n as int) =~= lines.deep_view());
    }
    acc
}

/// The decimal digit character for `d`.
pub open spec fn spec_digit(d: int) -> char {
    if d == 0 {
        '0'
    } else if d == 1 {
        '1'
    } else if d == 2 {
        '2'
    } else if d == 3 {
        '3'
    } else if d == 4 {
        '4'
    } else if d == 5 {
        '5'
    } else if d == 6 {
        '6'
    } else if d == 7 {
        '7'
    } else if d == 8 {
        '8'
    } else {
        '9'
    }
}

/// The decimal rendering of `n`, most significant digit first, no sign and
/// no leading zeroes (a lone zero for zero).
pub open spec fn spec_dec(n: int) -> Seq<char>
    decreases n,
{
    if n < 10 {
        seq![spec_digit(n)]
    } else {
        spec_dec(n / 10).push(spec_digit(n % 10))
    }
}

fn digit_str(d: u64) -> (r: &'static str)
    requires
        d < 10,
    ensures
        r@ == seq![spec_digit(d as int)],
{
    let r: &'static str = if d == 0 {
        "0"
    } else if d == 1 {
        "1"
    } else if d == 2 {
        "2"
    } else if d == 3 {
        "3"
    } else if d == 4 {
        "4"
    } else if d == 5 {
        "5"
    } else if d == 6 {
        "6"
    } else if d == 7 {
        "7"
    } else if d == 8 {
        "8"
    } else {
        "9"
    };
    proof {
        reveal_strlit("0");
        reveal_strlit("1");
        reveal_strlit("2");
        reveal_strlit("3");
        reveal_strlit("4");
        reveal_strlit("5");
        reveal_strlit("6");
        reveal_strlit("7");
        reveal_strlit("8");
        reveal_strlit("9");
        assert(r@ =~= seq![spec_digit(d as int)]);
    }
    r
}

/// Renders `n` in decimal.
pub fn u64_to_string(n: u64) -> (r: String)
    ensures
        r@ == spec_dec(n as int),
    decreases n,
{
    if n < 10 {
        String::from_str(digit_str(n))
    } else {
        let mut s = u64_to_string(n / 10);
        s.append(digit_str(n % 10));
        proof {
            assert(s@ =~= spec_dec(n as int / 10).push(spec_digit(n as int % 10)));
        }
        s
    }
}

/// Renders `n` in decimal.
pub fn u32_to_string(n: u32) -> (r: String)
    ensures
        r@ == spec_dec(n as int),
{
    u64_to_string(n as u64)
}

/// Renders `n` in decimal.
pub fn usize_to_string(n: usize) -> (r: String)
    ensures
        r@ == spec_dec(n as int),
{
    u64_to_string(n as u64)
}

} // verus!

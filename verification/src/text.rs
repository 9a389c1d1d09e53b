//! Character-level string helpers with exact specifications.
//!
//! Strings are handled as sequences of `char`s (their view). Ranges of a
//! character vector are written `lo..hi`; a helper that works on a range
//! states its result over `v@.subrange(lo, hi)`.

use vstd::prelude::*;

verus! {

/// Unicode `White_Space` (what `char::is_whitespace` and `str::trim` use).
pub open spec fn is_whitespace(c: char) -> bool {
    let u = c as u32;
    ||| 0x09 <= u <= 0x0d
    ||| u == 0x20
    ||| u == 0x85
    ||| u == 0xa0
    ||| u == 0x1680
    ||| 0x2000 <= u <= 0x200a
    ||| u == 0x2028
    ||| u == 0x2029
    ||| u == 0x202f
    ||| u == 0x205f
    ||| u == 0x3000
}

/// The characters that a trim removes: whitespace, or the double quote.
pub open spec fn trimmed_char(c: char, quote: bool) -> bool {
    if quote {
        c == '"'
    } else {
        is_whitespace(c)
    }
}

/// `s` without its leading trimmed characters.
pub open spec fn trim_start_with(s: Seq<char>, quote: bool) -> Seq<char>
    decreases s.len(),
{
    if s.len() > 0 && trimmed_char(s[0], quote) {
        trim_start_with(s.drop_first(), quote)
    } else {
        s
    }
}

/// `s` without its trailing trimmed characters.
pub open spec fn trim_end_with(s: Seq<char>, quote: bool) -> Seq<char>
    decreases s.len(),
{
    if s.len() > 0 && trimmed_char(s.last(), quote) {
        trim_end_with(s.drop_last(), quote)
    } else {
        s
    }
}

/// `str::trim`: leading and trailing whitespace removed.
pub open spec fn trim(s: Seq<char>) -> Seq<char> {
    trim_end_with(trim_start_with(s, false), false)
}

/// `str::trim_start`.
pub open spec fn trim_start(s: Seq<char>) -> Seq<char> {
    trim_start_with(s, false)
}

/// `str::trim_matches('"')`: leading and trailing double quotes removed.
pub open spec fn trim_quotes(s: Seq<char>) -> Seq<char> {
    trim_end_with(trim_start_with(s, true), true)
}

/// `s` begins with `p`.
pub open spec fn starts_with(s: Seq<char>, p: Seq<char>) -> bool {
    p.len() <= s.len() && s.take(p.len() as int) == p
}

/// `str::replace(pat, rep)` for a non-empty `pat`: every leftmost,
/// non-overlapping occurrence of `pat` is replaced by `rep`.
pub open spec fn replace_all(s: Seq<char>, pat: Seq<char>, rep: Seq<char>) -> Seq<char>
    decreases s.len(),
{
    if pat.len() == 0 || s.len() < pat.len() {
        s
    } else if s.take(pat.len() as int) == pat {
        rep + replace_all(s.skip(pat.len() as int), pat, rep)
    } else {
        seq![s[0]] + replace_all(s.drop_first(), pat, rep)
    }
}

/// The position of the first `c` in `s`.
pub open spec fn index_of(s: Seq<char>, c: char) -> Option<int>
    decreases s.len(),
{
    if s.len() == 0 {
        None
    } else if s[0] == c {
        Some(0)
    } else {
        match index_of(s.drop_first(), c) {
            Some(i) => Some(i + 1),
            None => None,
        }
    }
}

/// The position of the last `c` in `s`.
pub open spec fn last_index_of(s: Seq<char>, c: char) -> Option<int>
    decreases s.len(),
{
    if s.len() == 0 {
        None
    } else if s.last() == c {
        Some(s.len() - 1)
    } else {
        last_index_of(s.drop_last(), c)
    }
}

/// The lines of `s`: the pieces between `'\n'` characters, where a final
/// `'\n'` ends the last line rather than starting an empty one. (A `'\r'`
/// before the `'\n'` stays on the line; every reader here trims lines.)
pub open spec fn lines_of(s: Seq<char>) -> Seq<Seq<char>>
    decreases s.len(),
{
    if s.len() == 0 {
        Seq::empty()
    } else {
        match index_of(s, '\n') {
            Some(i) => if 0 <= i < s.len() {
                seq![s.take(i)] + lines_of(s.skip(i + 1))
            } else {
                seq![s]
            },
            None => seq![s],
        }
    }
}

/// Appends `c` to `s` (`String::push`).
#[verifier::external_body]
pub(crate) fn push_char(s: &mut String, c: char)
    ensures
        final(s)@ == old(s)@.push(c),
{
    s.push(c);
}

/// The characters of `s`, in order.
pub fn chars_of(s: &str) -> (v: Vec<char>)
    ensures
        v@ == s@,
{
    let mut v: Vec<char> = Vec::new();
    for c in it: s.chars()
        invariant
            v@ == it.seq().take(it.index() as int),
    {
        v.push(c);
    }
    v
}

/// The string made of the characters `v[lo..hi]`.
pub fn string_of_range(v: &Vec<char>, lo: usize, hi: usize) -> (s: String)
    requires
        lo <= hi <= v@.len(),
    ensures
        s@ == v@.subrange(lo as int, hi as int),
{
    let mut s = String::new();
    let mut i = lo;
    while i < hi
        invariant
            lo <= i <= hi <= v@.len(),
            s@ == v@.subrange(lo as int, i as int),
        decreases hi - i,
    {
        push_char(&mut s, v[i]);
        assert(v@.subrange(lo as int, i + 1) == v@.subrange(lo as int, i as int).push(v@[i as int]));
        i = i + 1;
    }
    s
}

/// The string made of the characters of `v`.
pub fn string_of(v: &Vec<char>) -> (s: String)
    ensures
        s@ == v@,
{
    let s = string_of_range(v, 0, v.len());
    assert(v@.subrange(0, v@.len() as int) == v@);
    s
}

/// `a` followed by `b`, as a new string.
pub fn concat(a: &str, b: &str) -> (s: String)
    ensures
        s@ == a@ + b@,
{
    let mut s = a.to_owned();
    s.append(b);
    s
}

/// Appends the characters of `w` to `v`.
pub fn extend_chars(v: &mut Vec<char>, w: &Vec<char>)
    ensures
        final(v)@ == old(v)@ + w@,
{
    let n = w.len();
    for i in 0..n
        invariant
            n == w@.len(),
            v@ == old(v)@ + w@.take(i as int),
    {
        v.push(w[i]);
        assert(w@.take(i + 1) == w@.take(i as int).push(w@[i as int]));
    }
    assert(w@.take(n as int) == w@);
}

/// `char::is_whitespace`.
pub fn is_whitespace_char(c: char) -> (b: bool)
    ensures
        b == is_whitespace(c),
{
    let u = c as u32;
    (0x09 <= u && u <= 0x0d) || u == 0x20 || u == 0x85 || u == 0xa0 || u == 0x1680 || (0x2000 <= u
        && u <= 0x200a) || u == 0x2028 || u == 0x2029 || u == 0x202f || u == 0x205f || u == 0x3000
}

fn is_trimmed_char(c: char, quote: bool) -> (b: bool)
    ensures
        b == trimmed_char(c, quote),
{
    if quote {
        c == '"'
    } else {
        is_whitespace_char(c)
    }
}

/// The bounds of `v[lo..hi]` with its leading trimmed characters removed.
pub fn trim_start_range(v: &Vec<char>, lo: usize, hi: usize, quote: bool) -> (a: usize)
    requires
        lo <= hi <= v@.len(),
    ensures
        lo <= a <= hi,
        v@.subrange(a as int, hi as int) == trim_start_with(
            v@.subrange(lo as int, hi as int),
            quote,
        ),
{
    let mut i = lo;
    while i < hi && is_trimmed_char(v[i], quote)
        invariant
            lo <= i <= hi <= v@.len(),
            trim_start_with(v@.subrange(lo as int, hi as int), quote) == trim_start_with(
                v@.subrange(i as int, hi as int),
                quote,
            ),
        decreases hi - i,
    {
        assert(v@.subrange(i as int, hi as int).drop_first() == v@.subrange(i + 1, hi as int));
        i = i + 1;
    }
    i
}

/// The bounds of `v[lo..hi]` with its trailing trimmed characters removed.
pub fn trim_end_range(v: &Vec<char>, lo: usize, hi: usize, quote: bool) -> (b: usize)
    requires
        lo <= hi <= v@.len(),
    ensures
        lo <= b <= hi,
        v@.subrange(lo as int, b as int) == trim_end_with(
            v@.subrange(lo as int, hi as int),
            quote,
        ),
{
    let mut j = hi;
    while j > lo && is_trimmed_char(v[j - 1], quote)
        invariant
            lo <= j <= hi <= v@.len(),
            trim_end_with(v@.subrange(lo as int, hi as int), quote) == trim_end_with(
                v@.subrange(lo as int, j as int),
                quote,
            ),
        decreases j - lo,
    {
        assert(v@.subrange(lo as int, j as int).drop_last() == v@.subrange(lo as int, j - 1));
        j = j - 1;
    }
    j
}

/// The bounds of `str::trim` (or `trim_matches('"')`) of `v[lo..hi]`.
pub fn trim_range(v: &Vec<char>, lo: usize, hi: usize, quote: bool) -> (r: (usize, usize))
    requires
        lo <= hi <= v@.len(),
    ensures
        lo <= r.0 <= r.1 <= hi,
        v@.subrange(r.0 as int, r.1 as int) == trim_end_with(
            trim_start_with(v@.subrange(lo as int, hi as int), quote),
            quote,
        ),
{
    let a = trim_start_range(v, lo, hi, quote);
    let b = trim_end_range(v, a, hi, quote);
    (a, b)
}

/// Whether `v[lo..hi]` begins with `p`.
pub fn range_starts_with(v: &Vec<char>, lo: usize, hi: usize, p: &Vec<char>) -> (b: bool)
    requires
        lo <= hi <= v@.len(),
    ensures
        b == starts_with(v@.subrange(lo as int, hi as int), p@),
{
    if p.len() > hi - lo {
        return false;
    }
    let n = p.len();
    let mut k: usize = 0;
    while k < n
        invariant
            n == p@.len(),
            lo + n <= hi <= v@.len(),
            k <= n,
            forall|t: int| 0 <= t < k ==> v@[lo + t] == p@[t],
        decreases n - k,
    {
        if v[lo + k] != p[k] {
            assert(v@.subrange(lo as int, hi as int).take(n as int)[k as int] != p@[k as int]);
            return false;
        }
        k = k + 1;
    }
    assert(v@.subrange(lo as int, hi as int).take(n as int) =~= p@);
    true
}

/// Whether `v[lo..hi]` is exactly `p`.
pub fn range_equals(v: &Vec<char>, lo: usize, hi: usize, p: &Vec<char>) -> (b: bool)
    requires
        lo <= hi <= v@.len(),
    ensures
        b == (v@.subrange(lo as int, hi as int) == p@),
{
    if p.len() != hi - lo {
        assert(v@.subrange(lo as int, hi as int).len() != p@.len());
        return false;
    }
    let r = range_starts_with(v, lo, hi, p);
    assert(v@.subrange(lo as int, hi as int).take(p@.len() as int) == v@.subrange(
        lo as int,
        hi as int,
    ));
    r
}

/// `str::replace(pat, rep)` on the characters of `s`, for a non-empty `pat`.
pub fn replace_chars(s: &Vec<char>, pat: &Vec<char>, rep: &Vec<char>) -> (r: Vec<char>)
    requires
        pat@.len() > 0,
    ensures
        r@ == replace_all(s@, pat@, rep@),
{
    let n = s.len();
    let mut out: Vec<char> = Vec::new();
    let mut i: usize = 0;
    assert(s@.skip(0) == s@);
    assert(out@ + replace_all(s@, pat@, rep@) == replace_all(s@, pat@, rep@));
    while i < n
        invariant
            n == s@.len(),
            pat@.len() > 0,
            i <= n,
            out@ + replace_all(s@.skip(i as int), pat@, rep@) == replace_all(s@, pat@, rep@),
        decreases n - i,
    {
        let ghost rest = s@.skip(i as int);
        if range_starts_with(s, i, n, pat) {
            assert(s@.subrange(i as int, n as int) == rest);
            assert(rest.skip(pat@.len() as int) == s@.skip(i + pat@.len()));
            extend_chars(&mut out, rep);
            assert(out@ + replace_all(s@.skip(i + pat@.len()), pat@, rep@) == replace_all(
                s@,
                pat@,
                rep@,
            ));
            i = i + pat.len();
        } else {
            let c = s[i];
            proof {
                assert(s@.subrange(i as int, n as int) == rest);
                assert(rest.drop_first() == s@.skip(i + 1));
                if rest.len() >= pat@.len() {
                    assert(rest.take(pat@.len() as int) != pat@);
                } else {
                    assert(replace_all(rest, pat@, rep@) == rest);
                    assert(replace_all(rest.drop_first(), pat@, rep@) == rest.drop_first());
                    assert(rest == seq![c] + rest.drop_first());
                }
            }
            out.push(c);
            i = i + 1;
        }
    }
    assert(s@.skip(n as int) == Seq::<char>::empty());
    assert(replace_all(s@.skip(n as int), pat@, rep@) == Seq::<char>::empty());
    assert(out@ + Seq::<char>::empty() == out@);
    out
}

/// `index_of` finds the first `c`; `None` means there is none.
pub proof fn lemma_index_of(s: Seq<char>, c: char)
    ensures
        match index_of(s, c) {
            Some(i) => 0 <= i < s.len() && s[i] == c && forall|j: int| 0 <= j < i ==> s[j] != c,
            None => forall|j: int| 0 <= j < s.len() ==> s[j] != c,
        },
    decreases s.len(),
{
    if s.len() > 0 && s[0] != c {
        lemma_index_of(s.drop_first(), c);
        assert forall|j: int| 0 < j < s.len() implies s[j] == s.drop_first()[j - 1] by {}
    }
}

/// `last_index_of` finds the last `c`; `None` means there is none.
pub proof fn lemma_last_index_of(s: Seq<char>, c: char)
    ensures
        match last_index_of(s, c) {
            Some(i) => 0 <= i < s.len() && s[i] == c && forall|j: int| i < j < s.len() ==> s[j] != c,
            None => forall|j: int| 0 <= j < s.len() ==> s[j] != c,
        },
    decreases s.len(),
{
    if s.len() > 0 && s.last() != c {
        lemma_last_index_of(s.drop_last(), c);
        assert forall|j: int| 0 <= j < s.len() - 1 implies s[j] == s.drop_last()[j] by {}
    }
}

/// The position of the first `c` in `v` (`str::find` on characters).
pub fn find_char(v: &Vec<char>, c: char) -> (r: Option<usize>)
    ensures
        r matches Some(i) ==> index_of(v@, c) == Some(i as int),
        r is None ==> index_of(v@, c) is None,
{
    proof {
        lemma_index_of(v@, c);
    }
    let n = v.len();
    for i in 0..n
        invariant
            n == v@.len(),
            forall|j: int| 0 <= j < i ==> v@[j] != c,
            match index_of(v@, c) {
                Some(k) => 0 <= k < v@.len() && v@[k] == c && forall|j: int| 0 <= j < k ==> v@[j] != c,
                None => forall|j: int| 0 <= j < v@.len() ==> v@[j] != c,
            },
    {
        if v[i] == c {
            return Some(i);
        }
    }
    None
}

/// The position of the last `c` in `v` (`str::rfind` on characters).
pub fn rfind_char(v: &Vec<char>, c: char) -> (r: Option<usize>)
    ensures
        r matches Some(i) ==> last_index_of(v@, c) == Some(i as int),
        r is None ==> last_index_of(v@, c) is None,
{
    proof {
        lemma_last_index_of(v@, c);
    }
    let mut i = v.len();
    while i > 0
        invariant
            i <= v@.len(),
            forall|j: int| i <= j < v@.len() ==> v@[j] != c,
            match last_index_of(v@, c) {
                Some(k) => 0 <= k < v@.len() && v@[k] == c && forall|j: int| k < j < v@.len() ==> v@[j] != c,
                None => forall|j: int| 0 <= j < v@.len() ==> v@[j] != c,
            },
        decreases i,
    {
        if v[i - 1] == c {
            return Some(i - 1);
        }
        i = i - 1;
    }
    None
}

/// The `Debug` form of a string, as `format!("{:?}", s)` writes it.
pub uninterp spec fn debug_repr(s: Seq<char>) -> Seq<char>;

/// A string is plain when it holds only printable ASCII other than `"` and
/// `\`: its `Debug` form is then the string in double quotes.
pub open spec fn is_plain(s: Seq<char>) -> bool {
    forall|i: int| 0 <= i < s.len() ==> ' ' <= #[trigger] s[i] <= '~' && s[i] != '"' && s[i] != '\\'
}

/// `format!("{:?}", s)`: the string quoted and escaped as `Debug` writes it.
/// The contract names the result and states the plain case, where nothing
/// is escaped.
#[verifier::external_body]
pub(crate) fn debug_quoted(s: &str) -> (r: String)
    ensures
        r@ == debug_repr(s@),
        is_plain(s@) ==> r@ == seq!['"'] + s@ + seq!['"'],
{
    format!("{s:?}")
}

/// The end of the line that starts at `start`: the position of the next
/// `'\n'`, or the end of `v`.
pub fn line_end(v: &Vec<char>, start: usize) -> (e: usize)
    requires
        start <= v@.len(),
    ensures
        start <= e <= v@.len(),
        forall|j: int| start <= j < e ==> v@[j] != '\n',
        e < v@.len() ==> v@[e as int] == '\n',
{
    let mut e = start;
    while e < v.len() && v[e] != '\n'
        invariant
            start <= e <= v@.len(),
            forall|j: int| start <= j < e ==> v@[j] != '\n',
        decreases v@.len() - e,
    {
        e = e + 1;
    }
    e
}

/// The lines of `s` from `start` on: the line up to `e` (the next `'\n'` or
/// the end), then the lines after it.
pub proof fn lemma_lines_step(s: Seq<char>, start: int, e: int)
    requires
        0 <= start < s.len(),
        start <= e <= s.len(),
        forall|j: int| start <= j < e ==> s[j] != '\n',
        e < s.len() ==> s[e] == '\n',
    ensures
        lines_of(s.skip(start)) == seq![s.subrange(start, e)] + (if e < s.len() {
            lines_of(s.skip(e + 1))
        } else {
            Seq::<Seq<char>>::empty()
        }),
{
    let t = s.skip(start);
    lemma_index_of(t, '\n');
    if e < s.len() {
        assert(t[e - start] == '\n');
        match index_of(t, '\n') {
            Some(k) => {
                assert(k == e - start) by {
                    if k < e - start {
                        assert(t[k] == s[start + k]);
                    }
                }
            },
            None => {
                assert(t[e - start] == '\n');
            },
        }
        assert(t.take(e - start) == s.subrange(start, e));
        assert(t.skip(e - start + 1) == s.skip(e + 1));
    } else {
        match index_of(t, '\n') {
            Some(k) => {
                assert(t[k] == s[start + k]);
            },
            None => {},
        }
        assert(t == s.subrange(start, e));
    }
}

/// The views of a list of strings.
pub open spec fn strings_view(v: Vec<String>) -> Seq<Seq<char>> {
    v@.map_values(|a: String| a@)
}

/// The decimal digit of `d < 10`.
pub open spec fn digit(d: nat) -> char {
    (('0' as u32) + d) as char
}

/// The decimal form of `n`, without leading zeros.
pub open spec fn decimal(n: nat) -> Seq<char>
    decreases n,
{
    if n < 10 {
        seq![digit(n)]
    } else {
        decimal(n / 10).push(digit(n % 10))
    }
}

/// The decimal form of `i`, with a leading `-` when it is negative.
pub open spec fn signed_decimal(i: int) -> Seq<char> {
    if i < 0 {
        seq!['-'] + decimal((-i) as nat)
    } else {
        decimal(i as nat)
    }
}

/// The decimal form of `n` (`u64::to_string`).
pub fn u64_to_decimal(n: u64) -> (s: String)
    ensures
        s@ == decimal(n as nat),
{
    let mut digits: Vec<char> = Vec::new();
    let mut m = n;
    // `digits` holds the trailing digits of `n`, last first
    loop
        invariant_except_break
            decimal(n as nat) == decimal(m as nat) + digits@.reverse(),
        ensures
            decimal(n as nat) == digits@.reverse(),
        decreases m,
    {
        let d = m % 10;
        let c = char_of_digit(d);
        let ghost before = digits@;
        digits.push(c);
        proof {
            assert(digits@.reverse() == seq![c] + before.reverse()) by {
                assert(digits@.reverse() =~= seq![c] + before.reverse());
            }
        }
        if m < 10 {
            assert(decimal(m as nat) == seq![c]);
            assert(decimal(n as nat) == seq![c] + before.reverse());
            break;
        }
        assert(decimal(m as nat) == decimal((m / 10) as nat).push(c));
        assert(decimal((m / 10) as nat).push(c) + before.reverse() =~= decimal((m / 10) as nat)
            + (seq![c] + before.reverse()));
        m = m / 10;
    }
    let mut out: Vec<char> = Vec::new();
    let k = digits.len();
    let mut i = k;
    while i > 0
        invariant
            i <= k,
            k == digits@.len(),
            out@ == digits@.subrange(i as int, k as int).reverse(),
        decreases i,
    {
        i = i - 1;
        let ghost before = out@;
        out.push(digits[i]);
        assert(out@ =~= digits@.subrange(i as int, k as int).reverse());
    }
    assert(digits@.subrange(0, k as int) == digits@);
    string_of(&out)
}

fn char_of_digit(d: u64) -> (c: char)
    requires
        d < 10,
    ensures
        c == digit(d as nat),
{
    let digits = ['0', '1', '2', '3', '4', '5', '6', '7', '8', '9'];
    proof {
        assert(digit(d as nat) == digits@[d as int]);
    }
    digits[d as usize]
}

/// The decimal form of `i` (`i64::to_string`).
pub fn i64_to_decimal(i: i64) -> (s: String)
    ensures
        s@ == signed_decimal(i as int),
{
    if i < 0 {
        let m: u64 = if i == i64::MIN {
            9223372036854775808u64
        } else {
            (-i) as u64
        };
        let digits = u64_to_decimal(m);
        proof {
            reveal_strlit("-");
            assert("-"@ == seq!['-']);
        }
        concat("-", digits.as_str())
    } else {
        u64_to_decimal(i as u64)
    }
}

/// `str::trim`, as a new string.
pub fn trim_string(s: &str) -> (r: String)
    ensures
        r@ == trim(s@),
{
    let v = chars_of(s);
    let (a, b) = trim_range(&v, 0, v.len(), false);
    assert(v@.subrange(0, v@.len() as int) == v@);
    string_of_range(&v, a, b)
}

/// Whether two strings are equal.
pub fn string_eq(a: &String, b: &str) -> (r: bool)
    ensures
        r == (a@ == b@),
{
    let va = chars_of(a.as_str());
    let vb = chars_of(b);
    assert(va@.subrange(0, va@.len() as int) == va@);
    range_equals(&va, 0, va.len(), &vb)
}

/// The items joined by `sep` (`[String]::join`).
pub open spec fn join(items: Seq<Seq<char>>, sep: Seq<char>) -> Seq<char>
    decreases items.len(),
{
    if items.len() == 0 {
        Seq::empty()
    } else if items.len() == 1 {
        items[0]
    } else {
        items[0] + sep + join(items.drop_first(), sep)
    }
}

/// Each item preceded by `prefix`, all concatenated.
pub open spec fn prefix_each(items: Seq<Seq<char>>, prefix: Seq<char>) -> Seq<char>
    decreases items.len(),
{
    if items.len() == 0 {
        Seq::empty()
    } else {
        prefix + items[0] + prefix_each(items.drop_first(), prefix)
    }
}

/// Appends `t` to `s`.
pub fn push_str(s: &mut String, t: &str)
    ensures
        final(s)@ == old(s)@ + t@,
{
    s.append(t);
}

proof fn lemma_join_push(items: Seq<Seq<char>>, sep: Seq<char>, x: Seq<char>)
    requires
        items.len() > 0,
    ensures
        join(items.push(x), sep) == join(items, sep) + sep + x,
    decreases items.len(),
{
    let ys = items.push(x);
    if items.len() == 1 {
        assert(ys.drop_first() =~= seq![x]);
        assert(join(seq![x], sep) == x);
        assert(join(ys, sep) == ys[0] + sep + join(ys.drop_first(), sep));
    } else {
        assert(ys.drop_first() =~= items.drop_first().push(x));
        lemma_join_push(items.drop_first(), sep, x);
        assert(join(ys, sep) == ys[0] + sep + join(ys.drop_first(), sep));
        assert(join(ys, sep) =~= join(items, sep) + sep + x);
    }
}

proof fn lemma_prefix_each_push(items: Seq<Seq<char>>, prefix: Seq<char>, x: Seq<char>)
    ensures
        prefix_each(items.push(x), prefix) == prefix_each(items, prefix) + prefix + x,
    decreases items.len(),
{
    let ys = items.push(x);
    if items.len() == 0 {
        assert(ys.drop_first() =~= Seq::<Seq<char>>::empty());
        assert(prefix_each(ys, prefix) == prefix + x + prefix_each(ys.drop_first(), prefix));
        assert(prefix_each(ys, prefix) =~= prefix_each(items, prefix) + prefix + x);
    } else {
        assert(ys.drop_first() =~= items.drop_first().push(x));
        lemma_prefix_each_push(items.drop_first(), prefix, x);
        assert(prefix_each(ys, prefix) == prefix + ys[0] + prefix_each(ys.drop_first(), prefix));
        assert(prefix_each(ys, prefix) =~= prefix_each(items, prefix) + prefix + x);
    }
}

/// The strings of `items` joined by `sep`.
pub fn join_strings(items: &Vec<String>, sep: &str) -> (r: String)
    ensures
        r@ == join(strings_view(*items), sep@),
{
    let mut r = String::new();
    let n = items.len();
    for i in 0..n
        invariant
            n == items@.len(),
            r@ == join(strings_view(*items).take(i as int), sep@),
    {
        let ghost before = strings_view(*items).take(i as int);
        assert(strings_view(*items).take(i + 1) == before.push(items@[i as int]@));
        if i > 0 {
            push_str(&mut r, sep);
            proof {
                lemma_join_push(before, sep@, items@[i as int]@);
            }
        } else {
            assert(before.push(items@[i as int]@) =~= seq![items@[i as int]@]);
        }
        push_str(&mut r, items[i].as_str());
    }
    assert(strings_view(*items).take(n as int) == strings_view(*items));
    r
}

/// Appends each string of `items`, preceded by `prefix`, to `s`.
pub fn push_prefixed(s: &mut String, items: &Vec<String>, prefix: &str)
    ensures
        final(s)@ == old(s)@ + prefix_each(strings_view(*items), prefix@),
{
    let n = items.len();
    let ghost start = s@;
    assert(strings_view(*items).take(0) =~= Seq::<Seq<char>>::empty());
    for i in 0..n
        invariant
            n == items@.len(),
            s@ == start + prefix_each(strings_view(*items).take(i as int), prefix@),
    {
        let ghost before = strings_view(*items).take(i as int);
        assert(strings_view(*items).take(i + 1) == before.push(items@[i as int]@));
        proof {
            lemma_prefix_each_push(before, prefix@, items@[i as int]@);
        }
        push_str(s, prefix);
        push_str(s, items[i].as_str());
    }
    assert(strings_view(*items).take(n as int) == strings_view(*items));
}

/// `a` sorts before `b`: lexicographic order of their characters by code
/// point, a proper prefix first. This is the order of `String`s, whose UTF-8
/// bytes compare as their code points do.
pub open spec fn str_lt(a: Seq<char>, b: Seq<char>) -> bool
    decreases a.len(),
{
    if b.len() == 0 {
        false
    } else if a.len() == 0 {
        true
    } else if a[0] != b[0] {
        a[0] < b[0]
    } else {
        str_lt(a.drop_first(), b.drop_first())
    }
}

/// The strings are in ascending order.
pub open spec fn sorted_strings(s: Seq<Seq<char>>) -> bool {
    forall|i: int, j: int| 0 <= i < j < s.len() ==> !str_lt(#[trigger] s[j], #[trigger] s[i])
}

/// `str_lt` is a strict total order.
pub proof fn lemma_str_lt_order(a: Seq<char>, b: Seq<char>, c: Seq<char>)
    ensures
        !str_lt(a, a),
        a != b ==> str_lt(a, b) || str_lt(b, a),
        str_lt(a, b) ==> !str_lt(b, a),
        str_lt(a, b) && str_lt(b, c) ==> str_lt(a, c),
    decreases a.len(),
{
    if a.len() > 0 {
        if b.len() > 0 && c.len() > 0 {
            lemma_str_lt_order(a.drop_first(), b.drop_first(), c.drop_first());
        } else if b.len() > 0 {
            lemma_str_lt_order(a.drop_first(), b.drop_first(), c);
        } else if c.len() > 0 {
            lemma_str_lt_order(a.drop_first(), b, c.drop_first());
        } else {
            lemma_str_lt_order(a.drop_first(), b, c);
        }
        if a != b && b.len() > 0 && a[0] == b[0] {
            assert(a.drop_first() != b.drop_first()) by {
                if a.drop_first() == b.drop_first() {
                    assert(a =~= seq![a[0]] + a.drop_first());
                    assert(b =~= seq![b[0]] + b.drop_first());
                }
            }
        }
    } else {
        if b.len() == 0 {
            assert(a =~= b);
        }
    }
}

/// Whether `a` sorts before `b`.
pub fn str_less(a: &Vec<char>, b: &Vec<char>) -> (r: bool)
    ensures
        r == str_lt(a@, b@),
{
    let mut i: usize = 0;
    assert(a@.skip(0) == a@ && b@.skip(0) == b@);
    while i < a.len() && i < b.len() && a[i] == b[i]
        invariant
            i <= a@.len(),
            i <= b@.len(),
            str_lt(a@, b@) == str_lt(a@.skip(i as int), b@.skip(i as int)),
        decreases a@.len() - i,
    {
        assert(a@.skip(i as int).drop_first() == a@.skip(i + 1));
        assert(b@.skip(i as int).drop_first() == b@.skip(i + 1));
        i = i + 1;
    }
    if i == b.len() {
        false
    } else if i == a.len() {
        true
    } else {
        a[i] < b[i]
    }
}

proof fn lemma_insert_to_multiset(s: Seq<Seq<char>>, j: int, x: Seq<char>)
    requires
        0 <= j <= s.len(),
    ensures
        s.insert(j, x).to_multiset() == s.to_multiset().insert(x),
{
    broadcast use vstd::seq_lib::group_to_multiset_ensures;
    broadcast use vstd::multiset::group_multiset_axioms;

    let t = s.insert(j, x);
    assert(t.remove(j) =~= s);
    assert(t[j] == x);
    assert(t.contains(x));
    assert(t.to_multiset().count(x) > 0);
    assert(s.to_multiset() =~= t.to_multiset().remove(x));
    assert(t.to_multiset() =~= t.to_multiset().remove(x).insert(x));
}

/// `files` in ascending order ([`str_lt`]), as `sort` leaves them.
pub fn sort_strings(files: Vec<String>) -> (r: Vec<String>)
    ensures
        sorted_strings(strings_view(r)),
        strings_view(r).to_multiset() == strings_view(files).to_multiset(),
{
    let mut out: Vec<String> = Vec::new();
    let n = files.len();
    assert(strings_view(files).take(0) =~= Seq::<Seq<char>>::empty());
    assert(strings_view(out) =~= Seq::<Seq<char>>::empty());
    for i in 0..n
        invariant
            n == files@.len(),
            sorted_strings(strings_view(out)),
            strings_view(out).to_multiset() == strings_view(files).take(i as int).to_multiset(),
    {
        let x = files[i].clone();
        let xc = chars_of(x.as_str());
        let m = out.len();
        let mut j: usize = 0;
        while j < m && !str_less(&xc, &chars_of(out[j].as_str()))
            invariant
                m == out@.len(),
                j <= m,
                xc@ == x@,
                forall|k: int| 0 <= k < j ==> !str_lt(x@, #[trigger] strings_view(out)[k]),
            decreases m - j,
        {
            j = j + 1;
        }
        let ghost before = strings_view(out);
        proof {
            lemma_insert_to_multiset(before, j as int, x@);
            assert(strings_view(files).take(i + 1) == strings_view(files).take(i as int).push(x@));
            broadcast use vstd::seq_lib::group_to_multiset_ensures;
        }
        out.insert(j, x);
        assert(strings_view(out) =~= before.insert(j as int, x@));
        proof {
            let after = strings_view(out);
            assert forall|p: int, q: int| 0 <= p < q < after.len() implies !str_lt(
                #[trigger] after[q],
                #[trigger] after[p],
            ) by {
                if q < j {
                    assert(after[p] == before[p] && after[q] == before[q]);
                } else if q == j {
                    assert(after[p] == before[p]);
                } else if p == j {
                    let y = before[q - 1];
                    assert(after[q] == y);
                    lemma_str_lt_order(y, x@, before[j as int]);
                    lemma_str_lt_order(before[j as int], y, x@);
                    if j < q - 1 {
                        assert(!str_lt(before[q - 1], before[j as int]));
                    }
                } else if p < j {
                    assert(after[p] == before[p] && after[q] == before[q - 1]);
                } else {
                    assert(after[p] == before[p - 1] && after[q] == before[q - 1]);
                }
            }
        }
    }
    assert(strings_view(files).take(n as int) == strings_view(files));
    out
}

} // verus!

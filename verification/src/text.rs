//! Text helpers on character sequences: substring search, placeholder
//! substitution, Unicode whitespace trimming and decimal rendering.
use vstd::prelude::*;

verus! {

/// The characters of a string slice, in order.
pub fn str_chars(s: &str) -> (chars: Vec<char>)
    ensures
        chars@ == s@,
{
    broadcast use vstd::string::axiom_spec_iter;
    let mut v: Vec<char> = Vec::new();
    for c in it: s.chars()
        invariant
            v@ == it.seq().take(it.index() as int),
    {
        v.push(c);
    }
    v
}

/// A string made of the given characters, in order.
///
/// Trusted: collecting an iterator of `char`s into a `String` yields a string
/// whose characters are exactly those, in order.
#[verifier::external_body]
pub(crate) fn string_from_chars(chars: &Vec<char>) -> (s: String)
    ensures
        s@ == chars@,
{
    chars.iter().collect()
}

/// A string made of the given pieces, in order.
pub fn concat(parts: &Vec<&str>) -> (s: String)
    ensures
        s@ == parts@.map_values(|p: &str| p@).flatten(),
{
    let mut out: Vec<char> = Vec::new();
    let mut i: usize = 0;
    while i < parts.len()
        invariant
            i <= parts@.len(),
            out@ == parts@.take(i as int).map_values(|p: &str| p@).flatten(),
        decreases parts@.len() - i,
    {
        let piece = str_chars(parts[i]);
        let mut j: usize = 0;
        let ghost start = out@;
        while j < piece.len()
            invariant
                j <= piece@.len(),
                out@ == start + piece@.take(j as int),
            decreases piece@.len() - j,
        {
            out.push(piece[j]);
            j = j + 1;
            proof {
                assert(piece@.take(j as int) =~= piece@.take(j - 1).push(piece@[j - 1]));
            }
        }
        proof {
            assert(piece@.take(piece@.len() as int) =~= piece@);
            assert(parts@.take(i + 1).map_values(|p: &str| p@) =~= parts@.take(i as int).map_values(
                |p: &str| p@,
            ).push(parts@[i as int]@));
            parts@.take(i as int).map_values(|p: &str| p@).lemma_flatten_push(parts@[i as int]@);
        }
        i = i + 1;
    }
    proof {
        assert(parts@.take(parts@.len() as int) =~= parts@);
    }
    string_from_chars(&out)
}

/// `a` followed by `b`.
pub fn concat2(a: &str, b: &str) -> (s: String)
    ensures
        s@ == a@ + b@,
{
    let parts: Vec<&str> = vec![a, b];
    let r = concat(&parts);
    proof {
        let views = parts@.map_values(|p: &str| p@);
        assert(views =~= seq![a@, b@]);
        reveal_with_fuel(Seq::flatten, 3);
        assert(seq![a@, b@].flatten() =~= a@ + b@);
    }
    r
}

/// `a`, then `b`, then `c`.
pub fn concat3(a: &str, b: &str, c: &str) -> (s: String)
    ensures
        s@ == a@ + b@ + c@,
{
    let parts: Vec<&str> = vec![a, b, c];
    let r = concat(&parts);
    proof {
        let views = parts@.map_values(|p: &str| p@);
        assert(views =~= seq![a@, b@, c@]);
        reveal_with_fuel(Seq::flatten, 4);
        assert(seq![a@, b@, c@].flatten() =~= a@ + b@ + c@);
    }
    r
}

/// `pattern` occurs in `s` starting at index `i`.
pub open spec fn occurs_at(s: Seq<char>, pattern: Seq<char>, i: int) -> bool {
    &&& 0 <= i
    &&& i + pattern.len() <= s.len()
    &&& s.subrange(i, i + pattern.len()) == pattern
}

/// `s` contains `pattern` as a contiguous part.
pub open spec fn contains_seq(s: Seq<char>, pattern: Seq<char>) -> bool {
    exists|i: int| occurs_at(s, pattern, i)
}

/// `s` contains the character `c`.
pub open spec fn contains_char(s: Seq<char>, c: char) -> bool {
    exists|i: int| 0 <= i < s.len() && s[i] == c
}

/// Every non-overlapping occurrence of `pattern` in `s`, taken from left to
/// right, replaced by `replacement` (the pattern is not empty).
pub open spec fn replace_all(s: Seq<char>, pattern: Seq<char>, replacement: Seq<char>) -> Seq<
    char,
>
    decreases s.len(),
{
    if s.len() == 0 {
        Seq::empty()
    } else if pattern.len() > 0 && occurs_at(s, pattern, 0) {
        replacement + replace_all(s.skip(pattern.len() as int), pattern, replacement)
    } else {
        seq![s[0]] + replace_all(s.drop_first(), pattern, replacement)
    }
}

/// Whether `pattern` occurs in `s` at index `i` (executable form).
pub fn occurs_at_exec(s: &Vec<char>, pattern: &Vec<char>, i: usize) -> (b: bool)
    ensures
        b == occurs_at(s@, pattern@, i as int),
{
    if i > s.len() || s.len() - i < pattern.len() {
        return false;
    }
    let mut j: usize = 0;
    while j < pattern.len()
        invariant
            i + pattern@.len() <= s@.len(),
            i + pattern@.len() <= s.len(),
            j <= pattern@.len(),
            forall|k: int| 0 <= k < j ==> s@[i + k] == pattern@[k],
        decreases pattern@.len() - j,
    {
        if s[i + j] != pattern[j] {
            assert(s@.subrange(i as int, i + pattern@.len())[j as int] != pattern@[j as int]);
            return false;
        }
        j = j + 1;
    }
    assert(s@.subrange(i as int, i + pattern@.len()) =~= pattern@);
    true
}

/// Whether `pattern` occurs anywhere in `s`.
pub fn contains_exec(s: &Vec<char>, pattern: &Vec<char>) -> (b: bool)
    ensures
        b == contains_seq(s@, pattern@),
{
    if pattern.len() > s.len() {
        assert forall|k: int| !occurs_at(s@, pattern@, k) by {}
        return false;
    }
    let last = s.len() - pattern.len();
    let mut i: usize = 0;
    while i < last
        invariant
            i <= last,
            last + pattern@.len() == s@.len(),
            forall|k: int| 0 <= k < i ==> !occurs_at(s@, pattern@, k),
        decreases last - i,
    {
        if occurs_at_exec(s, pattern, i) {
            return true;
        }
        i = i + 1;
    }
    if occurs_at_exec(s, pattern, last) {
        return true;
    }
    assert forall|k: int| !occurs_at(s@, pattern@, k) by {
        if 0 <= k < last {
        }
    }
    false
}

proof fn lemma_replace_all_skip(s: Seq<char>, pattern: Seq<char>, replacement: Seq<char>, i: int)
    requires
        0 <= i < s.len(),
        pattern.len() > 0,
    ensures
        occurs_at(s, pattern, i) ==> replace_all(s.skip(i), pattern, replacement) == replacement
            + replace_all(s.skip(i + pattern.len()), pattern, replacement),
        !occurs_at(s, pattern, i) ==> replace_all(s.skip(i), pattern, replacement) == seq![s[i]]
            + replace_all(s.skip(i + 1), pattern, replacement),
{
    let t = s.skip(i);
    assert(occurs_at(s, pattern, i) == occurs_at(t, pattern, 0)) by {
        if i + pattern.len() <= s.len() {
            assert(s.subrange(i, i + pattern.len()) =~= t.subrange(0, pattern.len() as int));
        }
    }
    if occurs_at(t, pattern, 0) {
        assert(t.skip(pattern.len() as int) =~= s.skip(i + pattern.len()));
    } else {
        assert(t.drop_first() =~= s.skip(i + 1));
    }
}

/// Replace every occurrence of `pattern` in `s` by `replacement`, scanning
/// from left to right without overlap (as `str::replace` does).
pub fn replace_all_exec(s: &Vec<char>, pattern: &Vec<char>, replacement: &Vec<char>) -> (out: Vec<
    char,
>)
    requires
        pattern@.len() > 0,
    ensures
        out@ == replace_all(s@, pattern@, replacement@),
{
    let mut out: Vec<char> = Vec::new();
    let mut i: usize = 0;
    assert(s@.skip(0) =~= s@);
    while i < s.len()
        invariant
            i <= s@.len(),
            pattern@.len() > 0,
            replace_all(s@, pattern@, replacement@) == out@ + replace_all(
                s@.skip(i as int),
                pattern@,
                replacement@,
            ),
        decreases s@.len() - i,
    {
        proof {
            lemma_replace_all_skip(s@, pattern@, replacement@, i as int);
        }
        if occurs_at_exec(s, pattern, i) {
            let mut k: usize = 0;
            let ghost before = out@;
            while k < replacement.len()
                invariant
                    k <= replacement@.len(),
                    out@ == before + replacement@.take(k as int),
                decreases replacement@.len() - k,
            {
                out.push(replacement[k]);
                k = k + 1;
                assert(replacement@.take(k as int) =~= replacement@.take(k - 1) + seq![
                    replacement@[k - 1],
                ]);
            }
            assert(replacement@.take(replacement@.len() as int) =~= replacement@);
            i = i + pattern.len();
        } else {
            out.push(s[i]);
            i = i + 1;
        }
    }
    assert(s@.skip(i as int) =~= Seq::<char>::empty());
    out
}

/// Unicode `White_Space` characters, the ones `char::is_whitespace` accepts.
pub open spec fn is_unicode_whitespace(c: char) -> bool {
    let u = c as u32;
    ||| 0x09 <= u <= 0x0D
    ||| u == 0x20
    ||| u == 0x85
    ||| u == 0xA0
    ||| u == 0x1680
    ||| 0x2000 <= u <= 0x200A
    ||| u == 0x2028
    ||| u == 0x2029
    ||| u == 0x202F
    ||| u == 0x205F
    ||| u == 0x3000
}

/// Whether `c` is Unicode whitespace.
pub fn is_whitespace(c: char) -> (b: bool)
    ensures
        b == is_unicode_whitespace(c),
{
    let u = c as u32;
    (0x09 <= u && u <= 0x0D) || u == 0x20 || u == 0x85 || u == 0xA0 || u == 0x1680 || (0x2000 <= u
        && u <= 0x200A) || u == 0x2028 || u == 0x2029 || u == 0x202F || u == 0x205F || u == 0x3000
}

/// Number of leading whitespace characters.
pub open spec fn leading_ws(s: Seq<char>) -> nat
    decreases s.len(),
{
    if s.len() > 0 && is_unicode_whitespace(s[0]) {
        1 + leading_ws(s.drop_first())
    } else {
        0
    }
}

/// Number of trailing whitespace characters.
pub open spec fn trailing_ws(s: Seq<char>) -> nat
    decreases s.len(),
{
    if s.len() > 0 && is_unicode_whitespace(s.last()) {
        1 + trailing_ws(s.drop_last())
    } else {
        0
    }
}

/// `s` without leading and trailing Unicode whitespace (as `str::trim`).
pub open spec fn trim(s: Seq<char>) -> Seq<char> {
    let t = s.skip(leading_ws(s) as int);
    t.take(t.len() - trailing_ws(t))
}

proof fn lemma_leading_ws(s: Seq<char>, i: int)
    requires
        0 <= i <= s.len(),
        forall|k: int| 0 <= k < i ==> is_unicode_whitespace(#[trigger] s[k]),
    ensures
        leading_ws(s) == i + leading_ws(s.skip(i)),
    decreases i,
{
    if i > 0 {
        lemma_leading_ws(s.drop_first(), i - 1);
        assert(s.drop_first().skip(i - 1) =~= s.skip(i));
    } else {
        assert(s.skip(0) =~= s);
    }
}

proof fn lemma_trailing_ws(s: Seq<char>, i: int)
    requires
        0 <= i <= s.len(),
        forall|k: int| s.len() - i <= k < s.len() ==> is_unicode_whitespace(#[trigger] s[k]),
    ensures
        trailing_ws(s) == i + trailing_ws(s.take(s.len() - i)),
    decreases i,
{
    if i > 0 {
        lemma_trailing_ws(s.drop_last(), i - 1);
        assert(s.drop_last().take(s.drop_last().len() - (i - 1)) =~= s.take(s.len() - i));
    } else {
        assert(s.take(s.len() as int) =~= s);
    }
}

/// `s` without leading and trailing Unicode whitespace.
pub fn trim_exec(s: &Vec<char>) -> (out: Vec<char>)
    ensures
        out@ == trim(s@),
{
    let n = s.len();
    let mut start: usize = 0;
    while start < n && is_whitespace(s[start])
        invariant
            start <= n,
            n == s@.len(),
            forall|k: int| 0 <= k < start ==> is_unicode_whitespace(#[trigger] s@[k]),
        decreases n - start,
    {
        start = start + 1;
    }
    proof {
        lemma_leading_ws(s@, start as int);
    }
    let ghost t = s@.skip(start as int);
    let mut end: usize = n;
    while end > start && is_whitespace(s[end - 1])
        invariant
            start <= end <= n,
            n == s@.len(),
            t == s@.skip(start as int),
            forall|k: int| end <= k < n ==> is_unicode_whitespace(#[trigger] s@[k]),
        decreases end,
    {
        end = end - 1;
    }
    proof {
        assert forall|k: int| t.len() - (n - end) <= k < t.len() implies is_unicode_whitespace(
            #[trigger] t[k],
        ) by {
            assert(t[k] == s@[start + k]);
        }
        lemma_trailing_ws(t, (n - end) as int);
        let u = t.take(t.len() - (n - end));
        if end > start {
            assert(u.last() == s@[end - 1]);
            assert(u.drop_last() == t.take(u.len() - 1));
        }
        if u.len() > 0 {
            assert(!is_unicode_whitespace(u.last()));
        }
        assert(trailing_ws(u) == 0);
    }
    let mut out: Vec<char> = Vec::new();
    let mut k: usize = start;
    while k < end
        invariant
            start <= k <= end <= n,
            n == s@.len(),
            out@ == s@.subrange(start as int, k as int),
        decreases end - k,
    {
        out.push(s[k]);
        k = k + 1;
        assert(out@ =~= s@.subrange(start as int, k as int));
    }
    assert(out@ =~= trim(s@));
    out
}

/// Decimal digits of a natural number, most significant first, without
/// leading zeros (`0` renders as a single `0`).
pub open spec fn decimal(n: nat) -> Seq<char>
    decreases n,
{
    if n < 10 {
        seq![digit_char(n)]
    } else {
        decimal(n / 10) + seq![digit_char(n % 10)]
    }
}

/// The ASCII digit for `d < 10`.
pub open spec fn digit_char(d: nat) -> char {
    ((d + 48) as u32) as char
}

/// Render `n` in decimal.
pub fn decimal_exec(n: u64) -> (out: Vec<char>)
    ensures
        out@ == decimal(n as nat),
    decreases n,
{
    if n < 10 {
        let c = char_of_digit(n);
        let mut out: Vec<char> = Vec::new();
        out.push(c);
        assert(out@ =~= decimal(n as nat));
        out
    } else {
        let mut out = decimal_exec(n / 10);
        out.push(char_of_digit(n % 10));
        out
    }
}

fn char_of_digit(d: u64) -> (c: char)
    requires
        d < 10,
    ensures
        c == digit_char(d as nat),
{
    if d == 0 {
        '0'
    } else if d == 1 {
        '1'
    } else if d == 2 {
        '2'
    } else if d == 3 {
        '3'
    } else if d == 4 {
        '4'
    } else if d == 5 {
        '5'
    } else if d == 6 {
        '6'
    } else if d == 7 {
        '7'
    } else if d == 8 {
        '8'
    } else {
        '9'
    }
}

} // verus!

//! Preset names: display names, the folder names derived from them, and the
//! folder and file names that are safe to join to the presets directory.
use vstd::prelude::*;

use crate::text::{
    decimal, decimal_exec, is_whitespace, str_chars, string_from_chars, trim, trim_exec,
};

verus! {

/// The lowercase form of a string, as `str::to_lowercase` computes it.
pub uninterp spec fn lowercase(s: Seq<char>) -> Seq<char>;

/// The ASCII lowercase of a character: `A`-`Z` become `a`-`z`, any other
/// character stays.
pub open spec fn ascii_lower(c: char) -> char {
    if 'A' <= c <= 'Z' {
        ((c as u32) + 32) as char
    } else {
        c
    }
}

/// Every character of `s` is ASCII.
pub open spec fn all_ascii(s: Seq<char>) -> bool {
    forall|i: int| 0 <= i < s.len() ==> (#[trigger] s[i] as u32) < 128
}

/// Lowercase a string.
///
/// Trusted: `str::to_lowercase` is a function of the string's characters
/// alone (Unicode case mapping, with no locale), named `lowercase`; on ASCII
/// text the Unicode mapping lowercases `A`-`Z` and keeps every other
/// character.
#[verifier::external_body]
pub(crate) fn to_lowercase(s: &str) -> (out: String)
    ensures
        out@ == lowercase(s@),
        all_ascii(s@) ==> out@ == s@.map_values(|c: char| ascii_lower(c)),
{
    s.to_lowercase()
}

/// The lowercase form of a string: Unicode case mapping, so on ASCII text
/// `A`-`Z` become `a`-`z` and every other character stays.
pub fn lowercase_text(s: &str) -> (out: String)
    ensures
        out@ == lowercase(s@),
        all_ascii(s@) ==> out@ == s@.map_values(|c: char| ascii_lower(c)),
{
    to_lowercase(s)
}

/// The folder-name character for `c`: lowercase ASCII letters, digits, `-`
/// and `_` stay, a space becomes `-`, anything else `_`.
pub open spec fn folder_char(c: char) -> char {
    if ('a' <= c && c <= 'z') || ('0' <= c && c <= '9') || c == '-' || c == '_' {
        c
    } else if c == ' ' {
        '-'
    } else {
        '_'
    }
}

/// `-` and `_`, which are trimmed from both ends of a folder name.
pub open spec fn is_separator(c: char) -> bool {
    c == '-' || c == '_'
}

/// Number of leading separators.
pub open spec fn leading_separators(s: Seq<char>) -> nat
    decreases s.len(),
{
    if s.len() > 0 && is_separator(s[0]) {
        1 + leading_separators(s.drop_first())
    } else {
        0
    }
}

/// Number of trailing separators.
pub open spec fn trailing_separators(s: Seq<char>) -> nat
    decreases s.len(),
{
    if s.len() > 0 && is_separator(s.last()) {
        1 + trailing_separators(s.drop_last())
    } else {
        0
    }
}

/// `s` without leading and trailing separators.
pub open spec fn trim_separators(s: Seq<char>) -> Seq<char> {
    let t = s.skip(leading_separators(s) as int);
    t.take(t.len() - trailing_separators(t))
}

/// The folder name for a display name: lowercased, mapped character by
/// character with `folder_char`, then stripped of separators at both ends.
pub open spec fn sanitized_folder_name(name: Seq<char>) -> Seq<char> {
    trim_separators(lowercase(name).map_values(|c: char| folder_char(c)))
}

/// `s` is made of lowercase ASCII letters, digits, `-` and `_`, and neither
/// starts nor ends with `-` or `_`.
pub open spec fn is_clean_folder_name(s: Seq<char>) -> bool {
    &&& forall|k: int|
        0 <= k < s.len() ==> {
            let c = #[trigger] s[k];
            ('a' <= c && c <= 'z') || ('0' <= c && c <= '9') || c == '-' || c == '_'
        }
    &&& s.len() > 0 ==> !is_separator(s[0]) && !is_separator(s.last())
}

proof fn lemma_leading_separators(s: Seq<char>, i: int)
    requires
        0 <= i <= s.len(),
        forall|k: int| 0 <= k < i ==> is_separator(#[trigger] s[k]),
    ensures
        leading_separators(s) == i + leading_separators(s.skip(i)),
    decreases i,
{
    if i > 0 {
        lemma_leading_separators(s.drop_first(), i - 1);
        assert(s.drop_first().skip(i - 1) =~= s.skip(i));
    } else {
        assert(s.skip(0) =~= s);
    }
}

proof fn lemma_trailing_separators(s: Seq<char>, i: int)
    requires
        0 <= i <= s.len(),
        forall|k: int| s.len() - i <= k < s.len() ==> is_separator(#[trigger] s[k]),
    ensures
        trailing_separators(s) == i + trailing_separators(s.take(s.len() - i)),
    decreases i,
{
    if i > 0 {
        lemma_trailing_separators(s.drop_last(), i - 1);
        assert(s.drop_last().take(s.drop_last().len() - (i - 1)) =~= s.take(s.len() - i));
    } else {
        assert(s.take(s.len() as int) =~= s);
    }
}

/// A name that already is a clean folder name (lowercase ASCII letters,
/// digits, `-` and `_`, no `-` or `_` at either end), and that lowercasing
/// leaves as it is, is its own folder name: letters and digits are kept, so
/// names that differ in a digit get different folders.
pub proof fn lemma_clean_names_are_kept(s: Seq<char>)
    requires
        is_clean_folder_name(s),
        lowercase(s) == s,
    ensures
        sanitized_folder_name(s) == s,
{
    let m = s.map_values(|c: char| folder_char(c));
    assert(m =~= s);
    assert(leading_separators(s) == 0);
    assert(s.skip(0) =~= s);
    assert(trailing_separators(s) == 0);
    assert(s.take(s.len() as int) =~= s);
}

/// Sanitize a display name to a safe folder name.
pub fn sanitize_folder_name(name: &str) -> (folder: String)
    ensures
        folder@ == sanitized_folder_name(name@),
        is_clean_folder_name(folder@),
        is_clean_folder_name(name@) ==> folder@ == name@,
{
    let lower = to_lowercase(name);
    proof {
        if is_clean_folder_name(name@) {
            assert forall|k: int| 0 <= k < name@.len() implies (#[trigger] name@[k] as u32) < 128 by {
                let c = name@[k];
                assert(('a' <= c && c <= 'z') || ('0' <= c && c <= '9') || c == '-' || c == '_');
            }
            assert(name@.map_values(|c: char| ascii_lower(c)) =~= name@);
            lemma_clean_names_are_kept(name@);
        }
    }
    let chars = str_chars(lower.as_str());
    let mut mapped: Vec<char> = Vec::new();
    let mut i: usize = 0;
    while i < chars.len()
        invariant
            i <= chars@.len(),
            chars@ == lowercase(name@),
            mapped@ == chars@.take(i as int).map_values(|c: char| folder_char(c)),
        decreases chars@.len() - i,
    {
        let c = chars[i];
        let m = if ('a' <= c && c <= 'z') || ('0' <= c && c <= '9') || c == '-' || c == '_' {
            c
        } else if c == ' ' {
            '-'
        } else {
            '_'
        };
        mapped.push(m);
        i = i + 1;
        assert(mapped@ =~= chars@.take(i as int).map_values(|c: char| folder_char(c)));
    }
    assert(chars@.take(chars@.len() as int) =~= chars@);
    let n = mapped.len();
    let mut start: usize = 0;
    while start < n && (mapped[start] == '-' || mapped[start] == '_')
        invariant
            start <= n,
            n == mapped@.len(),
            forall|k: int| 0 <= k < start ==> is_separator(#[trigger] mapped@[k]),
        decreases n - start,
    {
        start = start + 1;
    }
    proof {
        lemma_leading_separators(mapped@, start as int);
    }
    let ghost t = mapped@.skip(start as int);
    let mut end: usize = n;
    while end > start && (mapped[end - 1] == '-' || mapped[end - 1] == '_')
        invariant
            start <= end <= n,
            n == mapped@.len(),
            t == mapped@.skip(start as int),
            forall|k: int| end <= k < n ==> is_separator(#[trigger] mapped@[k]),
        decreases end,
    {
        end = end - 1;
    }
    proof {
        assert forall|k: int| t.len() - (n - end) <= k < t.len() implies is_separator(
            #[trigger] t[k],
        ) by {
            assert(t[k] == mapped@[start + k]);
        }
        lemma_trailing_separators(t, (n - end) as int);
        let u = t.take(t.len() - (n - end));
        if end > start {
            assert(u.last() == mapped@[end - 1]);
        }
        assert(trailing_separators(u) == 0);
    }
    let mut out: Vec<char> = Vec::new();
    let mut k: usize = start;
    while k < end
        invariant
            start <= k <= end <= n,
            n == mapped@.len(),
            out@ == mapped@.subrange(start as int, k as int),
        decreases end - k,
    {
        out.push(mapped[k]);
        k = k + 1;
        assert(out@ =~= mapped@.subrange(start as int, k as int));
    }
    assert(out@ =~= sanitized_folder_name(name@));
    proof {
        if out@.len() > 0 {
            assert(out@[0] == mapped@[start as int]);
            assert(out@.last() == mapped@[end - 1]);
        }
        assert forall|k: int| 0 <= k < out@.len() implies {
            let c = #[trigger] out@[k];
            ('a' <= c && c <= 'z') || ('0' <= c && c <= '9') || c == '-' || c == '_'
        } by {
            assert(out@[k] == mapped@[start + k]);
            assert(mapped@[start + k] == folder_char(chars@[start + k]));
        }
    }
    string_from_chars(&out)
}

/// Longest accepted name, in UTF-8 bytes after trimming.
pub const MAX_NAME_BYTES: usize = 64;

/// Why `validate_name` refuses a name, or `None` when it accepts it.
pub open spec fn name_problem(name: Seq<char>) -> Option<&'static str> {
    let t = trim(name);
    if t.len() == 0 {
        Some("Name cannot be empty")
    } else if vstd::utf8::encode_utf8(t).len() > MAX_NAME_BYTES {
        Some("Name too long (max 64 characters)")
    } else if sanitized_folder_name(t).len() == 0 {
        Some("Name must contain at least one letter or number")
    } else {
        None
    }
}

/// Validate a preset name: non-empty after trimming, at most 64 bytes, and
/// yielding a non-empty folder name.
pub fn validate_name(name: &str) -> (r: Result<(), &'static str>)
    ensures
        r is Ok <==> name_problem(name@) is None,
        r matches Err(msg) ==> name_problem(name@) == Some(msg),
{
    let chars = str_chars(name);
    let trimmed_chars = trim_exec(&chars);
    if trimmed_chars.len() == 0 {
        return Err("Name cannot be empty");
    }
    let trimmed = string_from_chars(&trimmed_chars);
    if trimmed.as_str().as_bytes().len() > MAX_NAME_BYTES {
        return Err("Name too long (max 64 characters)");
    }
    let folder = sanitize_folder_name(trimmed.as_str());
    assert(trimmed@ == trim(name@));
    assert(folder@ == sanitized_folder_name(trim(name@)));
    if folder.as_str().is_empty() {
        return Err("Name must contain at least one letter or number");
    }
    Ok(())
}

/// `value` can be joined to a directory without leaving it: not empty, not
/// `.` or `..`, and free of `/`, `\` and NUL.
pub open spec fn is_safe_segment(value: Seq<char>) -> bool {
    &&& value.len() > 0
    &&& value != seq!['.']
    &&& value != seq!['.', '.']
    &&& forall|k: int|
        0 <= k < value.len() ==> #[trigger] value[k] != '/' && value[k] != '\\' && value[k]
            != '\0'
}

/// A safe segment that is not hidden (does not start with `.`).
pub open spec fn is_visible_safe_segment(value: Seq<char>) -> bool {
    is_safe_segment(value) && value[0] != '.'
}

fn is_safe_path_segment_chars(value: &Vec<char>) -> (b: bool)
    ensures
        b == is_safe_segment(value@),
{
    let n = value.len();
    if n == 0 {
        return false;
    }
    if n == 1 && value[0] == '.' {
        assert(value@ =~= seq!['.']);
        return false;
    }
    if n == 2 && value[0] == '.' && value[1] == '.' {
        assert(value@ =~= seq!['.', '.']);
        return false;
    }
    let mut i: usize = 0;
    while i < n
        invariant
            n == value@.len(),
            forall|k: int|
                0 <= k < i ==> #[trigger] value@[k] != '/' && value@[k] != '\\' && value@[k]
                    != '\0',
        decreases n - i,
    {
        let c = value[i];
        if c == '/' || c == '\\' || c == '\0' {
            return false;
        }
        i = i + 1;
    }
    proof {
        if n == 1 {
            assert(value@ != seq!['.']) by {
                assert(seq!['.'][0] == '.');
            }
        }
        if n == 2 {
            assert(value@ != seq!['.', '.']) by {
                assert(seq!['.', '.'][0] == '.' && seq!['.', '.'][1] == '.');
            }
        }
    }
    true
}

/// Whether `value` is a safe path segment.
pub fn is_safe_path_segment(value: &str) -> (b: bool)
    ensures
        b == is_safe_segment(value@),
{
    let chars = str_chars(value);
    is_safe_path_segment_chars(&chars)
}

/// Whether `folder` names a saved preset folder: a safe segment that is not
/// hidden (internal staging and backup folders start with `.`).
pub fn is_valid_preset_folder(folder: &str) -> (b: bool)
    ensures
        b == is_visible_safe_segment(folder@),
{
    let chars = str_chars(folder);
    is_safe_path_segment_chars(&chars) && chars[0] != '.'
}

/// Whether `asset` names a file that may be stored in a preset folder.
pub fn is_valid_preset_asset(asset: &str) -> (b: bool)
    ensures
        b == is_visible_safe_segment(asset@),
{
    let chars = str_chars(asset);
    is_safe_path_segment_chars(&chars) && chars[0] != '.'
}

/// The folder name of a saved preset; only names that `is_valid_preset_folder`
/// accepts can be made.
#[derive(Debug)]
pub struct PresetFolder(String);

impl View for PresetFolder {
    type V = Seq<char>;

    closed spec fn view(&self) -> Seq<char> {
        self.0@
    }
}

impl Clone for PresetFolder {
    fn clone(&self) -> (c: Self)
        ensures
            c@ == self@,
    {
        proof {
            use_type_invariant(self);
        }
        PresetFolder(self.0.clone())
    }
}

impl PresetFolder {
    #[verifier::type_invariant]
    spec fn wf(self) -> bool {
        is_visible_safe_segment(self.0@)
    }

    /// The folder for `folder`, if it is a valid preset folder name.
    pub fn parse(folder: &str) -> (r: Option<Self>)
        ensures
            r is Some <==> is_visible_safe_segment(folder@),
            r matches Some(f) ==> f@ == folder@,
    {
        if is_valid_preset_folder(folder) {
            Some(PresetFolder(folder.to_owned()))
        } else {
            None
        }
    }

    pub fn as_str(&self) -> (s: &str)
        ensures
            s@ == self@,
            is_visible_safe_segment(s@),
    {
        proof {
            use_type_invariant(self);
        }
        self.0.as_str()
    }

    /// Whether two folders have the same name.
    pub fn same_as(&self, other: &PresetFolder) -> (b: bool)
        ensures
            b == (self@ == other@),
    {
        let a = str_chars(self.0.as_str());
        let b = str_chars(other.0.as_str());
        chars_equal(&a, &b)
    }
}

/// Whether two character vectors are equal.
pub fn chars_equal(a: &Vec<char>, b: &Vec<char>) -> (eq: bool)
    ensures
        eq == (a@ == b@),
{
    if a.len() != b.len() {
        return false;
    }
    let mut i: usize = 0;
    while i < a.len()
        invariant
            a@.len() == b@.len(),
            forall|k: int| 0 <= k < i ==> a@[k] == b@[k],
        decreases a@.len() - i,
    {
        if a[i] != b[i] {
            return false;
        }
        i = i + 1;
    }
    assert(a@ =~= b@);
    true
}

/// The name of a file stored in a preset folder; only names that
/// `is_valid_preset_asset` accepts can be made.
#[derive(Debug)]
pub struct PresetAsset(String);

impl View for PresetAsset {
    type V = Seq<char>;

    closed spec fn view(&self) -> Seq<char> {
        self.0@
    }
}

impl Clone for PresetAsset {
    fn clone(&self) -> (c: Self)
        ensures
            c@ == self@,
    {
        proof {
            use_type_invariant(self);
        }
        PresetAsset(self.0.clone())
    }
}

impl PresetAsset {
    #[verifier::type_invariant]
    spec fn wf(self) -> bool {
        is_visible_safe_segment(self.0@)
    }

    /// The asset for `asset`, if it is a valid preset file name.
    pub fn parse(asset: &str) -> (r: Option<Self>)
        ensures
            r is Some <==> is_visible_safe_segment(asset@),
            r matches Some(a) ==> a@ == asset@,
    {
        if is_valid_preset_asset(asset) {
            Some(PresetAsset(asset.to_owned()))
        } else {
            None
        }
    }

    pub fn as_str(&self) -> (s: &str)
        ensures
            s@ == self@,
            is_visible_safe_segment(s@),
    {
        proof {
            use_type_invariant(self);
        }
        self.0.as_str()
    }
}

/// The `n`-th folder name tried for a new preset: the sanitized name itself
/// first, then `name-2`, `name-3`, and so on.
pub open spec fn folder_candidate(base: Seq<char>, n: nat) -> Seq<char> {
    if n <= 1 {
        base
    } else {
        base + seq!['-'] + decimal(n)
    }
}

/// The `n`-th folder name tried for a new preset based on `base`.
pub fn folder_name_candidate(base: &str, n: u64) -> (candidate: String)
    ensures
        candidate@ == folder_candidate(base@, n as nat),
{
    if n <= 1 {
        return base.to_owned();
    }
    let mut chars = str_chars(base);
    chars.push('-');
    let digits = decimal_exec(n);
    let mut i: usize = 0;
    let ghost before = chars@;
    while i < digits.len()
        invariant
            i <= digits@.len(),
            chars@ == before + digits@.take(i as int),
        decreases digits@.len() - i,
    {
        chars.push(digits[i]);
        i = i + 1;
        assert(chars@ =~= before + digits@.take(i as int));
    }
    assert(digits@.take(digits@.len() as int) =~= digits@);
    string_from_chars(&chars)
}

} // verus!

verus! {

proof fn lemma_leading_separators_stop(s: Seq<char>)
    ensures
        leading_separators(s) <= s.len(),
        leading_separators(s) < s.len() ==> !is_separator(s[leading_separators(s) as int]),
    decreases s.len(),
{
    if s.len() > 0 && is_separator(s[0]) {
        lemma_leading_separators_stop(s.drop_first());
    }
}

proof fn lemma_trailing_separators_stop(s: Seq<char>)
    ensures
        trailing_separators(s) <= s.len(),
        trailing_separators(s) < s.len() ==> !is_separator(
            s[s.len() - 1 - trailing_separators(s)],
        ),
    decreases s.len(),
{
    if s.len() > 0 && is_separator(s.last()) {
        lemma_trailing_separators_stop(s.drop_last());
    }
}

/// Whatever the display name, its folder name is made of lowercase ASCII
/// letters, digits, `-` and `_`, and neither starts nor ends with `-` or `_`.
pub proof fn lemma_sanitized_name_is_clean(name: Seq<char>)
    ensures
        is_clean_folder_name(sanitized_folder_name(name)),
{
    let m = lowercase(name).map_values(|c: char| folder_char(c));
    lemma_leading_separators_stop(m);
    let t = m.skip(leading_separators(m) as int);
    lemma_trailing_separators_stop(t);
    let u = t.take(t.len() - trailing_separators(t));
    assert forall|k: int| 0 <= k < u.len() implies {
        let c = #[trigger] u[k];
        ('a' <= c && c <= 'z') || ('0' <= c && c <= '9') || c == '-' || c == '_'
    } by {
        assert(u[k] == m[leading_separators(m) + k]);
    }
    if u.len() > 0 {
        assert(u[0] == t[0]);
        assert(u.last() == t[t.len() - 1 - trailing_separators(t)]);
    }
}

/// A non-empty clean folder name is a valid preset folder name.
pub proof fn lemma_clean_name_is_valid_folder(s: Seq<char>)
    requires
        is_clean_folder_name(s),
        s.len() > 0,
    ensures
        is_visible_safe_segment(s),
{
    assert(s[0] != '.');
    assert(s != seq!['.']) by {
        assert(seq!['.'][0] == '.');
    }
    assert(s != seq!['.', '.']) by {
        assert(seq!['.', '.'][0] == '.');
    }
}

/// Every name that `validate_name` accepts yields a folder name that
/// `PresetFolder::parse` accepts.
pub proof fn lemma_accepted_name_has_valid_folder(name: Seq<char>)
    requires
        name_problem(name) is None,
    ensures
        is_visible_safe_segment(sanitized_folder_name(trim(name))),
{
    lemma_sanitized_name_is_clean(trim(name));
    lemma_clean_name_is_valid_folder(sanitized_folder_name(trim(name)));
}

/// Every folder name tried for a new preset (`name`, `name-2`, `name-3`, ...)
/// is a valid preset folder name when the sanitized name is not empty.
pub proof fn lemma_folder_candidates_are_valid(base: Seq<char>, n: nat)
    requires
        is_clean_folder_name(base),
        base.len() > 0,
    ensures
        is_visible_safe_segment(folder_candidate(base, n)),
{
    lemma_clean_name_is_valid_folder(base);
    if n > 1 {
        let c = folder_candidate(base, n);
        lemma_decimal_digits(n);
        assert forall|k: int| 0 <= k < c.len() implies #[trigger] c[k] != '/' && c[k] != '\\'
            && c[k] != '\0' by {
            if k < base.len() {
                assert(c[k] == base[k]);
            } else if k > base.len() {
                assert(c[k] == decimal(n)[k - base.len() - 1]);
            }
        }
        assert(c[0] == base[0]);
        assert(c != seq!['.']) by {
            assert(seq!['.'][0] == '.');
        }
        assert(c != seq!['.', '.']) by {
            assert(seq!['.', '.'][0] == '.');
        }
    }
}

/// The decimal rendering of a number is made of ASCII digits.
pub proof fn lemma_decimal_digits(n: nat)
    ensures
        forall|k: int| 0 <= k < decimal(n).len() ==> '0' <= #[trigger] decimal(n)[k] <= '9',
    decreases n,
{
    if n >= 10 {
        lemma_decimal_digits(n / 10);
        let d = decimal(n);
        assert forall|k: int| 0 <= k < d.len() implies '0' <= #[trigger] d[k] <= '9' by {
            if k < decimal(n / 10).len() {
                assert(d[k] == decimal(n / 10)[k]);
            }
        }
    }
}

} // verus!

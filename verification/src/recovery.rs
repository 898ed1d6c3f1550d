//! Recovery of preset folders after an interrupted save.
//!
//! A save writes the new preset into `.<folder>.staging.<suffix>`, moves an
//! existing preset aside to `.<folder>.backup.<suffix>`, then renames the
//! staging folder into place. When the app stops halfway, such internal
//! folders stay behind; at the next start they are either removed (the live
//! folder is fine) or the best of them is restored as the live folder.
use vstd::prelude::*;

use crate::names::chars_equal;
use crate::text::{occurs_at, str_chars, string_from_chars};

verus! {

/// The kind of an internal preset folder.
#[derive(Debug, Clone, Copy, PartialEq, Eq, Structural)]
pub enum InternalPresetKind {
    Staging,
    Backup,
}

/// Staging folders hold the newest data, so they are preferred over backups.
pub open spec fn priority(kind: InternalPresetKind) -> int {
    match kind {
        InternalPresetKind::Staging => 1,
        InternalPresetKind::Backup => 0,
    }
}

impl InternalPresetKind {
    pub fn recovery_priority(self) -> (p: u8)
        ensures
            p == priority(self),
    {
        match self {
            InternalPresetKind::Staging => 1,
            InternalPresetKind::Backup => 0,
        }
    }
}

/// `.staging.`
pub open spec fn staging_marker() -> Seq<char> {
    seq!['.', 's', 't', 'a', 'g', 'i', 'n', 'g', '.']
}

/// `.backup.`
pub open spec fn backup_marker() -> Seq<char> {
    seq!['.', 'b', 'a', 'c', 'k', 'u', 'p', '.']
}

/// Index of the first occurrence of `pattern` in `s`.
#[verifier::opaque]
pub open spec fn first_occurrence(s: Seq<char>, pattern: Seq<char>) -> Option<int> {
    if exists|i: int| occurs_at(s, pattern, i) {
        Some(
            choose|i: int|
                occurs_at(s, pattern, i) && forall|j: int| 0 <= j < i ==> !occurs_at(s, pattern, j),
        )
    } else {
        None
    }
}

/// The live folder and kind of an internal folder name: `.<live>.staging.*`
/// or `.<live>.backup.*`, split at the first marker (a staging marker is
/// looked for first), with a non-empty live part.
pub open spec fn internal_parts(folder: Seq<char>) -> Option<(Seq<char>, InternalPresetKind)> {
    if folder.len() == 0 || folder[0] != '.' {
        None
    } else {
        let f = folder.drop_first();
        match marker_split(f) {
            Some((i, kind)) => Some((f.take(i), kind)),
            None => None,
        }
    }
}

/// Where the live part of `f` (an internal folder name without its leading
/// dot) ends, and the kind of the folder.
pub open spec fn marker_split(f: Seq<char>) -> Option<(int, InternalPresetKind)> {
    match first_occurrence(f, staging_marker()) {
        Some(i) => if i > 0 {
            Some((i, InternalPresetKind::Staging))
        } else {
            None
        },
        None => match first_occurrence(f, backup_marker()) {
            Some(i) => if i > 0 {
                Some((i, InternalPresetKind::Backup))
            } else {
                None
            },
            None => None,
        },
    }
}

fn split_at_marker(f: &Vec<char>) -> (r: Option<(usize, InternalPresetKind)>)
    ensures
        match r {
            Some((i, kind)) => marker_split(f@) == Some((i as int, kind)) && i <= f@.len(),
            None => marker_split(f@) is None,
        },
{
    let staging = str_chars(".staging.");
    let backup = str_chars(".backup.");
    proof {
        reveal_strlit(".staging.");
        reveal_strlit(".backup.");
        assert(staging@ =~= staging_marker());
        assert(backup@ =~= backup_marker());
    }
    match find_first(f, &staging) {
        Some(i) => if i > 0 {
            Some((i, InternalPresetKind::Staging))
        } else {
            None
        },
        None => match find_first(f, &backup) {
            Some(i) => if i > 0 {
                Some((i, InternalPresetKind::Backup))
            } else {
                None
            },
            None => None,
        },
    }
}

/// Index of the first occurrence of `pattern` in `s` (executable form).
pub fn find_first(s: &Vec<char>, pattern: &Vec<char>) -> (r: Option<usize>)
    ensures
        match r {
            Some(i) => first_occurrence(s@, pattern@) == Some(i as int) && i + pattern@.len()
                <= s@.len(),
            None => first_occurrence(s@, pattern@) is None,
        },
{
    reveal(first_occurrence);
    if pattern.len() > s.len() {
        assert forall|k: int| !occurs_at(s@, pattern@, k) by {}
        return None;
    }
    let last = s.len() - pattern.len();
    let mut i: usize = 0;
    while i <= last
        invariant
            last + pattern@.len() == s@.len(),
            forall|k: int| 0 <= k < i ==> !occurs_at(s@, pattern@, k),
            i <= last + 1,
        decreases last + 1 - i,
    {
        if crate::text::occurs_at_exec(s, pattern, i) {
            proof {
                reveal(first_occurrence);
                let c = choose|c: int|
                    occurs_at(s@, pattern@, c) && forall|j: int|
                        0 <= j < c ==> !occurs_at(s@, pattern@, j);
                assert(c == i) by {
                    if c < i {
                    }
                    if c > i {
                    }
                }
            }
            return Some(i);
        }
        if i == last {
            proof {
                reveal(first_occurrence);
            }
            assert forall|k: int| !occurs_at(s@, pattern@, k) by {
                if 0 <= k <= last {
                }
            }
            return None;
        }
        i = i + 1;
    }
    None
}

/// Split an internal folder name into its live folder and kind.
pub fn internal_folder_parts(folder: &str) -> (r: Option<(String, InternalPresetKind)>)
    ensures
        match r {
            Some((live, kind)) => internal_parts(folder@) == Some((live@, kind)),
            None => internal_parts(folder@) is None,
        },
{
    let chars = str_chars(folder);
    if chars.len() == 0 || chars[0] != '.' {
        return None;
    }
    let mut f: Vec<char> = Vec::new();
    let mut k: usize = 1;
    while k < chars.len()
        invariant
            1 <= k <= chars@.len(),
            f@ == chars@.subrange(1, k as int),
        decreases chars@.len() - k,
    {
        f.push(chars[k]);
        k = k + 1;
        assert(f@ =~= chars@.subrange(1, k as int));
    }
    assert(f@ =~= folder@.drop_first());
    let (at, kind) = match split_at_marker(&f) {
        Some(split) => split,
        None => {
            return None;
        },
    };
    let mut live: Vec<char> = Vec::new();
    let mut j: usize = 0;
    while j < at
        invariant
            j <= at,
            at <= f@.len(),
            live@ == f@.take(j as int),
        decreases at - j,
    {
        live.push(f[j]);
        j = j + 1;
        assert(live@ =~= f@.take(j as int));
    }
    Some((string_from_chars(&live), kind))
}

} // verus!

verus! {

/// Lexicographic order on character sequences by code point (the order of
/// `String`'s `Ord`, since UTF-8 preserves it).
pub open spec fn lex_le(a: Seq<char>, b: Seq<char>) -> bool
    decreases a.len(),
{
    if a.len() == 0 {
        true
    } else if b.len() == 0 {
        false
    } else if a[0] != b[0] {
        a[0] < b[0]
    } else {
        lex_le(a.drop_first(), b.drop_first())
    }
}

/// `lex_le` relates any two sequences one way or the other.
pub proof fn lemma_lex_le_total(a: Seq<char>, b: Seq<char>)
    ensures
        lex_le(a, b) || lex_le(b, a),
    decreases a.len(),
{
    if a.len() > 0 && b.len() > 0 && a[0] == b[0] {
        lemma_lex_le_total(a.drop_first(), b.drop_first());
    }
}

/// `lex_le` is transitive.
pub proof fn lemma_lex_le_transitive(a: Seq<char>, b: Seq<char>, c: Seq<char>)
    requires
        lex_le(a, b),
        lex_le(b, c),
    ensures
        lex_le(a, c),
    decreases a.len(),
{
    if a.len() > 0 && b.len() > 0 && c.len() > 0 && a[0] == b[0] && b[0] == c[0] {
        lemma_lex_le_transitive(a.drop_first(), b.drop_first(), c.drop_first());
    }
}

/// Whether `a` comes before or equals `b` lexicographically.
pub fn lex_le_exec(a: &Vec<char>, b: &Vec<char>) -> (r: bool)
    ensures
        r == lex_le(a@, b@),
{
    let mut i: usize = 0;
    assert(a@.skip(0) =~= a@ && b@.skip(0) =~= b@);
    while i < a.len() && i < b.len() && a[i] == b[i]
        invariant
            i <= a@.len(),
            i <= b@.len(),
            forall|k: int| 0 <= k < i ==> a@[k] == b@[k],
            lex_le(a@, b@) == lex_le(a@.skip(i as int), b@.skip(i as int)),
        decreases a@.len() - i,
    {
        assert(a@.skip(i as int).drop_first() =~= a@.skip(i + 1));
        assert(b@.skip(i as int).drop_first() =~= b@.skip(i + 1));
        i = i + 1;
    }
    if i == a.len() {
        true
    } else if i == b.len() {
        false
    } else {
        a[i] < b[i]
    }
}

/// A directory entry of the presets directory, as the host saw it: its name,
/// whether it is a directory, and whether it holds a `preset.json` file.
#[derive(Debug, Clone)]
pub struct PresetDirEntry {
    pub name: String,
    pub is_dir: bool,
    pub has_config: bool,
}

/// The live folder an entry is an internal folder of, if it is one.
pub open spec fn entry_live(e: PresetDirEntry) -> Option<Seq<char>> {
    if e.is_dir {
        match internal_parts(e.name@) {
            Some((live, _)) => Some(live),
            None => None,
        }
    } else {
        None
    }
}

/// The kind of an internal folder entry.
pub open spec fn entry_kind(e: PresetDirEntry) -> InternalPresetKind {
    match internal_parts(e.name@) {
        Some((_, kind)) => kind,
        None => InternalPresetKind::Backup,
    }
}

/// The recovery order of internal folders: staging before backup, then by
/// folder name.
pub open spec fn key_le(a: PresetDirEntry, b: PresetDirEntry) -> bool {
    priority(entry_kind(a)) < priority(entry_kind(b)) || (priority(entry_kind(a)) == priority(
        entry_kind(b),
    ) && lex_le(a.name@, b.name@))
}

/// The live preset folder `live` is present and valid.
pub open spec fn live_is_valid(entries: Seq<PresetDirEntry>, live: Seq<char>) -> bool {
    exists|k: int| 0 <= k < entries.len() && entries[k].name@ == live && entries[k].has_config
}

/// What to do with the internal folders of one live preset folder.
#[derive(Debug, Clone)]
pub struct RecoveryGroup {
    /// The live folder name.
    pub live: String,
    /// Indices (into the entries) of its internal folders, in listing order.
    pub members: Vec<usize>,
    /// The member to rename into the live folder, if any; the other members
    /// are removed once it is in place. With no member to restore, all
    /// members are removed.
    pub restore: Option<usize>,
}

/// `groups` is the recovery plan for `entries`.
pub open spec fn is_recovery_plan(entries: Seq<PresetDirEntry>, groups: Seq<RecoveryGroup>) -> bool {
    // every internal folder belongs to the group of its live folder
    &&& forall|i: int|
        #![trigger entry_live(entries[i])]
        0 <= i < entries.len() && entry_live(entries[i]) is Some ==> exists|g: int|
            0 <= g < groups.len() && groups[g].live@ == entry_live(entries[i])->0
                && groups[g].members@.contains(i as usize)
    // one group per live folder
    &&& forall|g: int, h: int|
        0 <= g < groups.len() && 0 <= h < groups.len() && g != h ==> groups[g].live@
            != groups[h].live@
    &&& forall|g: int| 0 <= g < groups.len() ==> is_recovery_group(entries, #[trigger] groups[g])
}

/// `group` lists, in order, internal folders of its live folder, and restores
/// the best valid one of them unless the live folder is valid.
pub open spec fn is_recovery_group(entries: Seq<PresetDirEntry>, group: RecoveryGroup) -> bool {
    let m = group.members@;
    &&& m.len() > 0
    &&& forall|k: int|
        0 <= k < m.len() ==> m[k] < entries.len() && entry_live(entries[m[k] as int]) == Some(
            group.live@,
        )
    &&& forall|k: int, l: int| 0 <= k < l < m.len() ==> m[k] < m[l]
    &&& match group.restore {
        None => live_is_valid(entries, group.live@) || forall|k: int|
            0 <= k < m.len() ==> !(#[trigger] entries[m[k] as int]).has_config,
        Some(r) => {
            &&& !live_is_valid(entries, group.live@)
            &&& m.contains(r)
            &&& entries[r as int].has_config
            &&& forall|k: int|
                0 <= k < m.len() && entries[m[k] as int].has_config ==> key_le(
                    entries[m[k] as int],
                    entries[r as int],
                )
            &&& forall|k: int|
                0 <= k < m.len() && m[k] > r && entries[m[k] as int].has_config ==> !key_le(
                    entries[r as int],
                    entries[m[k] as int],
                )
        },
    }
}

} // verus!

verus! {

fn entry_parts(e: &PresetDirEntry) -> (r: (Option<Vec<char>>, InternalPresetKind))
    ensures
        match r.0 {
            Some(l) => entry_live(*e) == Some(l@),
            None => entry_live(*e) is None,
        },
        r.0 is Some ==> r.1 == entry_kind(*e),
{
    if !e.is_dir {
        return (None, InternalPresetKind::Backup);
    }
    match internal_folder_parts(e.name.as_str()) {
        Some((live, kind)) => (Some(str_chars(live.as_str())), kind),
        None => (None, InternalPresetKind::Backup),
    }
}

fn find_group(group_lives: &Vec<Vec<char>>, live: &Vec<char>) -> (r: Option<usize>)
    ensures
        match r {
            Some(g) => g < group_lives@.len() && group_lives@[g as int]@ == live@,
            None => forall|g: int| 0 <= g < group_lives@.len() ==> group_lives@[g]@ != live@,
        },
{
    let mut g: usize = 0;
    while g < group_lives.len()
        invariant
            forall|h: int| 0 <= h < g ==> group_lives@[h]@ != live@,
        decreases group_lives@.len() - g,
    {
        if chars_equal(&group_lives[g], live) {
            return Some(g);
        }
        g = g + 1;
    }
    None
}

fn live_valid_exec(entries: &Vec<PresetDirEntry>, live: &Vec<char>) -> (b: bool)
    ensures
        b == live_is_valid(entries@, live@),
{
    let mut k: usize = 0;
    while k < entries.len()
        invariant
            forall|j: int| 0 <= j < k ==> !(entries@[j].name@ == live@ && entries@[j].has_config),
        decreases entries@.len() - k,
    {
        let name = str_chars(entries[k].name.as_str());
        if entries[k].has_config && chars_equal(&name, live) {
            return true;
        }
        k = k + 1;
    }
    false
}

fn best_candidate(
    entries: &Vec<PresetDirEntry>,
    kinds: &Vec<InternalPresetKind>,
    members: &Vec<usize>,
) -> (r: Option<usize>)
    requires
        kinds@.len() == entries@.len(),
        forall|k: int| 0 <= k < members@.len() ==> members@[k] < entries@.len(),
        forall|k: int|
            0 <= k < members@.len() ==> kinds@[members@[k] as int] == entry_kind(
                entries@[members@[k] as int],
            ),
        forall|k: int, l: int| 0 <= k < l < members@.len() ==> members@[k] < members@[l],
    ensures
        match r {
            None => forall|k: int|
                0 <= k < members@.len() ==> !(#[trigger] entries@[members@[k] as int]).has_config,
            Some(r) => {
                &&& members@.contains(r)
                &&& entries@[r as int].has_config
                &&& forall|k: int|
                    0 <= k < members@.len() && entries@[members@[k] as int].has_config ==> key_le(
                        entries@[members@[k] as int],
                        entries@[r as int],
                    )
                &&& forall|k: int|
                    0 <= k < members@.len() && members@[k] > r && entries@[members@[
                        k
                    ] as int].has_config ==> !key_le(entries@[r as int], entries@[members@[k] as int])
            },
        },
{
    let mut best: Option<usize> = None;
    let mut best_pos: usize = 0;
    let mut k: usize = 0;
    while k < members.len()
        invariant
            kinds@.len() == entries@.len(),
            forall|j: int| 0 <= j < members@.len() ==> members@[j] < entries@.len(),
            forall|j: int|
                0 <= j < members@.len() ==> kinds@[members@[j] as int] == entry_kind(
                    entries@[members@[j] as int],
                ),
            forall|j: int, l: int| 0 <= j < l < members@.len() ==> members@[j] < members@[l],
            k <= members@.len(),
            match best {
                None => forall|j: int|
                    0 <= j < k ==> !(#[trigger] entries@[members@[j] as int]).has_config,
                Some(r) => {
                    &&& best_pos < k
                    &&& members@[best_pos as int] == r
                    &&& entries@[r as int].has_config
                    &&& forall|j: int|
                        0 <= j < k && entries@[members@[j] as int].has_config ==> key_le(
                            entries@[members@[j] as int],
                            entries@[r as int],
                        )
                    &&& forall|j: int|
                        best_pos < j < k && entries@[members@[j] as int].has_config ==> !key_le(
                            entries@[r as int],
                            entries@[members@[j] as int],
                        )
                },
            },
        decreases members@.len() - k,
    {
        let m = members[k];
        if entries[m].has_config {
            match best {
                None => {
                    best = Some(m);
                    best_pos = k;
                    proof {
                        assert(key_le(entries@[m as int], entries@[m as int])) by {
                            lemma_lex_le_total(entries@[m as int].name@, entries@[m as int].name@);
                        }
                    }
                },
                Some(r) => {
                    let pr = kinds[r].recovery_priority();
                    let pm = kinds[m].recovery_priority();
                    let rname = str_chars(entries[r].name.as_str());
                    let mname = str_chars(entries[m].name.as_str());
                    let take_m = pr < pm || (pr == pm && lex_le_exec(&rname, &mname));
                    assert(take_m == key_le(entries@[r as int], entries@[m as int]));
                    if take_m {
                        proof {
                            assert forall|j: int|
                                0 <= j < k + 1 && entries@[members@[j] as int].has_config
                                    implies key_le(
                                entries@[members@[j] as int],
                                entries@[m as int],
                            ) by {
                                if j < k {
                                    let a = entries@[members@[j] as int];
                                    let b = entries@[r as int];
                                    let c = entries@[m as int];
                                    if priority(entry_kind(a)) == priority(entry_kind(b))
                                        && priority(entry_kind(b)) == priority(entry_kind(c)) {
                                        lemma_lex_le_transitive(a.name@, b.name@, c.name@);
                                    }
                                } else {
                                    lemma_lex_le_total(
                                        entries@[m as int].name@,
                                        entries@[m as int].name@,
                                    );
                                }
                            }
                        }
                        best = Some(m);
                        best_pos = k;
                    } else {
                        proof {
                            let a = entries@[m as int];
                            let b = entries@[r as int];
                            lemma_lex_le_total(a.name@, b.name@);
                        }
                    }
                },
            }
        }
        k = k + 1;
    }
    if let Some(r) = best {
        assert(members@.contains(r)) by {
            assert(members@[best_pos as int] == r);
        }
        assert forall|j: int|
            0 <= j < members@.len() && members@[j] > r && entries@[members@[j] as int].has_config
                implies !key_le(entries@[r as int], entries@[members@[j] as int]) by {
            if j <= best_pos {
                if j < best_pos {
                    assert(members@[j] < members@[best_pos as int]);
                }
            }
        }
    }
    best
}

} // verus!

verus! {

/// Some of the first `upto` entries is assigned to group `h`.
spec fn group_used(assigned: Seq<Option<usize>>, upto: int, h: int) -> bool {
    exists|j: int| 0 <= j < upto && #[trigger] assigned[j] == Some(h as usize)
}

fn copy_chars(v: &Vec<char>) -> (out: Vec<char>)
    ensures
        out@ == v@,
{
    let mut out: Vec<char> = Vec::new();
    let mut i: usize = 0;
    while i < v.len()
        invariant
            i <= v@.len(),
            out@ == v@.take(i as int),
        decreases v@.len() - i,
    {
        out.push(v[i]);
        i = i + 1;
        assert(out@ =~= v@.take(i as int));
    }
    assert(v@.take(v@.len() as int) =~= v@);
    out
}

fn members_of(assigned: &Vec<Option<usize>>, g: usize) -> (members: Vec<usize>)
    ensures
        forall|k: int|
            0 <= k < members@.len() ==> members@[k] < assigned@.len() && assigned@[members@[
                k
            ] as int] == Some(g),
        forall|k: int, l: int| 0 <= k < l < members@.len() ==> members@[k] < members@[l],
        forall|j: int|
            0 <= j < assigned@.len() && assigned@[j] == Some(g) ==> members@.contains(j as usize),
{
    let mut members: Vec<usize> = Vec::new();
    let mut j: usize = 0;
    while j < assigned.len()
        invariant
            j <= assigned@.len(),
            forall|k: int|
                0 <= k < members@.len() ==> members@[k] < j && assigned@[members@[k] as int]
                    == Some(g),
            forall|k: int, l: int| 0 <= k < l < members@.len() ==> members@[k] < members@[l],
            forall|i: int| 0 <= i < j && assigned@[i] == Some(g) ==> members@.contains(i as usize),
        decreases assigned@.len() - j,
    {
        if assigned[j] == Some(g) {
            let ghost before = members@;
            members.push(j);
            assert forall|i: int| 0 <= i < j + 1 && assigned@[i] == Some(g) implies members@.contains(
                i as usize,
            ) by {
                if i < j {
                    let k = choose|k: int| 0 <= k < before.len() && before[k] == i as usize;
                    assert(members@[k] == i as usize);
                } else {
                    assert(members@[members@.len() - 1] == j);
                }
            }
        }
        j = j + 1;
    }
    members
}

/// Plan the recovery of the internal folders found in the presets
/// directory: group them by live folder, and in each group pick the folder to
/// restore (none when the live folder is valid), the best valid one by
/// `key_le`, the last of equals in listing order.
pub fn plan_recovery(entries: &Vec<PresetDirEntry>) -> (groups: Vec<RecoveryGroup>)
    ensures
        is_recovery_plan(entries@, groups@),
{
    let n = entries.len();
    let mut lives: Vec<Option<Vec<char>>> = Vec::new();
    let mut kinds: Vec<InternalPresetKind> = Vec::new();
    let mut i: usize = 0;
    while i < n
        invariant
            n == entries@.len(),
            i <= n,
            lives@.len() == i,
            kinds@.len() == i,
            forall|j: int|
                0 <= j < i ==> match #[trigger] lives@[j] {
                    Some(l) => entry_live(entries@[j]) == Some(l@),
                    None => entry_live(entries@[j]) is None,
                },
            forall|j: int| 0 <= j < i && lives@[j] is Some ==> kinds@[j] == entry_kind(entries@[j]),
        decreases n - i,
    {
        let (l, k) = entry_parts(&entries[i]);
        lives.push(l);
        kinds.push(k);
        i = i + 1;
    }
    let mut group_lives: Vec<Vec<char>> = Vec::new();
    let mut assigned: Vec<Option<usize>> = Vec::new();
    let mut i: usize = 0;
    while i < n
        invariant
            n == entries@.len(),
            i <= n,
            lives@.len() == n,
            forall|j: int|
                0 <= j < n ==> match #[trigger] lives@[j] {
                    Some(l) => entry_live(entries@[j]) == Some(l@),
                    None => entry_live(entries@[j]) is None,
                },
            assigned@.len() == i,
            forall|j: int|
                0 <= j < i ==> match #[trigger] assigned@[j] {
                    Some(g) => g < group_lives@.len() && entry_live(entries@[j]) == Some(
                        group_lives@[g as int]@,
                    ),
                    None => entry_live(entries@[j]) is None,
                },
            forall|g: int| 0 <= g < group_lives@.len() ==> #[trigger] group_used(assigned@, i as int, g),
            forall|g: int, h: int|
                0 <= g < group_lives@.len() && 0 <= h < group_lives@.len() && g != h
                    ==> group_lives@[g]@ != group_lives@[h]@,
        decreases n - i,
    {
        let ghost old_assigned = assigned@;
        match &lives[i] {
            Some(l) => {
                match find_group(&group_lives, l) {
                    Some(g) => {
                        assigned.push(Some(g));
                        proof {
                            assert forall|h: int| 0 <= h < group_lives@.len() implies #[trigger] group_used(assigned@, i + 1, h) by {
                                assert(group_used(old_assigned, i as int, h));
                                let j = choose|j: int|
                                    0 <= j < i && #[trigger] old_assigned[j] == Some(h as usize);
                                assert(assigned@[j] == Some(h as usize));
                            }
                        }
                    },
                    None => {
                        let g = group_lives.len();
                        group_lives.push(copy_chars(l));
                        assigned.push(Some(g));
                        proof {
                            assert forall|h: int| 0 <= h < group_lives@.len() implies #[trigger] group_used(assigned@, i + 1, h) by {
                                if h < g {
                                    assert(group_used(old_assigned, i as int, h));
                                    let j = choose|j: int|
                                        0 <= j < i && #[trigger] old_assigned[j] == Some(h as usize);
                                    assert(assigned@[j] == Some(h as usize));
                                } else {
                                    assert(assigned@[i as int] == Some(h as usize));
                                }
                            }
                        }
                    },
                }
            },
            None => {
                assigned.push(None);
                proof {
                    assert forall|h: int| 0 <= h < group_lives@.len() implies #[trigger] group_used(assigned@, i + 1, h) by {
                        assert(group_used(old_assigned, i as int, h));
                        let j = choose|j: int|
                            0 <= j < i && #[trigger] old_assigned[j] == Some(h as usize);
                        assert(assigned@[j] == Some(h as usize));
                    }
                }
            },
        }
        i = i + 1;
    }
    let mut groups: Vec<RecoveryGroup> = Vec::new();
    let mut g: usize = 0;
    while g < group_lives.len()
        invariant
            n == entries@.len(),
            kinds@.len() == n,
            lives@.len() == n,
            assigned@.len() == n,
            forall|j: int|
                0 <= j < n ==> match #[trigger] lives@[j] {
                    Some(l) => entry_live(entries@[j]) == Some(l@),
                    None => entry_live(entries@[j]) is None,
                },
            forall|j: int| 0 <= j < n && lives@[j] is Some ==> kinds@[j] == entry_kind(entries@[j]),
            forall|j: int|
                0 <= j < n ==> match #[trigger] assigned@[j] {
                    Some(h) => h < group_lives@.len() && entry_live(entries@[j]) == Some(
                        group_lives@[h as int]@,
                    ),
                    None => entry_live(entries@[j]) is None,
                },
            forall|h: int| 0 <= h < group_lives@.len() ==> #[trigger] group_used(assigned@, n as int, h),
            groups@.len() == g,
            g <= group_lives@.len(),
            forall|h: int|
                0 <= h < g ==> (#[trigger] groups@[h]).live@ == group_lives@[h]@
                    && is_recovery_group(entries@, groups@[h])
                    && forall|j: int|
                    0 <= j < n && assigned@[j] == Some(h as usize) ==> groups@[h].members@.contains(
                        j as usize,
                    ),
        decreases group_lives@.len() - g,
    {
        let members = members_of(&assigned, g);
        proof {
            assert(group_used(assigned@, n as int, g as int));
            let j = choose|j: int| 0 <= j < n && #[trigger] assigned@[j] == Some(g);
            assert(members@.contains(j as usize));
            assert forall|k: int| 0 <= k < members@.len() implies kinds@[members@[k] as int]
                == entry_kind(entries@[members@[k] as int]) by {
                let m = members@[k] as int;
                assert(assigned@[m] == Some(g));
                assert(lives@[m] is Some);
            }
        }
        let live_ok = live_valid_exec(entries, &group_lives[g]);
        let restore = if live_ok {
            None
        } else {
            best_candidate(entries, &kinds, &members)
        };
        let group = RecoveryGroup { live: string_from_chars(&group_lives[g]), members, restore };
        proof {
            assert forall|k: int| 0 <= k < group.members@.len() implies group.members@[k]
                < entries@.len() && entry_live(entries@[group.members@[k] as int]) == Some(
                group.live@,
            ) by {
                let m = group.members@[k] as int;
                assert(assigned@[m] == Some(g));
            }
        }
        groups.push(group);
        g = g + 1;
    }
    proof {
        assert forall|i: int|
            #![trigger entry_live(entries@[i])]
            0 <= i < entries@.len() && entry_live(entries@[i]) is Some implies exists|h: int|
                0 <= h < groups@.len() && groups@[h].live@ == entry_live(entries@[i])->0
                    && groups@[h].members@.contains(i as usize) by {
            let h = assigned@[i]->0 as int;
            assert(assigned@[i] is Some);
            assert(groups@[h].live@ == group_lives@[h]@);
        }
    }
    groups
}

} // verus!

verus! {

/// `.<folder>.staging.<suffix>`: the folder a save writes into first.
pub open spec fn staging_name(folder: Seq<char>, suffix: Seq<char>) -> Seq<char> {
    seq!['.'] + folder + staging_marker() + suffix
}

/// `.<folder>.backup.<suffix>`: where a save moves the preset it replaces.
pub open spec fn backup_name(folder: Seq<char>, suffix: Seq<char>) -> Seq<char> {
    seq!['.'] + folder + backup_marker() + suffix
}

fn internal_name(folder: &str, marker: &str, suffix: &str) -> (name: String)
    ensures
        name@ == seq!['.'] + folder@ + marker@ + suffix@,
{
    let mut out: Vec<char> = Vec::new();
    out.push('.');
    let f = str_chars(folder);
    let m = str_chars(marker);
    let s = str_chars(suffix);
    let parts = [f, m, s];
    let mut p: usize = 0;
    let ghost start = out@;
    while p < 3
        invariant
            p <= 3,
            parts@.len() == 3,
            parts@[0]@ == folder@,
            parts@[1]@ == marker@,
            parts@[2]@ == suffix@,
            p == 0 ==> out@ == seq!['.'],
            p == 1 ==> out@ == seq!['.'] + folder@,
            p == 2 ==> out@ == seq!['.'] + folder@ + marker@,
            p == 3 ==> out@ == seq!['.'] + folder@ + marker@ + suffix@,
        decreases 3 - p,
    {
        let part = &parts[p];
        let ghost before = out@;
        let mut k: usize = 0;
        while k < part.len()
            invariant
                k <= part@.len(),
                out@ == before + part@.take(k as int),
            decreases part@.len() - k,
        {
            out.push(part[k]);
            k = k + 1;
            assert(out@ =~= before + part@.take(k as int));
        }
        assert(part@.take(part@.len() as int) =~= part@);
        p = p + 1;
        assert(out@ =~= before + part@);
    }
    string_from_chars(&out)
}

/// The staging folder name `.<folder>.staging.<suffix>`.
pub fn staging_dir_name(folder: &str, suffix: &str) -> (name: String)
    ensures
        name@ == staging_name(folder@, suffix@),
{
    proof {
        reveal_strlit(".staging.");
    }
    let name = internal_name(folder, ".staging.", suffix);
    assert(".staging."@ =~= staging_marker());
    name
}

/// The backup folder name `.<folder>.backup.<suffix>`.
pub fn backup_dir_name(folder: &str, suffix: &str) -> (name: String)
    ensures
        name@ == backup_name(folder@, suffix@),
{
    proof {
        reveal_strlit(".backup.");
    }
    let name = internal_name(folder, ".backup.", suffix);
    assert(".backup."@ =~= backup_marker());
    name
}

proof fn lemma_first_occurrence_at(s: Seq<char>, pattern: Seq<char>, i: int)
    requires
        occurs_at(s, pattern, i),
        forall|j: int| 0 <= j < i ==> !occurs_at(s, pattern, j),
    ensures
        first_occurrence(s, pattern) == Some(i),
{
    reveal(first_occurrence);
    let c = choose|c: int|
        occurs_at(s, pattern, c) && forall|j: int| 0 <= j < c ==> !occurs_at(s, pattern, j);
    assert(c == i) by {
        if c < i {
        }
        if c > i {
        }
    }
}

proof fn lemma_no_occurrence(s: Seq<char>, pattern: Seq<char>)
    requires
        forall|j: int| !occurs_at(s, pattern, j),
    ensures
        first_occurrence(s, pattern) is None,
{
    reveal(first_occurrence);
}

/// A suffix made of ASCII digits and dots, as the process id and clock
/// reading that saves append.
pub open spec fn is_numeric_suffix(suffix: Seq<char>) -> bool {
    forall|k: int| 0 <= k < suffix.len() ==> ('0' <= #[trigger] suffix[k] <= '9' || suffix[k] == '.')
}

/// The internal folder names that a save creates map back to the preset
/// folder they were made for, with their kind, whenever the folder name
/// holds no dot (as no sanitized name does) and the suffix is numeric.
pub proof fn lemma_internal_names_map_back(folder: Seq<char>, suffix: Seq<char>)
    requires
        folder.len() > 0,
        forall|k: int| 0 <= k < folder.len() ==> #[trigger] folder[k] != '.',
        is_numeric_suffix(suffix),
    ensures
        internal_parts(staging_name(folder, suffix)) == Some((folder, InternalPresetKind::Staging)),
        internal_parts(backup_name(folder, suffix)) == Some((folder, InternalPresetKind::Backup)),
{
    let l = folder.len() as int;
    let fs = folder + staging_marker() + suffix;
    let fb = folder + backup_marker() + suffix;
    assert(staging_name(folder, suffix).drop_first() =~= fs);
    assert(backup_name(folder, suffix).drop_first() =~= fb);
    assert(fs.subrange(l, l + 9) =~= staging_marker());
    assert(fb.subrange(l, l + 8) =~= backup_marker());
    assert forall|j: int| 0 <= j < l implies !occurs_at(fs, staging_marker(), j) by {
        assert(fs.subrange(j, j + 9)[0] == fs[j]);
    }
    assert forall|j: int| 0 <= j < l implies !occurs_at(fb, backup_marker(), j) by {
        if j + 8 <= fb.len() {
            assert(fb.subrange(j, j + 8)[0] == fb[j]);
        }
    }
    lemma_first_occurrence_at(fs, staging_marker(), l);
    lemma_first_occurrence_at(fb, backup_marker(), l);
    assert forall|j: int| !occurs_at(fb, staging_marker(), j) by {
        if occurs_at(fb, staging_marker(), j) {
            let w = fb.subrange(j, j + 9);
            assert(w[0] == fb[j] && w[1] == fb[j + 1]);
            if j < l {
            } else if j == l {
            } else if j < l + 7 {
            } else if j == l + 7 {
                assert(fb[j + 1] == suffix[0]);
            } else {
                assert(fb[j + 1] == suffix[j + 1 - l - 8]);
            }
        }
    }
    lemma_no_occurrence(fb, staging_marker());
    assert(fs.take(l) =~= folder);
    assert(fb.take(l) =~= folder);
}

} // verus!

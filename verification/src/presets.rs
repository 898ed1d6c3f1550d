//! The preset store's decisions: which folders of the presets directory are
//! listed and in what order, and which file names a preset may refer to.
//!
//! The host reads the directory and the files; what it found is handed over
//! here as plain values.
use vstd::prelude::*;

use crate::names::{is_visible_safe_segment, lowercase, to_lowercase, PresetAsset, PresetFolder};
use crate::recovery::{lemma_lex_le_total, lemma_lex_le_transitive, lex_le, lex_le_exec};
use crate::names::{name_problem, validate_name};
use crate::text::{concat2, concat3, decimal, decimal_exec, str_chars, string_from_chars, trim, trim_exec};

verus! {

broadcast use {vstd::seq_lib::to_multiset_insert, vstd::seq_lib::to_multiset_build};

/// A child of the presets directory, as the host found it: its name (`None`
/// when it is not valid UTF-8), whether it is a directory, whether it holds
/// a `preset.json`, the name that file gives (`None` when it could not be
/// read or parsed) and the path of its `preview.png`, if there is one.
#[derive(Debug)]
pub struct PresetCandidate<P> {
    pub file_name: Option<String>,
    pub is_dir: bool,
    pub has_config: bool,
    pub config_name: Option<String>,
    pub preview_path: Option<P>,
}

/// Summary of a saved preset for the load grid.
#[derive(Debug)]
pub struct PresetEntry<P> {
    pub name: String,
    pub folder: PresetFolder,
    pub preview_path: Option<P>,
}

/// The candidate is listed: a directory with a valid folder name and a
/// `preset.json`.
pub open spec fn is_listed<P>(c: PresetCandidate<P>) -> bool {
    &&& c.is_dir
    &&& c.has_config
    &&& c.file_name matches Some(n) && is_visible_safe_segment(n@)
}

/// The name shown for a candidate: the one its config gives, else the
/// folder name.
pub open spec fn listed_name<P>(c: PresetCandidate<P>) -> Seq<char> {
    match c.config_name {
        Some(n) => n@,
        None => match c.file_name {
            Some(f) => f@,
            None => Seq::empty(),
        },
    }
}

/// What the load grid shows of a preset: its name, its folder and its
/// preview.
pub type ListedPreset<P> = (Seq<char>, Seq<char>, Option<P>);

/// What is shown of a listed candidate.
pub open spec fn candidate_view<P>(c: PresetCandidate<P>) -> ListedPreset<P> {
    (
        listed_name(c),
        match c.file_name {
            Some(f) => f@,
            None => Seq::empty(),
        },
        c.preview_path,
    )
}

/// What is shown of an entry.
pub open spec fn entry_view<P>(e: PresetEntry<P>) -> ListedPreset<P> {
    (e.name@, e.folder@, e.preview_path)
}

/// What is shown of the listed candidates among `cs`, in the order found.
pub open spec fn listed_presets<P>(cs: Seq<PresetCandidate<P>>) -> Seq<ListedPreset<P>>
    decreases cs.len(),
{
    if cs.len() == 0 {
        Seq::empty()
    } else {
        let before = listed_presets(cs.drop_last());
        if is_listed(cs.last()) {
            before.push(candidate_view(cs.last()))
        } else {
            before
        }
    }
}

/// The sort key of an entry: its name, lowercased.
pub open spec fn entry_key<P>(e: PresetEntry<P>) -> Seq<char> {
    lowercase(e.name@)
}

/// The entries are in order of their keys.
pub open spec fn sorted_by_key<P>(s: Seq<PresetEntry<P>>) -> bool {
    forall|i: int, j: int| 0 <= i < j < s.len() ==> lex_le(entry_key(s[i]), entry_key(s[j]))
}

/// The sort key of what is shown of a preset: its name, lowercased.
pub open spec fn view_key<P>(v: ListedPreset<P>) -> Seq<char> {
    lowercase(v.0)
}

/// Where `v` goes in `s`: after the leading presets whose keys are not
/// above its key.
pub open spec fn insert_position<P>(s: Seq<ListedPreset<P>>, v: ListedPreset<P>) -> nat
    decreases s.len(),
{
    if s.len() == 0 || !lex_le(view_key(s[0]), view_key(v)) {
        0
    } else {
        1 + insert_position(s.drop_first(), v)
    }
}

/// The presets sorted by key, presets with equal keys kept in the order
/// found (a stable sort).
pub open spec fn sorted_listing<P>(s: Seq<ListedPreset<P>>) -> Seq<ListedPreset<P>>
    decreases s.len(),
{
    if s.len() == 0 {
        Seq::empty()
    } else {
        let rest = sorted_listing(s.drop_last());
        rest.insert(insert_position(rest, s.last()) as int, s.last())
    }
}

/// The insertion position is the first index whose key is above `v`'s,
/// when all keys before it are not.
proof fn lemma_insert_position<P>(s: Seq<ListedPreset<P>>, v: ListedPreset<P>, pos: int)
    requires
        0 <= pos <= s.len(),
        forall|k: int| 0 <= k < pos ==> lex_le(view_key(#[trigger] s[k]), view_key(v)),
        pos == s.len() || !lex_le(view_key(s[pos]), view_key(v)),
    ensures
        insert_position(s, v) == pos,
    decreases pos,
{
    if pos > 0 {
        let t = s.drop_first();
        assert forall|k: int| 0 <= k < pos - 1 implies lex_le(view_key(#[trigger] t[k]), view_key(v)) by {
            assert(t[k] == s[k + 1]);
        }
        if pos < s.len() {
            assert(t[pos - 1] == s[pos]);
        }
        assert(lex_le(view_key(s[0]), view_key(v)));
        lemma_insert_position(t, v, pos - 1);
    }
}

/// The entry of a listed candidate.
fn entry_of<P>(c: PresetCandidate<P>) -> (r: Option<PresetEntry<P>>)
    ensures
        is_listed(c) <==> r is Some,
        r matches Some(e) ==> entry_view(e) == candidate_view(c),
{
    if !c.is_dir || !c.has_config {
        return None;
    }
    let PresetCandidate { file_name, is_dir, has_config, config_name, preview_path } = c;
    match file_name {
        None => None,
        Some(f) => match PresetFolder::parse(f.as_str()) {
            None => None,
            Some(folder) => {
                let name = match config_name {
                    Some(n) => n,
                    None => f,
                };
                Some(PresetEntry { name, folder, preview_path })
            },
        },
    }
}

/// List the saved presets among the children of the presets directory:
/// directories with a valid folder name and a `preset.json`, each shown
/// with the name its config gives (or its folder name), sorted by that name
/// without regard to case; presets with the same name keep the order they
/// were found in.
pub fn preset_listing<P>(candidates: Vec<PresetCandidate<P>>) -> (entries: Vec<PresetEntry<P>>)
    ensures
        entries@.map_values(|e: PresetEntry<P>| entry_view(e)) == sorted_listing(
            listed_presets(candidates@),
        ),
        sorted_by_key(entries@),
        entries@.map_values(|e: PresetEntry<P>| entry_view(e)).to_multiset()
            == listed_presets(candidates@).to_multiset(),
{
    let ghost cs = candidates@;
    let mut entries: Vec<PresetEntry<P>> = Vec::new();
    let mut keys: Vec<Vec<char>> = Vec::new();
    let mut rest = candidates;
    let ghost mut taken: int = 0;
    proof {
        assert(rest@ =~= cs.subrange(0, cs.len() as int));
        assert(cs.subrange(0, 0) =~= Seq::<PresetCandidate<P>>::empty());
        assert(entries@.map_values(|e: PresetEntry<P>| entry_view(e)) =~= Seq::<
            ListedPreset<P>,
        >::empty());
        assert(listed_presets(cs.subrange(0, 0)) =~= Seq::<ListedPreset<P>>::empty());
    }
    while rest.len() > 0
        invariant
            0 <= taken <= cs.len(),
            rest@ == cs.subrange(taken, cs.len() as int),
            keys@.len() == entries@.len(),
            forall|k: int| 0 <= k < keys@.len() ==> keys@[k]@ == #[trigger] entry_key(entries@[k]),
            sorted_by_key(entries@),
            entries@.map_values(|e: PresetEntry<P>| entry_view(e)).to_multiset()
                == listed_presets(cs.subrange(0, taken)).to_multiset(),
            entries@.map_values(|e: PresetEntry<P>| entry_view(e)) == sorted_listing(
                listed_presets(cs.subrange(0, taken)),
            ),
        decreases rest.len(),
    {
        let ghost old_views = entries@.map_values(|e: PresetEntry<P>| entry_view(e));
        let c = rest.remove(0);
        proof {
            assert(c == cs[taken]);
            assert(cs.subrange(0, taken + 1).drop_last() =~= cs.subrange(0, taken));
            assert(cs.subrange(0, taken + 1).last() == cs[taken]);
            assert(rest@ =~= cs.subrange(taken + 1, cs.len() as int));
        }
        let ghost gc = c;
        let ghost before = listed_presets(cs.subrange(0, taken));
        proof {
            assert(listed_presets(cs.subrange(0, taken + 1)) == if is_listed(gc) {
                before.push(candidate_view(gc))
            } else {
                before
            });
        }
        match entry_of(c) {
            None => {},
            Some(e) => {
                let key = str_chars(to_lowercase(e.name.as_str()).as_str());
                let mut pos: usize = 0;
                while pos < keys.len() && lex_le_exec(&keys[pos], &key)
                    invariant
                        pos <= keys@.len(),
                        keys@.len() == entries@.len(),
                        forall|k: int| 0 <= k < pos ==> lex_le(#[trigger] keys@[k]@, key@),
                    decreases keys@.len() - pos,
                {
                    pos = pos + 1;
                }
                proof {
                    assert forall|k: int| 0 <= k < pos implies lex_le(
                        view_key(#[trigger] old_views[k]),
                        view_key(entry_view(e)),
                    ) by {
                        assert(old_views[k] == entry_view(entries@[k]));
                        assert(entry_key(entries@[k]) == keys@[k]@);
                    }
                    if pos < keys@.len() {
                        assert(old_views[pos as int] == entry_view(entries@[pos as int]));
                        assert(entry_key(entries@[pos as int]) == keys@[pos as int]@);
                    }
                    lemma_insert_position(old_views, entry_view(e), pos as int);
                    assert(before.push(entry_view(e)).drop_last() =~= before);
                    assert forall|k: int| pos <= k < keys@.len() implies lex_le(
                        key@,
                        #[trigger] keys@[k]@,
                    ) by {
                        lemma_lex_le_total(key@, keys@[pos as int]@);
                        if k > pos {
                            assert(entry_key(entries@[pos as int]) == keys@[pos as int]@);
                            assert(entry_key(entries@[k]) == keys@[k]@);
                            assert(lex_le(entry_key(entries@[pos as int]), entry_key(entries@[k])));
                            lemma_lex_le_transitive(key@, keys@[pos as int]@, keys@[k]@);
                        }
                    }
                }
                let ghost ev = entry_view(e);
                entries.insert(pos, e);
                keys.insert(pos, key);
                proof {
                    assert(entries@.map_values(|e: PresetEntry<P>| entry_view(e)) =~= old_views.insert(
                        pos as int,
                        ev,
                    ));
                    assert(ev == candidate_view(gc));
                    assert(old_views.insert(pos as int, ev).to_multiset() == old_views.to_multiset().insert(ev));
                    assert(before.push(ev).to_multiset() == before.to_multiset().insert(ev));
                    assert forall|i: int, j: int| 0 <= i < j < entries@.len() implies lex_le(
                        entry_key(entries@[i]),
                        entry_key(entries@[j]),
                    ) by {
                        assert(entry_key(entries@[i]) == keys@[i]@);
                        assert(entry_key(entries@[j]) == keys@[j]@);
                    }
                }
            },
        }
        proof {
            taken = taken + 1;
        }
    }
    proof {
        assert(cs.subrange(0, cs.len() as int) =~= cs);
    }
    entries
}

/// The error a preset whose background file name is unsafe gives on load.
pub open spec fn unsafe_background_on_load() -> &'static str {
    "Preset background file name is not safe"
}

/// The background file a loaded preset refers to, checked before it is
/// joined to the preset folder.
pub fn background_for_load(file: &str) -> (r: Result<PresetAsset, &'static str>)
    ensures
        match r {
            Ok(a) => a@ == file@ && is_visible_safe_segment(file@),
            Err(e) => !is_visible_safe_segment(file@) && e == unsafe_background_on_load(),
        },
{
    match PresetAsset::parse(file) {
        Some(a) => Ok(a),
        None => Err("Preset background file name is not safe"),
    }
}

/// What saving a preset's background calls for: the background file name
/// the preset records (if any), whether a source image path was given, and
/// whether that file still exists. A background needs its source, and its
/// file name must be safe; the result is the asset to copy the source to.
pub fn background_to_save(
    background_file: Option<&str>,
    source_given: bool,
    source_exists: bool,
) -> (r: Result<Option<PresetAsset>, &'static str>)
    ensures
        match background_file {
            None => r == Ok::<Option<PresetAsset>, &'static str>(None),
            Some(f) => if !source_given {
                r == Err::<Option<PresetAsset>, &'static str>(
                    "Preset has a background but no source image path",
                )
            } else if !source_exists {
                r == Err::<Option<PresetAsset>, &'static str>(
                    "Background source file no longer exists",
                )
            } else if !is_visible_safe_segment(f@) {
                r == Err::<Option<PresetAsset>, &'static str>("Background file name is not safe")
            } else {
                r matches Ok(Some(a)) && a@ == f@
            },
        },
{
    match background_file {
        None => Ok(None),
        Some(f) => {
            if !source_given {
                return Err("Preset has a background but no source image path");
            }
            if !source_exists {
                return Err("Background source file no longer exists");
            }
            match PresetAsset::parse(f) {
                Some(a) => Ok(Some(a)),
                None => Err("Background file name is not safe"),
            }
        },
    }
}

/// The folder a preset is saved to: the folder it overwrites, or the new
/// folder name chosen for it, which must be a valid preset folder.
pub fn folder_for_save(folder_override: Option<&PresetFolder>, new_folder: &str) -> (r: Result<
    PresetFolder,
    &'static str,
>)
    ensures
        match folder_override {
            Some(f) => r matches Ok(g) && g@ == f@,
            None => if is_visible_safe_segment(new_folder@) {
                r matches Ok(g) && g@ == new_folder@
            } else {
                r == Err::<PresetFolder, &'static str>("Preset folder name is not safe")
            },
        },
{
    match folder_override {
        Some(f) => Ok(f.clone()),
        None => match PresetFolder::parse(new_folder) {
            Some(g) => Ok(g),
            None => Err("Preset folder name is not safe"),
        },
    }
}

/// The last-used pointer as the host stores it: the folder it names, if
/// any.
pub type LastUsedPointer = Option<Seq<char>>;

/// The pointer after `folder` was remembered as the last one used.
pub open spec fn remembered(folder: Seq<char>) -> LastUsedPointer {
    Some(folder)
}

/// Whether deleting `folder` clears the pointer: only when it names that
/// folder.
pub open spec fn clears_pointer(recorded: LastUsedPointer, folder: Seq<char>) -> bool {
    recorded == Some(folder)
}

/// The pointer after `folder` was deleted.
pub open spec fn pointer_after_delete(recorded: LastUsedPointer, folder: Seq<char>) -> LastUsedPointer {
    if clears_pointer(recorded, folder) {
        None
    } else {
        recorded
    }
}

/// The folder the app reopens from the pointer: the recorded one, while it
/// still holds a `preset.json`.
pub open spec fn reopened(recorded: LastUsedPointer, has_config: bool) -> LastUsedPointer {
    if has_config {
        recorded
    } else {
        None
    }
}

/// Whether the last-used pointer is to be cleared when `folder` is deleted:
/// only when it points at that folder.
pub fn forget_last_used_if(recorded: Option<&PresetFolder>, folder: &PresetFolder) -> (b: bool)
    ensures
        b == clears_pointer(
            match recorded {
                Some(r) => Some(r@),
                None => None,
            },
            folder@,
        ),
{
    match recorded {
        Some(r) => r.same_as(folder),
        None => false,
    }
}

/// The last preset folder to reopen: the recorded one, when its folder
/// still holds a `preset.json` (`has_config`, which the host checked).
pub fn last_used_folder(recorded: Option<PresetFolder>, has_config: bool) -> (r: Option<
    PresetFolder,
>)
    ensures
        match r {
            Some(f) => reopened(
                match recorded {
                    Some(g) => Some(g@),
                    None => None,
                },
                has_config,
            ) == Some(f@),
            None => reopened(
                match recorded {
                    Some(g) => Some(g@),
                    None => None,
                },
                has_config,
            ) is None,
        },
{
    if has_config {
        recorded
    } else {
        None
    }
}

/// Remembering a folder and then deleting another one keeps the pointer,
/// so the folder is reopened while it holds a `preset.json`; deleting the
/// remembered folder itself clears the pointer, and nothing is reopened.
pub proof fn lemma_last_used_round_trip(f: Seq<char>, g: Seq<char>, has_config: bool)
    ensures
        reopened(remembered(f), true) == Some(f),
        g != f ==> pointer_after_delete(remembered(f), g) == remembered(f),
        g != f ==> reopened(pointer_after_delete(remembered(f), g), true) == Some(f),
        pointer_after_delete(remembered(f), f) is None,
        reopened(pointer_after_delete(remembered(f), f), has_config) is None,
{
}

/// Two clicks on the same preset within this many milliseconds open it.
pub const DOUBLE_CLICK_MS: u64 = 400;

/// The preset currently loaded.
#[derive(Debug)]
pub struct CurrentPreset {
    pub folder: PresetFolder,
    pub name: String,
}

/// The preset dialogs' state: the loaded preset, which dialog is open, the
/// name typed for saving, the listed presets, and the last click on one of
/// them (its folder and the time, in the host's milliseconds).
pub struct PresetState<P> {
    pub current: Option<CurrentPreset>,
    pub show_save_dialog: bool,
    pub show_load_dialog: bool,
    pub save_name_input: String,
    pub list: Vec<PresetEntry<P>>,
    pub last_click: Option<(PresetFolder, u64)>,
}

impl<P> PresetState<P> {
    pub open spec fn spec_last_click(&self) -> Option<(Seq<char>, u64)> {
        match self.last_click {
            Some((f, t)) => Some((f@, t)),
            None => None,
        }
    }

    /// No preset loaded, no dialog open, nothing listed or clicked.
    pub fn new() -> (s: Self)
        ensures
            s.current is None,
            !s.show_save_dialog,
            !s.show_load_dialog,
            s.save_name_input@.len() == 0,
            s.list@.len() == 0,
            s.spec_last_click() is None,
    {
        PresetState {
            current: None,
            show_save_dialog: false,
            show_load_dialog: false,
            save_name_input: String::new(),
            list: Vec::new(),
            last_click: None,
        }
    }

    pub fn has_current(&self) -> (b: bool)
        ensures
            b == self.current is Some,
    {
        self.current.is_some()
    }

    /// Open the load dialog on the presets just listed.
    pub fn open_load_dialog(&mut self, list: Vec<PresetEntry<P>>)
        ensures
            final(self).list@ == list@,
            final(self).show_load_dialog,
            final(self).show_save_dialog == old(self).show_save_dialog,
            final(self).current == old(self).current,
            final(self).spec_last_click() == old(self).spec_last_click(),
    {
        self.list = list;
        self.show_load_dialog = true;
    }

    /// A click on `folder` at `now_ms`. It is a double click when the last
    /// click was on the same folder less than 400 ms before; a double click
    /// is forgotten, any other click is remembered.
    pub fn register_click(&mut self, folder: PresetFolder, now_ms: u64) -> (is_double: bool)
        ensures
            is_double == (old(self).spec_last_click() matches Some((f, t)) && f == folder@
                && crate::source::elapsed_ms(now_ms, t) < DOUBLE_CLICK_MS),
            final(self).spec_last_click() == (if is_double {
                None
            } else {
                Some((folder@, now_ms))
            }),
            final(self).current == old(self).current,
            final(self).list@ == old(self).list@,
            final(self).show_load_dialog == old(self).show_load_dialog,
            final(self).show_save_dialog == old(self).show_save_dialog,
    {
        let is_double = match &self.last_click {
            Some((f, t)) => {
                let elapsed = if now_ms >= *t {
                    now_ms - *t
                } else {
                    0
                };
                f.same_as(&folder) && elapsed < DOUBLE_CLICK_MS
            },
            None => false,
        };
        if is_double {
            self.last_click = None;
        } else {
            self.last_click = Some((folder, now_ms));
        }
        is_double
    }
}

/// The status line after a preset was loaded: its name, and how many of
/// its widgets could not be restored, when any.
pub open spec fn loaded_line(name: Seq<char>, skipped: nat) -> Seq<char> {
    if skipped == 0 {
        "Loaded preset '"@ + name + "'"@
    } else {
        "Loaded preset '"@ + name + "' ("@ + decimal(skipped) + " incompatible widget(s) skipped)"@
    }
}

/// The status message after a preset was loaded.
pub fn loaded_message(name: &str, skipped: u64) -> (m: String)
    ensures
        m@ == loaded_line(name@, skipped as nat),
{
    if skipped == 0 {
        concat3("Loaded preset '", name, "'")
    } else {
        let count = string_from_chars(&decimal_exec(skipped));
        let head = concat3("Loaded preset '", name, "' (");
        concat3(head.as_str(), count.as_str(), " incompatible widget(s) skipped)")
    }
}

/// The status message after a preset was saved.
pub fn saved_message(name: &str) -> (m: String)
    ensures
        m@ == "Preset '"@ + name@ + "' saved"@,
{
    concat3("Preset '", name, "' saved")
}

/// A preset operation that can fail.
#[derive(Debug, Clone, Copy, PartialEq, Eq, Structural)]
pub enum PresetOp {
    Load,
    Save,
    Delete,
}

/// The start of the status message for a failed operation.
pub open spec fn failure_prefix(op: PresetOp) -> Seq<char> {
    match op {
        PresetOp::Load => "Load failed: "@,
        PresetOp::Save => "Save failed: "@,
        PresetOp::Delete => "Delete failed: "@,
    }
}

/// The status message for a failed operation, with the error's text.
pub fn failure_message(op: PresetOp, error: &str) -> (m: String)
    ensures
        m@ == failure_prefix(op) + error@,
{
    match op {
        PresetOp::Load => concat2("Load failed: ", error),
        PresetOp::Save => concat2("Save failed: ", error),
        PresetOp::Delete => concat2("Delete failed: ", error),
    }
}

/// The file name a preset stores its background under: `background.` and
/// the source's extension, `png` when it has none.
pub fn background_file_name(extension: Option<&str>) -> (f: String)
    ensures
        f@ == "background."@ + match extension {
            Some(e) => e@,
            None => "png"@,
        },
{
    match extension {
        Some(e) => concat2("background.", e),
        None => concat2("background.", "png"),
    }
}

impl<P> PresetState<P> {
    /// A click on a listed preset at `now_ms`: a double click closes the
    /// load dialog and gives the folder to load.
    pub fn preset_clicked(&mut self, folder: PresetFolder, now_ms: u64) -> (load: Option<
        PresetFolder,
    >)
        ensures
            ({
                let double = old(self).spec_last_click() matches Some((f, t)) && f == folder@
                    && crate::source::elapsed_ms(now_ms, t) < DOUBLE_CLICK_MS;
                &&& double ==> (load matches Some(g) && g@ == folder@) && !final(self).show_load_dialog
                &&& !double ==> load is None && final(self).show_load_dialog
                    == old(self).show_load_dialog
                &&& final(self).spec_last_click() == (if double {
                    None
                } else {
                    Some((folder@, now_ms))
                })
            }),
            final(self).current == old(self).current,
            final(self).list@ == old(self).list@,
    {
        let again = folder.clone();
        if self.register_click(folder, now_ms) {
            self.show_load_dialog = false;
            Some(again)
        } else {
            None
        }
    }

    /// Saving was asked for: a loaded preset is saved again under its own
    /// name and folder (returned); otherwise the save dialog opens with an
    /// empty name.
    pub fn save_requested(&mut self) -> (target: Option<(PresetFolder, String)>)
        ensures
            match old(self).current {
                Some(c) => target matches Some((f, n)) && f@ == c.folder@ && n@ == c.name@
                    && final(self).show_save_dialog == old(self).show_save_dialog
                    && final(self).save_name_input@ == old(self).save_name_input@,
                None => target is None && final(self).show_save_dialog
                    && final(self).save_name_input@.len() == 0,
            },
            final(self).current == old(self).current,
            final(self).list@ == old(self).list@,
    {
        match &self.current {
            Some(c) => Some((c.folder.clone(), c.name.clone())),
            None => {
                self.save_name_input = String::new();
                self.show_save_dialog = true;
                None
            },
        }
    }

    /// The name typed in the save dialog, trimmed, once it is a valid
    /// preset name.
    pub fn name_to_save(&self) -> (r: Result<String, &'static str>)
        ensures
            match r {
                Ok(n) => n@ == trim(self.save_name_input@) && name_problem(n@) is None,
                Err(e) => name_problem(trim(self.save_name_input@)) == Some(e),
            },
    {
        let trimmed = string_from_chars(&trim_exec(&str_chars(self.save_name_input.as_str())));
        match validate_name(trimmed.as_str()) {
            Ok(()) => Ok(trimmed),
            Err(e) => Err(e),
        }
    }

    /// A preset was saved to `folder` under `name`: it becomes the current
    /// one and the save dialog closes.
    pub fn saved(&mut self, folder: PresetFolder, name: String)
        ensures
            final(self).current matches Some(c) && c.folder@ == folder@ && c.name@ == name@,
            !final(self).show_save_dialog,
            final(self).list@ == old(self).list@,
    {
        self.current = Some(CurrentPreset { folder, name });
        self.show_save_dialog = false;
    }

    /// `folder` was deleted and the presets listed again: the list is
    /// replaced, and when the deleted preset was the current one it no longer
    /// is (the result asks the caller to clear the canvas source).
    pub fn deleted(&mut self, folder: &PresetFolder, list: Vec<PresetEntry<P>>) -> (was_current: bool)
        ensures
            was_current == (old(self).current matches Some(c) && c.folder@ == folder@),
            final(self).list@ == list@,
            was_current ==> final(self).current is None,
            !was_current ==> final(self).current == old(self).current,
    {
        self.list = list;
        let was_current = match &self.current {
            Some(c) => c.folder.same_as(folder),
            None => false,
        };
        if was_current {
            self.current = None;
        }
        was_current
    }
}

/// What the editor does once a preset folder was read.
#[derive(Debug)]
pub enum PresetLoadStep<P> {
    /// The preset cannot be loaded; the message is shown unless loading
    /// silently.
    Failed { message: Option<String> },
    /// Its background is loaded first (from `path`, with the status shown
    /// unless loading silently); the preset is applied once it is there.
    LoadBackground { path: P, status: Option<String> },
    /// It has no background: the source is cleared and the preset applied.
    ApplyWithoutBackground,
}

/// The next step of loading a preset. `read` is what reading its folder
/// gave: the error's text, or its background path (if it has one) with
/// whether that file exists. `silent` loads (the one at start-up) show no
/// status.
pub fn preset_load_step<P>(read: Result<Option<(P, bool)>, String>, silent: bool) -> (step:
    PresetLoadStep<P>)
    ensures
        match read {
            Err(e) => step matches PresetLoadStep::Failed { message } && if silent {
                message is None
            } else {
                message matches Some(m) && m@ == failure_prefix(PresetOp::Load) + e@
            },
            Ok(Some((p, false))) => step matches PresetLoadStep::Failed { message } && if silent {
                message is None
            } else {
                message matches Some(m) && m@ == failure_prefix(PresetOp::Load)
                    + "background file missing"@
            },
            Ok(Some((p, true))) => step matches PresetLoadStep::LoadBackground { path, status }
                && path == p && if silent {
                status is None
            } else {
                status matches Some(m) && m@ == "Loading preset..."@
            },
            Ok(None) => step is ApplyWithoutBackground,
        },
{
    match read {
        Err(e) => {
            let message = if silent {
                None
            } else {
                Some(failure_message(PresetOp::Load, e.as_str()))
            };
            PresetLoadStep::Failed { message }
        },
        Ok(Some((path, exists))) => {
            if !exists {
                let message = if silent {
                    None
                } else {
                    Some(failure_message(PresetOp::Load, "background file missing"))
                };
                PresetLoadStep::Failed { message }
            } else {
                let status = if silent {
                    None
                } else {
                    Some("Loading preset...".to_owned())
                };
                PresetLoadStep::LoadBackground { path, status }
            }
        },
        Ok(None) => PresetLoadStep::ApplyWithoutBackground,
    }
}

impl<P> PresetState<P> {
    /// A preset read from `folder` was applied, with `skipped` of its
    /// widgets not restored: it becomes the current preset. The status line
    /// to show is returned: none for a silent load over a status already
    /// shown (`status_empty` false).
    pub fn loaded(
        &mut self,
        folder: PresetFolder,
        name: String,
        skipped: u64,
        silent: bool,
        status_empty: bool,
    ) -> (status: Option<String>)
        ensures
            final(self).current matches Some(c) && c.folder@ == folder@ && c.name@ == name@,
            final(self).show_save_dialog == old(self).show_save_dialog,
            final(self).show_load_dialog == old(self).show_load_dialog,
            final(self).list@ == old(self).list@,
            final(self).spec_last_click() == old(self).spec_last_click(),
            if !silent || status_empty {
                status matches Some(m) && m@ == loaded_line(name@, skipped as nat)
            } else {
                status is None
            },
    {
        let status = if !silent || status_empty {
            Some(loaded_message(name.as_str(), skipped))
        } else {
            None
        };
        self.current = Some(CurrentPreset { folder, name });
        status
    }
}

/// The background a preset refers to: its file name in the preset folder.
#[derive(Debug)]
pub struct BackgroundData {
    pub file: String,
}

/// An environment value that counts: present and not empty.
pub open spec fn env_value(v: Option<Seq<char>>) -> Option<Seq<char>> {
    match v {
        Some(s) => if s.len() > 0 {
            Some(s)
        } else {
            None
        },
        None => None,
    }
}

/// The view of an optional string.
pub open spec fn opt_str(v: Option<&str>) -> Option<Seq<char>> {
    match v {
        Some(s) => Some(s@),
        None => None,
    }
}

/// The path components of the presets directory: under `$XDG_DATA_HOME`
/// when it is set, else under `$HOME/.local/share`, else under the current
/// directory (`.` when it cannot be read), in the app's `coolcooler` folder.
pub open spec fn presets_dir_parts(
    xdg_data_home: Option<Seq<char>>,
    home: Option<Seq<char>>,
    current_dir: Option<Seq<char>>,
) -> Seq<Seq<char>> {
    match env_value(xdg_data_home) {
        Some(x) => seq![x, "coolcooler"@, "presets"@],
        None => match env_value(home) {
            Some(h) => seq![h, ".local"@, "share"@, "coolcooler"@, "presets"@],
            None => match current_dir {
                Some(c) => seq![c, "coolcooler"@, "presets"@],
                None => seq!["."@, "coolcooler"@, "presets"@],
            },
        },
    }
}

fn env_set<'a>(v: Option<&'a str>) -> (r: Option<&'a str>)
    ensures
        opt_str(r) == env_value(opt_str(v)),
{
    match v {
        Some(s) => if s.is_empty() {
            None
        } else {
            Some(s)
        },
        None => None,
    }
}

/// The presets directory, as path components to join, from the
/// environment and current directory the host read.
pub fn presets_dir<'a>(
    xdg_data_home: Option<&'a str>,
    home: Option<&'a str>,
    current_dir: Option<&'a str>,
) -> (parts: Vec<&'a str>)
    ensures
        parts@.map_values(|p: &str| p@) == presets_dir_parts(
            opt_str(xdg_data_home),
            opt_str(home),
            opt_str(current_dir),
        ),
{
    let parts: Vec<&str> = match env_set(xdg_data_home) {
        Some(x) => vec![x, "coolcooler", "presets"],
        None => match env_set(home) {
            Some(h) => vec![h, ".local", "share", "coolcooler", "presets"],
            None => match current_dir {
                Some(c) => vec![c, "coolcooler", "presets"],
                None => vec![".", "coolcooler", "presets"],
            },
        },
    };
    assert(parts@.map_values(|p: &str| p@) =~= presets_dir_parts(
        opt_str(xdg_data_home),
        opt_str(home),
        opt_str(current_dir),
    ));
    parts
}

} // verus!

//! The folder watch/scan/convert engine, as decisions over plain values.
//!
//! A `WorklistConversion` owns at most one watched input folder, an
//! optional AETitle and modality, and derives its output folder from a
//! shared worklist root. The engine decides what to do — which folder to
//! watch or unwatch, whether an event triggers a scan, which files of a
//! folder listing are conversion candidates, and what the produced and
//! archived files are called. Installing watchers, listing folders,
//! creating directories and moving files is the caller's work.

use vstd::prelude::*;

use crate::strutil::str_eq;

verus! {

/// The view of an optional string.
pub open spec fn opt_view(o: Option<String>) -> Option<Seq<char>> {
    match o {
        Some(s) => Some(s@),
        None => None,
    }
}

/// The derived output folder, abstractly: folder, whether it must be
/// created, and the lockfile inside it, if any.
pub open spec fn spec_output_folder(aetitle: Option<Seq<char>>, root: Option<Seq<char>>) -> Option<
    (Seq<char>, bool, Option<Seq<char>>),
> {
    match root {
        None => None,
        Some(rt) => match aetitle {
            None => Some((rt, false, None::<Seq<char>>)),
            Some(a) => Some(
                (rt + seq!['/'] + a, true, Some(rt + seq!['/'] + a + "/.lockfile"@)),
            ),
        },
    }
}

/// One configured auto-conversion rule: the watched input folder, when
/// set, and the optional AETitle and modality stamps.
#[derive(Debug, Clone, PartialEq)]
pub struct WorklistConversion {
    pub input_watcher: Option<String>,
    pub aetitle: Option<String>,
    pub modality: Option<String>,
}

/// The serializable snapshot of a conversion rule.
#[derive(Debug, Clone, PartialEq)]
pub struct WorklistConversionState {
    pub input_dir_path: Option<String>,
    pub aetitle: Option<String>,
    pub modality: Option<String>,
}

/// The persisted DICOM-server configuration.
#[derive(Debug, Clone, PartialEq)]
pub struct DicomServerState {
    pub port: Option<u16>,
}

/// The persisted application state: the shared worklist root, the
/// configured conversions, and the server settings.
#[derive(Debug, Clone, PartialEq)]
pub struct StateFile {
    pub worklist_path: Option<String>,
    pub conversions: Vec<WorklistConversionState>,
    pub dicom_server: Option<DicomServerState>,
}

/// What the caller must do after a configuration change: tear down the
/// watch on `unwatch` (logging it), install a watch on `watch`, and run
/// one scan at once when `scan_now` holds.
#[derive(Debug, Clone, PartialEq)]
pub struct WatchPlan {
    pub unwatch: Option<String>,
    pub watch: Option<String>,
    pub scan_now: bool,
}

/// The derived output folder: the folder itself, whether it must be
/// created if missing, and the lockfile to create or refresh inside it.
#[derive(Debug, Clone, PartialEq)]
pub struct OutputFolderPlan {
    pub folder: String,
    pub create_folder: bool,
    pub lockfile: Option<String>,
}

/// What one scan of the input folder must do: resolve the output folder,
/// ensure the `processed` folder exists, convert each candidate file, and
/// leave the rest untouched.
#[derive(Debug, Clone, PartialEq)]
pub struct ScanPlan {
    pub output: Option<OutputFolderPlan>,
    pub processed_dir: Option<String>,
    pub gdt_files: Vec<String>,
    pub ignored: Vec<String>,
}

// ---------------------------------------------------------------------------
// File name classification
// ---------------------------------------------------------------------------

/// Index of the last `'.'` in `s`.
pub open spec fn spec_last_dot(s: Seq<char>) -> Option<int>
    decreases s.len(),
{
    if s.len() == 0 {
        None
    } else if s.last() == '.' {
        Some(s.len() - 1)
    } else {
        spec_last_dot(s.drop_last())
    }
}

/// True when the three characters spell `gdt` in any case.
pub open spec fn spec_is_gdt_chars(a: char, b: char, c: char) -> bool {
    (a == 'g' || a == 'G') && (b == 'd' || b == 'D') && (c == 't' || c == 'T')
}

/// True when the file name has a case-insensitive `.gdt` extension: the
/// extension is what follows the last dot, and a name that is all
/// extension (a leading dot) has none.
pub open spec fn spec_has_gdt_ext(s: Seq<char>) -> bool {
    match spec_last_dot(s) {
        Some(i) => i > 0 && s.len() - i == 4 && spec_is_gdt_chars(s[i + 1], s[i + 2], s[i + 3]),
        None => false,
    }
}

/// A dot with no later dot is the last dot.
proof fn lemma_last_dot_found(s: Seq<char>, j: int)
    requires
        0 <= j < s.len(),
        s[j] == '.',
        forall|k: int| j < k < s.len() ==> s[k] != '.',
    ensures
        spec_last_dot(s) == Some(j),
    decreases s.len(),
{
    if j == s.len() - 1 {
    } else {
        assert(s.last() != '.');
        assert(forall|k: int| j < k < s.drop_last().len() ==> s.drop_last()[k] != '.');
        assert(s.drop_last()[j] == '.');
        lemma_last_dot_found(s.drop_last(), j);
    }
}

/// A string without dots has no last dot.
proof fn lemma_last_dot_none(s: Seq<char>)
    requires
        forall|k: int| 0 <= k < s.len() ==> s[k] != '.',
    ensures
        spec_last_dot(s) == None::<int>,
    decreases s.len(),
{
    if s.len() > 0 {
        assert(forall|k: int| 0 <= k < s.drop_last().len() ==> s.drop_last()[k] != '.');
        lemma_last_dot_none(s.drop_last());
    }
}

/// True when the file name has a case-insensitive `.gdt` extension.
pub fn is_gdt_file(name: &str) -> (r: bool)
    ensures
        r == spec_has_gdt_ext(name@),
{
    let n: usize = name.unicode_len();
    let mut j: usize = n;
    while j > 0
        invariant
            0 <= j <= n,
            n == name@.len(),
            forall|k: int| j <= k < n ==> name@[k] != '.',
        decreases j,
    {
        let c: char = name.get_char(j - 1);
        if c as u32 == 46 {
            proof {
                assert(name@[j - 1] == '.');
                lemma_last_dot_found(name@, j - 1);
            }
            if j - 1 > 0 && n - (j - 1) == 4 {
                let a: u32 = name.get_char(j) as u32;
                let b: u32 = name.get_char(j + 1) as u32;
                let d: u32 = name.get_char(j + 2) as u32;
                let hit: bool = (a == 103 || a == 71) && (b == 100 || b == 68) && (d == 116 || d
                    == 84);
                proof {
                    assert(hit == spec_is_gdt_chars(
                        name@[j as int],
                        name@[j + 1],
                        name@[j + 2],
                    ));
                }
                return hit;
            }
            return false;
        }
        assert(name@[j - 1] != '.');
        j = j - 1;
    }
    proof {
        lemma_last_dot_none(name@);
    }
    false
}

/// Splits a folder listing into conversion candidates (`.gdt` files, case
/// insensitively) and everything else, keeping the listing order.
pub open spec fn spec_gdt_split(s: Seq<Seq<char>>) -> (Seq<Seq<char>>, Seq<Seq<char>>)
    decreases s.len(),
{
    if s.len() == 0 {
        (Seq::empty(), Seq::empty())
    } else {
        let r = spec_gdt_split(s.drop_last());
        if spec_has_gdt_ext(s.last()) {
            (r.0.push(s.last()), r.1)
        } else {
            (r.0, r.1.push(s.last()))
        }
    }
}

// ---------------------------------------------------------------------------
// The engine
// ---------------------------------------------------------------------------

impl WorklistConversion {
    /// A fresh, unconfigured conversion: nothing watched, no stamps.
    pub fn new() -> (r: WorklistConversion)
        ensures
            r.input_watcher is None,
            r.aetitle is None,
            r.modality is None,
    {
        WorklistConversion { input_watcher: None, aetitle: None, modality: None }
    }

    /// The serializable snapshot of this conversion.
    pub fn to_state(&self) -> (r: WorklistConversionState)
        ensures
            opt_view(r.input_dir_path) == opt_view(self.input_watcher),
            opt_view(r.aetitle) == opt_view(self.aetitle),
            opt_view(r.modality) == opt_view(self.modality),
    {
        WorklistConversionState {
            input_dir_path: clone_opt(&self.input_watcher),
            aetitle: clone_opt(&self.aetitle),
            modality: clone_opt(&self.modality),
        }
    }

    /// Restores a conversion from a snapshot. Empty stamp strings count as
    /// unset, and the returned plan installs the watch on the snapshot's
    /// input folder and triggers one scan.
    pub fn from_state(state: &WorklistConversionState) -> (r: (WorklistConversion, WatchPlan))
        ensures
            opt_view(r.0.input_watcher) == opt_view(state.input_dir_path),
            opt_view(r.0.aetitle) == (match state.aetitle {
                Some(a) => if a@.len() == 0 {
                    None::<Seq<char>>
                } else {
                    Some(a@)
                },
                None => None::<Seq<char>>,
            }),
            opt_view(r.0.modality) == (match state.modality {
                Some(m) => if m@.len() == 0 {
                    None::<Seq<char>>
                } else {
                    Some(m@)
                },
                None => None::<Seq<char>>,
            }),
            opt_view(r.1.watch) == opt_view(state.input_dir_path),
            r.1.unwatch is None,
            r.1.scan_now == (state.input_dir_path is Some),
    {
        let mut wc = WorklistConversion::new();
        match &state.aetitle {
            Some(a) => wc.set_aetitle_string(a.clone()),
            None => {},
        }
        match &state.modality {
            Some(m) => wc.set_modality_string(m.clone()),
            None => {},
        }
        let plan = wc.set_input_dir_path(clone_opt(&state.input_dir_path));
        (wc, plan)
    }

    /// The watched input folder, if any.
    pub fn input_dir_path(&self) -> (r: Option<String>)
        ensures
            opt_view(r) == opt_view(self.input_watcher),
    {
        clone_opt(&self.input_watcher)
    }

    /// Changes the watched input folder. Setting the same folder again is
    /// a no-op; a new folder tears down the previous watch, installs the
    /// new one, and triggers one scan; `None` clears the watch.
    pub fn set_input_dir_path(&mut self, path: Option<String>) -> (r: WatchPlan)
        ensures
            ({
                let same = opt_view(path) == opt_view(old(self).input_watcher);
                if same {
                    &&& *final(self) == *old(self)
                    &&& r.unwatch is None
                    &&& r.watch is None
                    &&& r.scan_now == false
                } else {
                    match opt_view(path) {
                        Some(new_path) => {
                            &&& opt_view(final(self).input_watcher) == Some(new_path)
                            &&& opt_view(r.unwatch) == opt_view(old(self).input_watcher)
                            &&& opt_view(r.watch) == Some(new_path)
                            &&& r.scan_now == true
                        },
                        None => {
                            &&& final(self).input_watcher is None
                            &&& r.unwatch is None
                            &&& r.watch is None
                            &&& r.scan_now == false
                        },
                    }
                }
            }),
            final(self).aetitle == old(self).aetitle,
            final(self).modality == old(self).modality,
    {
        let same: bool = match (&path, &self.input_watcher) {
            (Some(a), Some(b)) => str_eq(a.as_str(), b.as_str()),
            (None, None) => true,
            _ => false,
        };
        if same {
            return WatchPlan { unwatch: None, watch: None, scan_now: false };
        }
        match path {
            Some(new_path) => {
                let previous: Option<String> = clone_opt(&self.input_watcher);
                self.input_watcher = Some(new_path.clone());
                WatchPlan { unwatch: previous, watch: Some(new_path), scan_now: true }
            },
            None => {
                self.input_watcher = None;
                WatchPlan { unwatch: None, watch: None, scan_now: false }
            },
        }
    }

    /// Clears the watch; returns the folder whose watch the caller must
    /// tear down, if one was active. Safe to call when already unwatched.
    pub fn unwatch_input_dir(&mut self) -> (r: Option<String>)
        ensures
            opt_view(r) == opt_view(old(self).input_watcher),
            final(self).input_watcher is None,
            final(self).aetitle == old(self).aetitle,
            final(self).modality == old(self).modality,
    {
        let previous: Option<String> = clone_opt(&self.input_watcher);
        self.input_watcher = None;
        previous
    }

    /// Sets the AETitle; the empty string clears it.
    pub fn set_aetitle_string(&mut self, value: String)
        ensures
            opt_view(final(self).aetitle) == (if value@.len() == 0 {
                None::<Seq<char>>
            } else {
                Some(value@)
            }),
            final(self).input_watcher == old(self).input_watcher,
            final(self).modality == old(self).modality,
    {
        if value.as_str().unicode_len() == 0 {
            self.aetitle = None;
        } else {
            self.aetitle = Some(value);
        }
    }

    /// Sets the modality; the empty string clears it.
    pub fn set_modality_string(&mut self, value: String)
        ensures
            opt_view(final(self).modality) == (if value@.len() == 0 {
                None::<Seq<char>>
            } else {
                Some(value@)
            }),
            final(self).input_watcher == old(self).input_watcher,
            final(self).aetitle == old(self).aetitle,
    {
        if value.as_str().unicode_len() == 0 {
            self.modality = None;
        } else {
            self.modality = Some(value);
        }
    }

    /// Derives the output folder from the shared worklist root: the root
    /// itself without an AETitle; with one, the AETitle subfolder, which
    /// must be created if missing and must hold a `.lockfile` marker.
    /// `None` when no root is configured.
    pub fn output_folder(&self, worklist_dir: &Option<String>) -> (r: Option<OutputFolderPlan>)
        ensures
            match spec_output_folder(opt_view(self.aetitle), opt_view(*worklist_dir)) {
                None => r is None,
                Some(q) => r matches Some(p) && p.folder@ == q.0 && p.create_folder == q.1
                    && opt_view(p.lockfile) == q.2,
            },
    {
        let root: &String = match worklist_dir {
            None => {
                return None;
            },
            Some(root) => root,
        };
        match &self.aetitle {
            None => Some(
                OutputFolderPlan { folder: root.clone(), create_folder: false, lockfile: None },
            ),
            Some(a) => {
                let mut folder: String = root.clone();
                folder.append("/");
                folder.append(a.as_str());
                let mut lock: String = folder.clone();
                lock.append("/.lockfile");
                proof {
                    reveal_strlit("/");
                    assert(folder@ =~= root@ + seq!['/'] + a@);
                }
                Some(OutputFolderPlan { folder, create_folder: true, lockfile: Some(lock) })
            },
        }
    }

    /// Plans one scan of the input folder over its current listing: the
    /// resolved output folder, the `processed` archive folder under the
    /// input folder, and the listing split into `.gdt` candidates and
    /// ignored entries. A conversion with no watch or no worklist root
    /// scans nothing.
    pub fn scan_folder(&self, worklist_dir: &Option<String>, entries: &Vec<String>) -> (r: ScanPlan)
        ensures
            ({
                let active = self.input_watcher is Some && worklist_dir is Some;
                if active {
                    &&& match spec_output_folder(
                        opt_view(self.aetitle),
                        opt_view(*worklist_dir),
                    ) {
                        None => false,
                        Some(q) => r.output matches Some(p) && p.folder@ == q.0
                            && p.create_folder == q.1 && opt_view(p.lockfile) == q.2,
                    }
                    &&& r.processed_dir matches Some(d) && (self.input_watcher matches Some(w)
                        && d@ == w@ + "/processed"@)
                    &&& r.gdt_files.deep_view() == spec_gdt_split(entries.deep_view()).0
                    &&& r.ignored.deep_view() == spec_gdt_split(entries.deep_view()).1
                } else {
                    &&& r.processed_dir is None
                    &&& r.gdt_files@.len() == 0
                    &&& r.ignored@.len() == 0
                    &&& r.output is None
                }
            }),
    {
        let input: &String = match &self.input_watcher {
            Some(w) => w,
            None => {
                return ScanPlan {
                    output: None,
                    processed_dir: None,
                    gdt_files: Vec::new(),
                    ignored: Vec::new(),
                };
            },
        };
        let output: Option<OutputFolderPlan> = self.output_folder(worklist_dir);
        if output.is_none() {
            return ScanPlan {
                output: None,
                processed_dir: None,
                gdt_files: Vec::new(),
                ignored: Vec::new(),
            };
        }
        let mut processed: String = input.clone();
        processed.append("/processed");
        let mut gdt_files: Vec<String> = Vec::new();
        let mut ignored: Vec<String> = Vec::new();
        let ghost ev: Seq<Seq<char>> = entries.deep_view();
        let mut i: usize = 0;
        while i < entries.len()
            invariant
                0 <= i <= entries@.len(),
                ev == entries.deep_view(),
                ev.len() == entries@.len(),
                forall|j: int| 0 <= j < entries@.len() ==> #[trigger] ev[j] == entries@[j]@,
                gdt_files.deep_view() == spec_gdt_split(ev.take(i as int)).0,
                ignored.deep_view() == spec_gdt_split(ev.take(i as int)).1,
            decreases entries@.len() - i,
        {
            proof {
                assert(ev.take(i + 1).drop_last() =~= ev.take(i as int));
                assert(ev.take(i + 1).last() == ev[i as int]);
            }
            if is_gdt_file(entries[i].as_str()) {
                gdt_files.push(entries[i].clone());
                proof {
                    assert(gdt_files.deep_view() =~= spec_gdt_split(ev.take(i + 1)).0);
                }
            } else {
                ignored.push(entries[i].clone());
                proof {
                    assert(ignored.deep_view() =~= spec_gdt_split(ev.take(i + 1)).1);
                }
            }
            i = i + 1;
        }
        proof {
            assert(ev.take(ev.len() as int) =~= ev);
        }
        ScanPlan { output, processed_dir: Some(processed), gdt_files, ignored }
    }
}

/// A copy of an optional string.
fn clone_opt(o: &Option<String>) -> (r: Option<String>)
    ensures
        opt_view(r) == opt_view(*o),
{
    match o {
        Some(s) => Some(s.clone()),
        None => None,
    }
}

/// True when some path of the list has a case-insensitive `.gdt`
/// extension.
pub open spec fn spec_any_gdt(paths: Seq<Seq<char>>) -> bool {
    exists|i: int| 0 <= i < paths.len() && spec_has_gdt_ext(#[trigger] paths[i])
}

/// Decides whether a filesystem event triggers a scan: only a create
/// event, and only when one of the changed paths has a case-insensitive
/// `.gdt` extension.
pub fn handle_event(is_create: bool, paths: &Vec<String>) -> (r: bool)
    ensures
        r == (is_create && spec_any_gdt(paths.deep_view())),
{
    if !is_create {
        return false;
    }
    let ghost pv: Seq<Seq<char>> = paths.deep_view();
    let mut i: usize = 0;
    while i < paths.len()
        invariant
            is_create,
            0 <= i <= paths@.len(),
            pv == paths.deep_view(),
            pv.len() == paths@.len(),
            forall|j: int| 0 <= j < paths@.len() ==> #[trigger] pv[j] == paths@[j]@,
            forall|j: int| 0 <= j < i ==> !spec_has_gdt_ext(#[trigger] pv[j]),
        decreases paths@.len() - i,
    {
        if is_gdt_file(paths[i].as_str()) {
            proof {
                assert(spec_has_gdt_ext(paths.deep_view()[i as int]));
                assert(spec_any_gdt(paths.deep_view()));
            }
            return true;
        }
        i = i + 1;
    }
    false
}

/// The produced worklist file name: `first_last_timestamp.wl`.
pub fn wl_filename_at(first: &str, last: &str, timestamp: &str) -> (r: String)
    ensures
        r@ == first@ + seq!['_'] + last@ + seq!['_'] + timestamp@ + ".wl"@,
{
    let mut r: String = String::from_str(first);
    r.append("_");
    r.append(last);
    r.append("_");
    r.append(timestamp);
    r.append(".wl");
    proof {
        reveal_strlit("_");
        assert(r@ =~= first@ + seq!['_'] + last@ + seq!['_'] + timestamp@ + ".wl"@);
    }
    r
}

/// The archived input file name: the same stem with a `.gdt` extension.
pub fn processed_filename_at(first: &str, last: &str, timestamp: &str) -> (r: String)
    ensures
        r@ == first@ + seq!['_'] + last@ + seq!['_'] + timestamp@ + ".gdt"@,
{
    let mut r: String = String::from_str(first);
    r.append("_");
    r.append(last);
    r.append("_");
    r.append(timestamp);
    r.append(".gdt");
    proof {
        reveal_strlit("_");
        assert(r@ =~= first@ + seq!['_'] + last@ + seq!['_'] + timestamp@ + ".gdt"@);
    }
    r
}

/// Every entry of a listing lands in exactly one side of the split: the
/// candidates are exactly the entries with a `.gdt` extension and the
/// ignored ones exactly the rest, both in listing order.
pub proof fn lemma_scan_split_complete(s: Seq<Seq<char>>)
    ensures
        spec_gdt_split(s).0.len() + spec_gdt_split(s).1.len() == s.len(),
        forall|i: int|
            0 <= i < spec_gdt_split(s).0.len() ==> spec_has_gdt_ext(
                #[trigger] spec_gdt_split(s).0[i],
            ),
        forall|i: int|
            0 <= i < spec_gdt_split(s).1.len() ==> !spec_has_gdt_ext(
                #[trigger] spec_gdt_split(s).1[i],
            ),
        forall|i: int|
            0 <= i < s.len() && spec_has_gdt_ext(#[trigger] s[i]) ==> spec_gdt_split(
                s,
            ).0.contains(s[i]),
        forall|i: int|
            0 <= i < s.len() && !spec_has_gdt_ext(#[trigger] s[i]) ==> spec_gdt_split(
                s,
            ).1.contains(s[i]),
    decreases s.len(),
{
    if s.len() > 0 {
        lemma_scan_split_complete(s.drop_last());
        let r = spec_gdt_split(s.drop_last());
        assert forall|i: int|
            0 <= i < s.len() && spec_has_gdt_ext(#[trigger] s[i]) implies spec_gdt_split(
            s,
        ).0.contains(s[i]) by {
            if i < s.len() - 1 {
                assert(s.drop_last()[i] == s[i]);
                assert(r.0.contains(s[i]));
                let w = choose|w: int| 0 <= w < r.0.len() && r.0[w] == s[i];
                if spec_has_gdt_ext(s.last()) {
                    assert(spec_gdt_split(s).0 == r.0.push(s.last()));
                    assert(spec_gdt_split(s).0[w] == s[i]);
                } else {
                    assert(spec_gdt_split(s).0[w] == s[i]);
                }
            } else {
                assert(spec_gdt_split(s).0.last() == s[i]);
            }
        }
        assert forall|i: int|
            0 <= i < s.len() && !spec_has_gdt_ext(#[trigger] s[i]) implies spec_gdt_split(
            s,
        ).1.contains(s[i]) by {
            if i < s.len() - 1 {
                assert(s.drop_last()[i] == s[i]);
                assert(r.1.contains(s[i]));
                let w = choose|w: int| 0 <= w < r.1.len() && r.1[w] == s[i];
                assert(spec_gdt_split(s).1[w] == s[i]);
            } else {
                assert(spec_gdt_split(s).1.last() == s[i]);
            }
        }
    }
}

} // verus!

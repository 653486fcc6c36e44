//! The completion-state store: per-artifact download and merge state,
//! keyed by display name.
//!
//! An entry is inserted when an artifact request is registered, its
//! download flags are set as tasks complete, and `finished` is set once
//! the merge step has run. A download flag is set only when the task's
//! identifier matches the stored one and the download itself succeeded,
//! so `finished` can only ever follow two successful downloads.

use vstd::prelude::*;

use crate::task::DownloadTask;
use crate::task::StreamKind;

verus! {

/// Per-artifact state: identifiers, resolved stream paths, and the three
/// lifecycle flags.
pub struct ArtifactState {
    pub display_name: String,
    pub cid: String,
    pub video_path: String,
    pub audio_path: String,
    pub video_downloaded: bool,
    pub audio_downloaded: bool,
    pub finished: bool,
}

/// What the merge step needs once both streams of an artifact are on
/// disk.
pub struct MergeInputs {
    pub video_path: String,
    pub audio_path: String,
    pub display_name: String,
}

/// The first entry with the given display name, if any.
pub open spec fn lookup(s: Seq<ArtifactState>, name: Seq<char>) -> Option<ArtifactState>
    decreases s.len(),
{
    if s.len() == 0 {
        None
    } else if s[0].display_name@ == name {
        Some(s[0])
    } else {
        lookup(s.drop_first(), name)
    }
}

/// Well-formed entries: display names are unique, and `finished` is
/// never set without both download flags.
pub open spec fn entries_wf(s: Seq<ArtifactState>) -> bool {
    &&& forall|i: int, j: int|
        0 <= i < j < s.len() ==> s[i].display_name@ != s[j].display_name@
    &&& forall|i: int|
        0 <= i < s.len() ==> (s[i].finished ==> s[i].video_downloaded && s[i].audio_downloaded)
}

/// If some entry carries the name, lookup yields the first such entry.
proof fn lemma_lookup_matches(s: Seq<ArtifactState>, name: Seq<char>, i: int)
    requires
        0 <= i < s.len(),
        s[i].display_name@ == name,
        forall|k: int| 0 <= k < i ==> s[k].display_name@ != name,
    ensures
        lookup(s, name) == Some(s[i]),
    decreases i,
{
    if i > 0 {
        lemma_lookup_matches(s.drop_first(), name, i - 1);
    }
}

/// If no entry carries the name, lookup yields nothing.
proof fn lemma_lookup_absent(s: Seq<ArtifactState>, name: Seq<char>)
    requires
        forall|k: int| 0 <= k < s.len() ==> s[k].display_name@ != name,
    ensures
        lookup(s, name) is None,
    decreases s.len(),
{
    if s.len() > 0 {
        lemma_lookup_absent(s.drop_first(), name);
    }
}

/// Whatever lookup yields is one of the entries, and carries the name.
proof fn lemma_lookup_is_entry(s: Seq<ArtifactState>, name: Seq<char>)
    requires
        lookup(s, name) is Some,
    ensures
        exists|i: int|
            0 <= i < s.len() && s[i] == lookup(s, name).unwrap() && s[i].display_name@ == name,
    decreases s.len(),
{
    if s.len() > 0 && s[0].display_name@ != name {
        lemma_lookup_is_entry(s.drop_first(), name);
        let j = choose|j: int|
            0 <= j < s.drop_first().len() && s.drop_first()[j] == lookup(
                s.drop_first(),
                name,
            ).unwrap() && s.drop_first()[j].display_name@ == name;
        assert(s[j + 1] == s.drop_first()[j]);
    }
}

/// Replacing an entry by one with the same name leaves every other
/// name's lookup unchanged.
proof fn lemma_lookup_update_other(
    s: Seq<ArtifactState>,
    i: int,
    st: ArtifactState,
    name: Seq<char>,
)
    requires
        0 <= i < s.len(),
        st.display_name@ == s[i].display_name@,
        name != s[i].display_name@,
    ensures
        lookup(s.update(i, st), name) == lookup(s, name),
    decreases s.len(),
{
    let t = s.update(i, st);
    if i == 0 {
        assert(t.drop_first() =~= s.drop_first());
    } else {
        if s[0].display_name@ == name {
            assert(t[0] == s[0]);
        } else {
            assert(t.drop_first() =~= s.drop_first().update(i - 1, st));
            lemma_lookup_update_other(s.drop_first(), i - 1, st, name);
        }
    }
}

/// Removing an entry of another name leaves a name's lookup unchanged.
proof fn lemma_lookup_remove_other(s: Seq<ArtifactState>, i: int, name: Seq<char>)
    requires
        0 <= i < s.len(),
        s[i].display_name@ != name,
    ensures
        lookup(s.remove(i), name) == lookup(s, name),
    decreases s.len(),
{
    let t = s.remove(i);
    if i == 0 {
        assert(t =~= s.drop_first());
    } else {
        assert(t[0] == s[0]);
        if s[0].display_name@ != name {
            assert(t.drop_first() =~= s.drop_first().remove(i - 1));
            lemma_lookup_remove_other(s.drop_first(), i - 1, name);
        }
    }
}

/// Appending an entry leaves every other name's lookup unchanged.
proof fn lemma_lookup_push_other(s: Seq<ArtifactState>, st: ArtifactState, name: Seq<char>)
    requires
        st.display_name@ != name,
    ensures
        lookup(s.push(st), name) == lookup(s, name),
    decreases s.len(),
{
    if s.len() == 0 {
        assert(s.push(st)[0] == st);
        assert(s.push(st).drop_first() =~= Seq::<ArtifactState>::empty());
    } else {
        assert(s.push(st)[0] == s[0]);
        if s[0].display_name@ != name {
            assert(s.push(st).drop_first() =~= s.drop_first().push(st));
            lemma_lookup_push_other(s.drop_first(), st, name);
        }
    }
}

/// The concurrency-safe completion-state map of the pipeline; callers
/// serialize access around it.
pub struct StateStore {
    entries: Vec<ArtifactState>,
}

/// The state an artifact has as soon as it is registered.
pub open spec fn fresh_state(
    display_name: Seq<char>,
    cid: Seq<char>,
    video_path: Seq<char>,
    audio_path: Seq<char>,
    st: ArtifactState,
) -> bool {
    &&& st.display_name@ == display_name
    &&& st.cid@ == cid
    &&& st.video_path@ == video_path
    &&& st.audio_path@ == audio_path
    &&& !st.video_downloaded
    &&& !st.audio_downloaded
    &&& !st.finished
}

/// An artifact state with the flag of one stream kind set.
pub open spec fn with_flag(st: ArtifactState, kind: StreamKind) -> ArtifactState {
    match kind {
        StreamKind::Video => ArtifactState { video_downloaded: true, ..st },
        StreamKind::Audio => ArtifactState { audio_downloaded: true, ..st },
    }
}

impl StateStore {
    pub closed spec fn view(self) -> Seq<ArtifactState> {
        self.entries@
    }

    pub open spec fn inv(self) -> bool {
        entries_wf(self@)
    }

    /// The state recorded for a display name, if any.
    pub open spec fn get(self, name: Seq<char>) -> Option<ArtifactState> {
        lookup(self@, name)
    }

    /// An empty store.
    pub fn new() -> (s: StateStore)
        ensures
            s.inv(),
            s@ == Seq::<ArtifactState>::empty(),
    {
        StateStore { entries: Vec::new() }
    }

    /// Index of the entry with the given name, if any.
    fn find(&self, name: &str) -> (r: Option<usize>)
        ensures
            match r {
                Some(i) => i < self@.len() && self@[i as int].display_name@ == name@ && forall|
                    k: int,
                |
                    0 <= k < i ==> self@[k].display_name@ != name@,
                None => forall|k: int| 0 <= k < self@.len() ==> self@[k].display_name@ != name@,
            },
    {
        let mut i: usize = 0;
        let n = self.entries.len();
        while i < n
            invariant
                n == self@.len(),
                i <= n,
                forall|k: int| 0 <= k < i ==> self@[k].display_name@ != name@,
            decreases n - i,
        {
            if crate::strutil::str_eq(self.entries[i].display_name.as_str(), name) {
                return Some(i);
            }
            i += 1;
        }
        None
    }

    /// The entry recorded for a display name, if any.
    pub fn get_state(&self, name: &str) -> (r: Option<&ArtifactState>)
        ensures
            match r {
                Some(st) => self.get(name@) == Some(*st),
                None => self.get(name@) is None,
            },
    {
        match self.find(name) {
            Some(i) => {
                proof {
                    lemma_lookup_matches(self@, name@, i as int);
                }
                Some(&self.entries[i])
            },
            None => {
                proof {
                    lemma_lookup_absent(self@, name@);
                }
                None
            },
        }
    }

    /// Registers a fresh artifact: inserts a state with both flags clear,
    /// silently replacing any prior entry of the same display name.
    pub fn register(
        &mut self,
        display_name: String,
        cid: String,
        video_path: String,
        audio_path: String,
    )
        requires
            old(self).inv(),
        ensures
            final(self).inv(),
            match final(self).get(display_name@) {
                Some(st) => fresh_state(display_name@, cid@, video_path@, audio_path@, st),
                None => false,
            },
            forall|n: Seq<char>|
                n != display_name@ ==> final(self).get(n) == old(self).get(n),
    {
        let ghost name = display_name@;
        if let Some(i) = self.find(display_name.as_str()) {
            let ghost pre = self@;
            self.entries.remove(i);
            proof {
                assert forall|n: Seq<char>| n != name implies lookup(self@, n) == lookup(
                    pre,
                    n,
                ) by {
                    lemma_lookup_remove_other(pre, i as int, n);
                }
                assert forall|k: int| 0 <= k < self@.len() implies self@[
                    k
                ].display_name@ != name by {
                    if k < i {
                        assert(self@[k] == pre[k]);
                    } else {
                        assert(self@[k] == pre[k + 1]);
                    }
                }
            }
        }
        let ghost base = self@;
        let st = ArtifactState {
            display_name,
            cid,
            video_path,
            audio_path,
            video_downloaded: false,
            audio_downloaded: false,
            finished: false,
        };
        self.entries.push(st);
        proof {
            lemma_lookup_matches(self@, name, base.len() as int);
            assert forall|n: Seq<char>| n != name implies lookup(self@, n) == lookup(base, n) by {
                lemma_lookup_push_other(base, st, n);
            }
            assert forall|k: int, j: int|
                0 <= k < j < self@.len() implies self@[k].display_name@ != self@[
                j
            ].display_name@ by {
                if j < base.len() {
                    assert(self@[k] == base[k] && self@[j] == base[j]);
                } else {
                    assert(self@[k] == base[k]);
                }
            }
        }
    }

    /// Records the completion of one task. The matching entry's flag for
    /// the task's stream kind is set only when the entry exists, its
    /// identifier matches, and the download succeeded; a missing or
    /// mismatched entry drops the update silently. Yields the merge
    /// inputs exactly when this update makes both flags true on an entry
    /// not yet finished.
    pub fn on_task_complete(&mut self, task: &DownloadTask, download_ok: bool) -> (r: Option<
        MergeInputs,
    >)
        requires
            old(self).inv(),
        ensures
            final(self).inv(),
            !download_ok ==> final(self)@ == old(self)@ && r is None,
            download_ok ==> match old(self).get(task.display_name@) {
                None => final(self)@ == old(self)@ && r is None,
                Some(st) => {
                    if st.cid@ == task.cid@ {
                        let st2 = with_flag(st, task.kind);
                        &&& final(self).get(task.display_name@) == Some(st2)
                        &&& forall|n: Seq<char>|
                            n != task.display_name@ ==> final(self).get(n) == old(self).get(n)
                        &&& if st2.video_downloaded && st2.audio_downloaded && !st2.finished {
                            match r {
                                Some(mi) => mi.video_path == st.video_path && mi.audio_path
                                    == st.audio_path && mi.display_name == st.display_name,
                                None => false,
                            }
                        } else {
                            r is None
                        }
                    } else {
                        final(self)@ == old(self)@ && r is None
                    }
                },
            },
    {
        if !download_ok {
            return None;
        }
        let i = match self.find(task.display_name.as_str()) {
            Some(i) => i,
            None => {
                proof {
                    lemma_lookup_absent(self@, task.display_name@);
                }
                return None;
            },
        };
        proof {
            lemma_lookup_matches(self@, task.display_name@, i as int);
        }
        let ghost pre = self@;
        let st = self.entries.remove(i);
        if !crate::strutil::str_eq(st.cid.as_str(), task.cid.as_str()) {
            self.entries.insert(i, st);
            proof {
                assert(self@ =~= pre);
            }
            return None;
        }
        let set_video = match task.kind {
            StreamKind::Video => true,
            StreamKind::Audio => false,
        };
        let updated = ArtifactState {
            video_downloaded: st.video_downloaded || set_video,
            audio_downloaded: st.audio_downloaded || !set_video,
            ..st
        };
        let r = if updated.video_downloaded && updated.audio_downloaded && !updated.finished {
            Some(
                MergeInputs {
                    video_path: updated.video_path.clone(),
                    audio_path: updated.audio_path.clone(),
                    display_name: updated.display_name.clone(),
                },
            )
        } else {
            None
        };
        self.entries.insert(i, updated);
        proof {
            assert(self@ =~= pre.update(i as int, updated));
            assert(updated == with_flag(pre[i as int], task.kind));
            lemma_lookup_matches(self@, task.display_name@, i as int);
            assert forall|n: Seq<char>| n != task.display_name@ implies lookup(self@, n) == lookup(
                pre,
                n,
            ) by {
                lemma_lookup_update_other(pre, i as int, updated, n);
            }
        }
        r
    }

    /// Marks an artifact finished after its merge step has run. The mark
    /// is taken only when the entry exists with both download flags set;
    /// the result says whether it was.
    pub fn mark_finished(&mut self, display_name: &String) -> (r: bool)
        requires
            old(self).inv(),
        ensures
            final(self).inv(),
            match old(self).get(display_name@) {
                Some(st) => {
                    if st.video_downloaded && st.audio_downloaded {
                        &&& r
                        &&& final(self).get(display_name@) == Some(
                            ArtifactState { finished: true, ..st },
                        )
                        &&& forall|n: Seq<char>|
                            n != display_name@ ==> final(self).get(n) == old(self).get(n)
                    } else {
                        !r && final(self)@ == old(self)@
                    }
                },
                None => !r && final(self)@ == old(self)@,
            },
    {
        let i = match self.find(display_name.as_str()) {
            Some(i) => i,
            None => {
                proof {
                    lemma_lookup_absent(self@, display_name@);
                }
                return false;
            },
        };
        proof {
            lemma_lookup_matches(self@, display_name@, i as int);
        }
        let ghost pre = self@;
        let st = self.entries.remove(i);
        if !(st.video_downloaded && st.audio_downloaded) {
            self.entries.insert(i, st);
            proof {
                assert(self@ =~= pre);
            }
            return false;
        }
        let updated = ArtifactState { finished: true, ..st };
        self.entries.insert(i, updated);
        proof {
            assert(self@ =~= pre.update(i as int, updated));
            lemma_lookup_matches(self@, display_name@, i as int);
            assert forall|n: Seq<char>| n != display_name@ implies lookup(self@, n) == lookup(
                pre,
                n,
            ) by {
                lemma_lookup_update_other(pre, i as int, updated, n);
            }
        }
        true
    }
}

/// In a well-formed store, a finished artifact always has both of its
/// download flags set: `finished` is reached only through two recorded
/// downloads.
pub proof fn lemma_finished_implies_downloaded(s: StateStore, name: Seq<char>)
    requires
        s.inv(),
        s.get(name) is Some,
        s.get(name).unwrap().finished,
    ensures
        s.get(name).unwrap().video_downloaded,
        s.get(name).unwrap().audio_downloaded,
{
    lemma_lookup_is_entry(s@, name);
}

} // verus!

//! The config store's semantics: saving, loading and rotating the config
//! file, verified over an in-memory model of the directory the file lives
//! in. The running binary performs the same steps on the real filesystem
//! and hands their outcomes back as plain values.

use vstd::prelude::*;
use vstd::string::*;

use crate::config::GameConfig;
use crate::json::parse_config;
use crate::json::spec_config_text;
use crate::json::spec_parse_config;
use crate::json::to_json;

verus! {

/// Why a configuration could not be loaded: the file is absent — the
/// caller may offer to create one — or it is there but malformed.
#[derive(Clone, Copy, PartialEq, Eq, Structural, Debug)]
pub enum LoadError {
    NotFound,
    Malformed,
}

/// What startup does about the config file.
#[derive(Clone, Copy, PartialEq, Eq, Structural, Debug)]
pub enum StartupAction {
    /// The file is there: load it and run the session.
    LoadExisting,
    /// The file is absent and the user wants one: write the default
    /// configuration, then stop so it can be reviewed before a next run.
    CreateDefaultAndHalt,
    /// The file is absent and the user declined one: stop without writing
    /// anything.
    HaltWithoutWriting,
}

/// Decides the startup flow from the file's presence and, where it is
/// absent, the user's answer to the creation prompt (nothing when the
/// prompt itself failed).
pub fn startup_decision(file_exists: bool, create_confirmed: Option<bool>) -> (d: StartupAction)
    ensures
        file_exists ==> d == StartupAction::LoadExisting,
        !file_exists && create_confirmed == Some(true) ==> d == StartupAction::CreateDefaultAndHalt,
        !file_exists && create_confirmed != Some(true) ==> d == StartupAction::HaltWithoutWriting,
{
    if file_exists {
        StartupAction::LoadExisting
    } else {
        match create_confirmed {
            Some(true) => StartupAction::CreateDefaultAndHalt,
            _ => StartupAction::HaltWithoutWriting,
        }
    }
}

/// Decides the backup-and-recreate flow from the user's answer to its
/// confirmation prompt: nothing means proceed with the rotation, a message
/// means leave the config alone and show it.
pub fn rotate_decision(confirm: Result<bool, String>) -> (r: Option<String>)
    ensures
        match confirm {
            Ok(true) => r is None,
            Ok(false) => r matches Some(m) && m@ == "Existing config unchanged"@,
            Err(e) => r matches Some(m) && m@ == "Failed to read prompt "@ + e@ && m@.len() > 0,
        },
{
    match confirm {
        Ok(true) => None,
        Ok(false) => Some(String::from_str("Existing config unchanged")),
        Err(e) => {
            let mut s = String::from_str("Failed to read prompt ");
            s.append(e.as_str());
            proof {
                reveal_strlit("Failed to read prompt ");
            }
            Some(s)
        },
    }
}

/// The message shown after a successful rotation.
pub fn rotate_done_message() -> (r: String)
    ensures
        r@ == "Success"@,
{
    String::from_str("Success")
}

/// A backup file's name: the original name, a dot, the timestamp.
pub open spec fn backup_name_text(path: Seq<char>, stamp: Seq<char>) -> Seq<char> {
    path + "."@ + stamp
}

/// Builds a backup file's name.
pub fn backup_name(path: &String, stamp: &String) -> (r: String)
    ensures
        r@ == backup_name_text(path@, stamp@),
{
    let mut s = path.clone();
    s.append(".");
    s.append(stamp.as_str());
    proof {
        assert(s@ =~= backup_name_text(path@, stamp@));
    }
    s
}

/// Relies on `chrono::Utc::now` and its `format`: the current UTC time as
/// the sortable `YYYYMMDDHHMMSS` stamp. Nothing is assumed of the clock's
/// value; whatever it is, the stamp has the four-digit-padded year and two
/// digits for each further part. Caveat: `Utc::now` itself panics when the
/// system clock reads before the Unix epoch.
#[verifier::external_body]
pub fn now_timestamp() -> (r: String)
    ensures
        r@.len() >= 14,
{
    chrono::Utc::now().format("%Y%m%d%H%M%S").to_string()
}

/// A directory as the config store sees it: named files with text
/// contents, no name twice.
pub struct FileStore {
    pub files: Vec<(String, String)>,
}

impl FileStore {
    /// No two entries share a name.
    pub open spec fn wf(self) -> bool {
        forall|i: int, j: int|
            0 <= i < j < self.files@.len() ==> (#[trigger] self.files@[i]).0@ != (
            #[trigger] self.files@[j]).0@
    }

    /// Whether a file of the given name is present.
    pub open spec fn has_file(self, name: Seq<char>) -> bool {
        exists|i: int| 0 <= i < self.files@.len() && (#[trigger] self.files@[i]).0@ == name
    }

    /// The content of the file of the given name.
    pub open spec fn content_of(self, name: Seq<char>) -> Seq<char> {
        (self.files@[choose|i: int|
            0 <= i < self.files@.len() && (#[trigger] self.files@[i]).0@ == name]).1@
    }

    /// An empty directory.
    pub fn new() -> (r: FileStore)
        ensures
            r.wf(),
            r.files@.len() == 0,
            forall|n: Seq<char>| !r.has_file(n),
    {
        FileStore { files: Vec::new() }
    }

    /// The index of the file of the given name, if any.
    fn find(&self, name: &String) -> (r: Option<usize>)
        ensures
            match r {
                Some(i) => i < self.files@.len() && self.files@[i as int].0@ == name@,
                None => !self.has_file(name@),
            },
    {
        let mut i: usize = 0;
        while i < self.files.len()
            invariant
                i <= self.files@.len(),
                forall|j: int| 0 <= j < i ==> (#[trigger] self.files@[j]).0@ != name@,
            decreases self.files@.len() - i,
        {
            if self.files[i].0.eq(name) {
                return Some(i);
            }
            i = i + 1;
        }
        None
    }

    /// Each entry is the one `content_of` its name names.
    proof fn lemma_content_at(self, i: int)
        requires
            self.wf(),
            0 <= i < self.files@.len(),
        ensures
            self.has_file(self.files@[i].0@),
            self.content_of(self.files@[i].0@) == self.files@[i].1@,
    {
        let name = self.files@[i].0@;
        assert(self.has_file(name));
        let j = choose|j: int|
            0 <= j < self.files@.len() && (#[trigger] self.files@[j]).0@ == name;
        if i < j {
            assert(self.files@[i].0@ != self.files@[j].0@);
        } else if j < i {
            assert(self.files@[j].0@ != self.files@[i].0@);
        }
    }

    /// Removes the file of the given name, handing its content out.
    pub fn take_file(&mut self, name: &String) -> (r: Option<String>)
        requires
            old(self).wf(),
        ensures
            final(self).wf(),
            match r {
                Some(c) => {
                    &&& old(self).has_file(name@)
                    &&& c@ == old(self).content_of(name@)
                    &&& !final(self).has_file(name@)
                    &&& forall|n: Seq<char>|
                        n != name@ ==> (final(self).has_file(n) <==> old(self).has_file(n))
                    &&& forall|n: Seq<char>|
                        n != name@ && old(self).has_file(n) ==> final(self).content_of(n) == old(
                            self,
                        ).content_of(n)
                },
                None => !old(self).has_file(name@) && *final(self) == *old(self),
            },
    {
        let idx = match self.find(name) {
            None => { return None; },
            Some(i) => i,
        };
        proof {
            self.lemma_content_at(idx as int);
        }
        let ghost pre = *self;
        let entry = self.files.remove(idx);
        proof {
            let fs = self.files@;
            let os = pre.files@;
            assert(forall|j: int| 0 <= j < idx ==> fs[j] == os[j]);
            assert(forall|j: int| idx <= j < fs.len() ==> fs[j] == os[j + 1]);
            assert forall|i: int, j: int| 0 <= i < j < fs.len() implies (#[trigger] fs[i]).0@ != (
            #[trigger] fs[j]).0@ by {
                let oi = if i < idx { i } else { i + 1 };
                let oj = if j < idx { j } else { j + 1 };
                assert(os[oi].0@ != os[oj].0@);
            }
            assert forall|n: Seq<char>| n != name@ implies (self.has_file(n) <==> pre.has_file(
                n,
            )) by {
                if self.has_file(n) {
                    let i = choose|i: int| 0 <= i < fs.len() && (#[trigger] fs[i]).0@ == n;
                    let oi = if i < idx { i } else { i + 1 };
                    assert(os[oi].0@ == n);
                    assert(pre.has_file(n));
                }
                if pre.has_file(n) {
                    let i = choose|i: int| 0 <= i < os.len() && (#[trigger] os[i]).0@ == n;
                    let ni = if i < idx { i } else { i - 1 };
                    assert(i != idx);
                    assert(fs[ni].0@ == n);
                    assert(self.has_file(n));
                }
            }
            assert(!self.has_file(name@)) by {
                if self.has_file(name@) {
                    let i = choose|i: int| 0 <= i < fs.len() && (#[trigger] fs[i]).0@ == name@;
                    let oi = if i < idx { i } else { i + 1 };
                    assert(os[oi].0@ == name@);
                    assert(oi != idx);
                    if oi < idx {
                        assert(os[oi].0@ != os[idx as int].0@);
                    } else {
                        assert(os[idx as int].0@ != os[oi].0@);
                    }
                }
            }
            assert forall|n: Seq<char>| n != name@ && pre.has_file(n) implies self.content_of(n)
                == pre.content_of(n) by {
                let i = choose|i: int| 0 <= i < os.len() && (#[trigger] os[i]).0@ == n;
                let ni = if i < idx { i } else { i - 1 };
                assert(i != idx);
                assert(fs[ni].0@ == n);
                self.lemma_content_at(ni);
                pre.lemma_content_at(i);
                assert(fs[ni].1@ == os[i].1@);
            }
        }
        Some(entry.1)
    }

    /// Writes a file: the new content replaces any file of the same name.
    pub fn write_file(&mut self, name: String, content: String)
        requires
            old(self).wf(),
        ensures
            final(self).wf(),
            final(self).has_file(name@),
            final(self).content_of(name@) == content@,
            forall|n: Seq<char>|
                n != name@ ==> (final(self).has_file(n) <==> old(self).has_file(n)),
            forall|n: Seq<char>|
                n != name@ && old(self).has_file(n) ==> final(self).content_of(n) == old(
                    self,
                ).content_of(n),
    {
        let _ = self.take_file(&name);
        let ghost mid = *self;
        self.files.push((name, content));
        proof {
            let fs = self.files@;
            let ms = mid.files@;
            let last = fs.len() - 1;
            assert(forall|j: int| 0 <= j < last ==> fs[j] == ms[j]);
            assert forall|i: int, j: int| 0 <= i < j < fs.len() implies (#[trigger] fs[i]).0@ != (
            #[trigger] fs[j]).0@ by {
                if j < last {
                    assert(ms[i].0@ != ms[j].0@);
                } else {
                    assert(fs[j].0@ == name@);
                    assert(ms[i].0@ != name@) by {
                        if ms[i].0@ == name@ {
                            mid.lemma_content_at(i);
                        }
                    }
                }
            }
            assert(fs[last].0@ == name@);
            assert(self.has_file(name@));
            self.lemma_content_at(last);
            assert forall|n: Seq<char>| n != name@ implies (self.has_file(n) <==> mid.has_file(
                n,
            )) by {
                if self.has_file(n) {
                    let i = choose|i: int| 0 <= i < fs.len() && (#[trigger] fs[i]).0@ == n;
                    assert(i != last);
                    assert(ms[i].0@ == n);
                    assert(mid.has_file(n));
                }
                if mid.has_file(n) {
                    let i = choose|i: int| 0 <= i < ms.len() && (#[trigger] ms[i]).0@ == n;
                    assert(fs[i].0@ == n);
                    assert(self.has_file(n));
                }
            }
            assert forall|n: Seq<char>| n != name@ && mid.has_file(n) implies self.content_of(n)
                == mid.content_of(n) by {
                let i = choose|i: int| 0 <= i < ms.len() && (#[trigger] ms[i]).0@ == n;
                assert(fs[i].0@ == n);
                self.lemma_content_at(i);
                mid.lemma_content_at(i);
                assert(fs[i].1@ == ms[i].1@);
            }
        }
    }

    /// Reads a file's content, leaving the store alone.
    pub fn read_file(&self, name: &String) -> (r: Option<String>)
        requires
            self.wf(),
        ensures
            match r {
                Some(c) => self.has_file(name@) && c@ == self.content_of(name@),
                None => !self.has_file(name@),
            },
    {
        match self.find(name) {
            None => None,
            Some(i) => {
                proof {
                    self.lemma_content_at(i as int);
                }
                Some(self.files[i].1.clone())
            },
        }
    }

    /// Saves a configuration under the given name: the file afterwards
    /// holds exactly its rendered text.
    pub fn save_config(&mut self, name: String, c: &GameConfig)
        requires
            old(self).wf(),
        ensures
            final(self).wf(),
            final(self).has_file(name@),
            final(self).content_of(name@) == spec_config_text(c@),
            forall|n: Seq<char>|
                n != name@ ==> (final(self).has_file(n) <==> old(self).has_file(n)),
            forall|n: Seq<char>|
                n != name@ && old(self).has_file(n) ==> final(self).content_of(n) == old(
                    self,
                ).content_of(n),
    {
        self.write_file(name, to_json(c));
    }

    /// Loads the configuration from the file of the given name,
    /// distinguishing an absent file from a malformed one.
    pub fn load_config(&self, name: &String) -> (r: Result<GameConfig, LoadError>)
        requires
            self.wf(),
        ensures
            match r {
                Ok(c) => self.has_file(name@) && spec_parse_config(self.content_of(name@))
                    == Some(c@),
                Err(LoadError::NotFound) => !self.has_file(name@),
                Err(LoadError::Malformed) => self.has_file(name@) && spec_parse_config(
                    self.content_of(name@),
                ) is None,
            },
    {
        match self.read_file(name) {
            None => Err(LoadError::NotFound),
            Some(text) => match parse_config(text.as_str()) {
                Ok(c) => Ok(c),
                Err(_) => Err(LoadError::Malformed),
            },
        }
    }

    /// Rotates the config file: what was at `path` is renamed to
    /// `path.<stamp>` — replacing a leftover backup of the same stamp, as
    /// a rename would — and a fresh default configuration is written at
    /// `path`. Where there is nothing to rename, nothing is written
    /// either.
    pub fn rotate(&mut self, path: &String, stamp: &String) -> (r: Result<(), ()>)
        requires
            old(self).wf(),
        ensures
            final(self).wf(),
            match r {
                Ok(_) => {
                    &&& old(self).has_file(path@)
                    &&& final(self).has_file(path@)
                    &&& final(self).content_of(path@) == spec_config_text(
                        crate::config::default_config(),
                    )
                    &&& final(self).has_file(backup_name_text(path@, stamp@))
                    &&& final(self).content_of(backup_name_text(path@, stamp@)) == old(
                        self,
                    ).content_of(path@)
                    &&& forall|n: Seq<char>|
                        n != path@ && n != backup_name_text(path@, stamp@) ==> ((
                        final(self).has_file(n) <==> old(self).has_file(n)) && (old(
                            self,
                        ).has_file(n) ==> final(self).content_of(n) == old(self).content_of(n)))
                },
                Err(_) => !old(self).has_file(path@) && *final(self) == *old(self),
            },
    {
        let content = match self.take_file(path) {
            None => { return Err(()); },
            Some(c) => c,
        };
        let backup = backup_name(path, stamp);
        proof {
            reveal_strlit(".");
            assert(backup@.len() > path@.len());
        }
        let fresh = to_json(&GameConfig::default());
        self.write_file(backup, content);
        self.write_file(path.clone(), fresh);
        Ok(())
    }
}

} // verus!

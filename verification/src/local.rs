//! The local configuration store: the named setups a project commits
//! alongside its sources.
//!
//! Each setup names a provider descriptor and, optionally, the directory
//! of env files shared through the project. The store is identified by the
//! path of its backing file once it has been persisted.

use vstd::prelude::*;

use crate::errors::Error;

verus! {

// ---------------------------------------------------------------------------
// Views
// ---------------------------------------------------------------------------

/// A provider descriptor, at the specification level.
pub enum ProviderView {
    /// No or unrecognized provider data.
    Unspecified,
    /// A cloudformation deployment, described by its template file.
    Cloudformation { template_path: Seq<char> },
}

/// What one local setup holds, at the specification level.
pub struct SetupView {
    pub name: Seq<char>,
    pub public_env_dir: Option<Seq<char>>,
    pub provider: ProviderView,
}

/// What the local store holds, at the specification level.
pub struct LocalCfgView {
    /// The path of the backing file, `None` before the first save.
    pub file: Option<Seq<char>>,
    pub setups: Seq<SetupView>,
}

/// Whether a setup of this name is present.
pub open spec fn has_setup(setups: Seq<SetupView>, name: Seq<char>) -> bool {
    exists|i: int| 0 <= i < setups.len() && setups[i].name == name
}

/// Index of the first setup of this name.
pub open spec fn find_setup(setups: Seq<SetupView>, name: Seq<char>) -> Option<int>
    decreases setups.len(),
{
    if setups.len() == 0 {
        None
    } else if setups[0].name == name {
        Some(0)
    } else {
        match find_setup(setups.drop_first(), name) {
            Some(i) => Some(i + 1),
            None => None,
        }
    }
}

/// `find_setup` returns the first index bearing the name, and `None`
/// exactly when the name is absent.
pub proof fn lemma_find_setup_props(setups: Seq<SetupView>, name: Seq<char>)
    ensures
        match find_setup(setups, name) {
            Some(i) => 0 <= i < setups.len() && setups[i].name == name && (forall|j: int|
                0 <= j < i ==> setups[j].name != name),
            None => !has_setup(setups, name),
        },
    decreases setups.len(),
{
    if setups.len() > 0 {
        let rest = setups.drop_first();
        lemma_find_setup_props(rest, name);
        if setups[0].name != name {
            assert(forall|i: int| 0 <= i < rest.len() ==> #[trigger] rest[i] == setups[i + 1]);
            match find_setup(rest, name) {
                Some(i) => {
                    assert(setups[i + 1].name == name);
                    assert forall|j: int| 0 <= j < i + 1 implies setups[j].name != name by {
                        if j > 0 {
                            assert(rest[j - 1] == setups[j]);
                        }
                    }
                },
                None => {
                    assert forall|i: int| 0 <= i < setups.len() implies setups[i].name != name by {
                        if i > 0 {
                            assert(rest[i - 1] == setups[i]);
                        }
                    }
                },
            }
        }
    }
}

// ---------------------------------------------------------------------------
// Provider descriptor
// ---------------------------------------------------------------------------

/// The provider a setup deploys through: a closed set of descriptors, with
/// absent or unrecognized data mapped to `Unspecified`.
#[derive(Debug)]
pub enum ProviderCfg {
    Unspecified,
    Cloudformation { template_path: String },
}

impl View for ProviderCfg {
    type V = ProviderView;

    open spec fn view(&self) -> ProviderView {
        match self {
            ProviderCfg::Unspecified => ProviderView::Unspecified,
            ProviderCfg::Cloudformation { template_path } => ProviderView::Cloudformation {
                template_path: template_path@,
            },
        }
    }
}

// ---------------------------------------------------------------------------
// One setup
// ---------------------------------------------------------------------------

/// One named setup of the local store.
#[derive(Debug)]
pub struct LocalSetupCfg {
    name: String,
    public_env_dir: Option<String>,
    provider: ProviderCfg,
}

impl View for LocalSetupCfg {
    type V = SetupView;

    closed spec fn view(&self) -> SetupView {
        SetupView {
            name: self.name@,
            public_env_dir: match self.public_env_dir {
                Some(d) => Some(d@),
                None => None,
            },
            provider: self.provider@,
        }
    }
}

impl LocalSetupCfg {
    /// A setup with no shared env directory yet.
    pub fn new(name: String, provider: ProviderCfg) -> (r: LocalSetupCfg)
        ensures
            r@.name == name@,
            r@.public_env_dir is None,
            r@.provider == provider@,
    {
        LocalSetupCfg { name, public_env_dir: None, provider }
    }

    /// The setup's name.
    pub fn name(&self) -> (r: String)
        ensures
            r@ == self@.name,
    {
        self.name.clone()
    }

    /// The shared env directory, if one is set.
    pub fn env_path_op(&self) -> (r: Option<&String>)
        ensures
            match r {
                Some(d) => self@.public_env_dir == Some(d@),
                None => self@.public_env_dir is None,
            },
    {
        self.public_env_dir.as_ref()
    }

    /// Set or clear the shared env directory.
    pub fn set_env_path_op(&mut self, dir: Option<String>)
        ensures
            final(self)@.public_env_dir == match dir {
                Some(d) => Some(d@),
                None => None::<Seq<char>>,
            },
            final(self)@.name == old(self)@.name,
            final(self)@.provider == old(self)@.provider,
    {
        self.public_env_dir = dir;
    }

    /// The provider descriptor.
    pub fn provider(&self) -> (r: &ProviderCfg)
        ensures
            r@ == self@.provider,
    {
        &self.provider
    }
}

// ---------------------------------------------------------------------------
// The store
// ---------------------------------------------------------------------------

/// The local store: a collection of setups, unique by name, plus the path
/// of its backing file once persisted.
#[derive(Debug)]
pub struct LocalCfg {
    file: Option<String>,
    setups: Vec<LocalSetupCfg>,
}

impl View for LocalCfg {
    type V = LocalCfgView;

    closed spec fn view(&self) -> LocalCfgView {
        LocalCfgView {
            file: match self.file {
                Some(f) => Some(f@),
                None => None,
            },
            setups: Seq::new(self.setups@.len(), |i: int| self.setups@[i]@),
        }
    }
}

impl LocalCfg {
    /// An empty store, not yet persisted.
    pub fn new() -> (r: LocalCfg)
        ensures
            r@.file is None,
            r@.setups == Seq::<SetupView>::empty(),
    {
        let r = LocalCfg { file: None, setups: Vec::new() };
        proof {
            assert(r@.setups =~= Seq::<SetupView>::empty());
        }
        r
    }

    /// Record where the store is persisted.
    pub fn set_file(&mut self, path: &String)
        ensures
            final(self)@.file == Some(path@),
            final(self)@.setups == old(self)@.setups,
    {
        self.file = Some(path.clone());
        proof {
            assert(self@.setups =~= old(self)@.setups);
        }
    }

    /// The path of the backing file; fails with `MissingPath` before the
    /// first save.
    pub fn file(&self) -> (r: Result<&String, Error>)
        ensures
            match self@.file {
                Some(f) => r matches Ok(p) && p@ == f,
                None => r matches Err(e) && e is MissingPath,
            },
    {
        match &self.file {
            Some(f) => Ok(f),
            None => Err(Error::MissingPath),
        }
    }

    /// Add a setup; fails with `AlreadyExists` when one of the same name
    /// is present, leaving the store unchanged.
    pub fn add_setup(&mut self, setup: LocalSetupCfg) -> (r: Result<(), Error>)
        ensures
            final(self)@.file == old(self)@.file,
            if has_setup(old(self)@.setups, setup@.name) {
                &&& r matches Err(e) && e matches Error::AlreadyExists { name } && name@
                    == setup@.name
                &&& final(self)@.setups == old(self)@.setups
            } else {
                &&& r is Ok
                &&& final(self)@.setups == old(self)@.setups.push(setup@)
            },
    {
        proof {
            lemma_find_setup_props(self@.setups, setup@.name);
        }
        match self.get_setup(setup.name.as_str()) {
            Some(_) => Err(Error::AlreadyExists { name: setup.name.clone() }),
            None => {
                self.setups.push(setup);
                proof {
                    assert(self@.setups =~= old(self)@.setups.push(setup@));
                }
                Ok(())
            },
        }
    }

    /// Index of the setup bearing this name, if present.
    pub fn get_setup(&self, name: &str) -> (r: Option<usize>)
        ensures
            match find_setup(self@.setups, name@) {
                Some(i) => r matches Some(u) && u as int == i,
                None => r is None,
            },
    {
        let ghost ss = self@.setups;
        proof {
            lemma_find_setup_props(ss, name@);
        }
        let key = String::from_str(name);
        let n = self.setups.len();
        let mut i: usize = 0;
        while i < n
            invariant
                0 <= i <= n,
                n == self.setups@.len(),
                ss == self@.setups,
                key@ == name@,
                forall|j: int| 0 <= j < i ==> ss[j].name != name@,
            decreases n - i,
        {
            proof {
                assert(self.setups@[i as int]@ == ss[i as int]);
            }
            if self.setups[i].name == key {
                proof {
                    lemma_find_setup_props(ss, name@);
                }
                return Some(i);
            }
            i = i + 1;
        }
        None
    }

    /// The setup at a known index.
    pub fn setup_at(&self, i: usize) -> (r: &LocalSetupCfg)
        requires
            i < self@.setups.len(),
        ensures
            r@ == self@.setups[i as int],
    {
        proof {
            assert(self.setups@[i as int]@ == self@.setups[i as int]);
        }
        &self.setups[i]
    }

    /// How many setups the store holds.
    pub fn setups_len(&self) -> (r: usize)
        ensures
            r == self@.setups.len(),
    {
        self.setups.len()
    }

    /// Set or clear the shared env directory of the setup at `i`.
    pub fn set_setup_env_dir(&mut self, i: usize, dir: Option<String>)
        requires
            i < old(self)@.setups.len(),
        ensures
            final(self)@.file == old(self)@.file,
            final(self)@.setups == old(self)@.setups.update(
                i as int,
                SetupView {
                    name: old(self)@.setups[i as int].name,
                    public_env_dir: match dir {
                        Some(d) => Some(d@),
                        None => None::<Seq<char>>,
                    },
                    provider: old(self)@.setups[i as int].provider,
                },
            ),
    {
        proof {
            assert(self.setups@[i as int]@ == self@.setups[i as int]);
        }
        self.setups[i].set_env_path_op(dir);
        proof {
            assert(self@.setups =~= old(self)@.setups.update(
                i as int,
                SetupView {
                    name: old(self)@.setups[i as int].name,
                    public_env_dir: match dir {
                        Some(d) => Some(d@),
                        None => None::<Seq<char>>,
                    },
                    provider: old(self)@.setups[i as int].provider,
                },
            ));
        }
    }

    /// Remove the first setup bearing this name; a no-op when absent.
    pub fn remove_by_name_setup(&mut self, name: &str)
        ensures
            final(self)@.file == old(self)@.file,
            match find_setup(old(self)@.setups, name@) {
                Some(i) => final(self)@.setups == old(self)@.setups.remove(i),
                None => final(self)@.setups == old(self)@.setups,
            },
    {
        proof {
            lemma_find_setup_props(self@.setups, name@);
        }
        match self.get_setup(name) {
            Some(i) => {
                self.setups.remove(i);
                proof {
                    assert(self@.setups =~= old(self)@.setups.remove(i as int));
                }
            },
            None => {
                proof {
                    assert(self@.setups =~= old(self)@.setups);
                }
            },
        }
    }

    /// One path per setup: its shared env directory where set, else the
    /// empty (current) directory.
    pub fn env_paths(&self) -> (r: Vec<String>)
        ensures
            r@.len() == self@.setups.len(),
            forall|i: int| 0 <= i < r@.len() ==> #[trigger] r@[i]@ == match self@.setups[
                i
            ].public_env_dir {
                Some(d) => d,
                None => Seq::<char>::empty(),
            },
    {
        let ghost ss = self@.setups;
        let mut out: Vec<String> = Vec::new();
        let n = self.setups.len();
        let mut i: usize = 0;
        while i < n
            invariant
                0 <= i <= n,
                n == self.setups@.len(),
                ss == self@.setups,
                out@.len() == i,
                forall|j: int| 0 <= j < i ==> #[trigger] out@[j]@ == match ss[j].public_env_dir {
                    Some(d) => d,
                    None => Seq::<char>::empty(),
                },
            decreases n - i,
        {
            proof {
                assert(self.setups@[i as int]@ == ss[i as int]);
            }
            match self.setups[i].env_path_op() {
                Some(d) => out.push(d.clone()),
                None => out.push(String::new()),
            }
            i = i + 1;
        }
        out
    }
}

} // verus!

//! The per-invocation settings a command starts from: which setup and
//! which env the caller named, if any. Argument parsing itself stays with
//! the caller; this type only carries what was chosen.

use vstd::prelude::*;

verus! {

/// What the settings hold, at the specification level.
pub struct SettingsView {
    pub setup: Option<Seq<char>>,
    pub env: Option<Seq<char>>,
}

/// The setup and env named on this invocation, if any.
#[derive(Debug)]
pub struct Settings {
    setup: Option<String>,
    env: Option<String>,
}

impl View for Settings {
    type V = SettingsView;

    closed spec fn view(&self) -> SettingsView {
        SettingsView {
            setup: match self.setup {
                Some(s) => Some(s@),
                None => None,
            },
            env: match self.env {
                Some(e) => Some(e@),
                None => None,
            },
        }
    }
}

impl Settings {
    /// Settings with nothing named.
    pub fn new() -> (r: Settings)
        ensures
            r@.setup is None,
            r@.env is None,
    {
        Settings { setup: None, env: None }
    }

    /// Name the setup.
    pub fn set_setup(&mut self, setup: String)
        ensures
            final(self)@.setup == Some(setup@),
            final(self)@.env == old(self)@.env,
    {
        self.setup = Some(setup);
    }

    /// Name the env.
    pub fn set_env(&mut self, env: String)
        ensures
            final(self)@.env == Some(env@),
            final(self)@.setup == old(self)@.setup,
    {
        self.env = Some(env);
    }

    /// The setup named on this invocation, if any.
    pub fn setup(&self) -> (r: Option<&String>)
        ensures
            match r {
                Some(s) => self@.setup == Some(s@),
                None => self@.setup is None,
            },
    {
        self.setup.as_ref()
    }

    /// The env named on this invocation, if any.
    pub fn env(&self) -> (r: Option<&String>)
        ensures
            match r {
                Some(e) => self@.env == Some(e@),
                None => self@.env is None,
            },
    {
        self.env.as_ref()
    }
}

} // verus!

//! The configuration's shape: what the file can state, as the settings
//! window sees it.
//!
//! An omitted entry means the default, and an omitted section means all
//! of its entries are: every entry is an `Option`, absent reads as `None`,
//! and `None` is written as absence, so a section holding nothing leaves
//! no empty `[table]` header behind.
//!
//! Wire shape as much as file shape: [`Config`] crosses the IPC barrier
//! to the settings window and back. The file itself — its path, its
//! format, the startup that converges on it — belongs to the backend that
//! keeps it.

use vstd::prelude::*;

verus! {

/// Everything the file can state. A section missing from the file is a
/// section of `None`s; a key the file states that is not named here is
/// a parse error, so a file in some other shape is reported rather than
/// quietly read as empty.
#[derive(Clone, Debug, Eq, PartialEq)]
pub struct Config {
    pub model: Model,
    pub github: GitHub,
}

/// `[model]`: which models the chat window and the build Agents speak to.
#[derive(Clone, Debug, Eq, PartialEq)]
pub struct Model {
    /// The chat window's model; `None` is the default that the host pins.
    pub chat: Option<String>,
    /// The build Agent's model; `None` lets the agent CLI pick its own.
    pub agent: Option<String>,
}

/// `[github]`: where a bare repository name is looked for.
#[derive(Clone, Debug, Eq, PartialEq)]
pub struct GitHub {
    /// The owner a bare repository name settles against; `None` refuses
    /// bare names.
    pub owner: Option<String>,
}

impl Default for Model {
    /// A section that states nothing.
    fn default() -> (r: Self)
        ensures
            r.chat is None,
            r.agent is None,
    {
        Model { chat: None, agent: None }
    }
}

impl Default for GitHub {
    /// A section that states nothing.
    fn default() -> (r: Self)
        ensures
            r.owner is None,
    {
        GitHub { owner: None }
    }
}

impl Default for Config {
    /// A file that states nothing.
    fn default() -> (r: Self)
        ensures
            r.model.chat is None,
            r.model.agent is None,
            r.github.owner is None,
    {
        Config { model: Model::default(), github: GitHub::default() }
    }
}

impl Model {
    /// Whether the section states nothing, and so is left out.
    pub fn is_default(&self) -> (r: bool)
        ensures
            r == (self.chat is None && self.agent is None),
    {
        self.chat.is_none() && self.agent.is_none()
    }
}

impl GitHub {
    /// Whether the section states nothing, and so is left out.
    pub fn is_default(&self) -> (r: bool)
        ensures
            r == (self.owner is None),
    {
        self.owner.is_none()
    }
}

} // verus!

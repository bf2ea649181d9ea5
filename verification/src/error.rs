//! Why a run stops.

use vstd::prelude::*;
use vstd::string::*;

verus! {

/// A failure that ends the run.
#[derive(Debug)]
pub enum ManagerError {
    /// The template engine refused the template or could not render it.
    Template(minijinja::Error),
    /// No template file at this path.
    TemplateNotFound(String),
    /// The installed file of this unit was changed by someone else since it
    /// was last applied, and overriding was not asked for.
    StateOutOfSync(String),
    /// The service manager did not reload its configuration.
    ReloadFailed,
    /// The service manager did not restart this unit.
    RestartFailed(String),
}

/// What a [`ManagerError`] says, without the template engine's own diagnostic.
pub enum Failure {
    Template,
    TemplateNotFound(Seq<char>),
    StateOutOfSync(Seq<char>),
    ReloadFailed,
    RestartFailed(Seq<char>),
}

impl View for ManagerError {
    type V = Failure;

    open spec fn view(&self) -> Failure {
        match self {
            ManagerError::Template(_) => Failure::Template,
            ManagerError::TemplateNotFound(path) => Failure::TemplateNotFound(path@),
            ManagerError::StateOutOfSync(unit) => Failure::StateOutOfSync(unit@),
            ManagerError::ReloadFailed => Failure::ReloadFailed,
            ManagerError::RestartFailed(unit) => Failure::RestartFailed(unit@),
        }
    }
}

/// The text that describes `failure`, given the template engine's diagnostic
/// for a template failure.
pub open spec fn message_of(failure: Failure, diagnostic: Seq<char>) -> Seq<char> {
    match failure {
        Failure::Template => "Template error: "@ + diagnostic,
        Failure::TemplateNotFound(path) => "Template not found: "@ + path,
        Failure::StateOutOfSync(unit) => "Service "@ + unit
            + " has been modified outside of this tool"@,
        Failure::ReloadFailed => "Service manager reload failed"@,
        Failure::RestartFailed(unit) => "Restart of service "@ + unit + " failed"@,
    }
}

impl ManagerError {
    /// One line for the operator that names the unit, template or path at fault.
    pub fn message(&self) -> (text: String)
        ensures
            exists|diagnostic: Seq<char>| text@ == message_of(self@, diagnostic),
            !(self@ is Template) ==> text@ == message_of(self@, Seq::empty()),
    {
        match self {
            ManagerError::Template(error) => {
                let diagnostic = error.to_string();
                let mut text = String::from_str("Template error: ");
                text.append(diagnostic.as_str());
                assert(text@ == message_of(self@, diagnostic@));
                text
            },
            ManagerError::TemplateNotFound(path) => {
                let mut text = String::from_str("Template not found: ");
                text.append(path.as_str());
                assert(text@ == message_of(self@, Seq::empty()));
                text
            },
            ManagerError::StateOutOfSync(unit) => {
                let mut text = String::from_str("Service ");
                text.append(unit.as_str());
                text.append(" has been modified outside of this tool");
                assert(text@ == message_of(self@, Seq::empty()));
                text
            },
            ManagerError::ReloadFailed => {
                let text = String::from_str("Service manager reload failed");
                assert(text@ == message_of(self@, Seq::empty()));
                text
            },
            ManagerError::RestartFailed(unit) => {
                let mut text = String::from_str("Restart of service ");
                text.append(unit.as_str());
                text.append(" failed");
                assert(text@ == message_of(self@, Seq::empty()));
                text
            },
        }
    }
}

} // verus!

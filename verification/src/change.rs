//! Declarations, what was found on disk for them, and the change that would
//! bring a unit in line with its declaration.

use crate::error::{Failure, ManagerError};
use crate::fingerprint::sha256_hex;
use crate::render::{render_result, render_template};
use crate::state::{matches_stored, StateFile};
use crate::string_map::StringMap;
use crate::text::content_of;
use vstd::prelude::*;
use vstd::string::*;

verus! {

/// One declared service: the unit to manage, the template of its unit file
/// and the values of the template's variables.
#[derive(Debug)]
pub struct ServiceConfig {
    pub template: String,
    pub unit: String,
    pub variables: StringMap,
}

/// A declaration together with what the filesystem held for it when it was
/// looked at.
#[derive(Debug)]
pub struct ServiceSnapshot {
    pub config: ServiceConfig,
    /// Where the template was looked for: the template directory joined with
    /// the template's name.
    pub template_path: String,
    /// The content of the template file; `None` where there is no such file.
    pub template_source: Option<String>,
    /// The content of the installed unit file; `None` where the unit is not
    /// installed.
    pub live_content: Option<String>,
}

/// What analysing one declaration gives: the content to install, the content
/// that it would replace, and whether that content drifted.
#[derive(Debug)]
pub struct ServiceChange {
    pub unit: String,
    /// The installed content; `None` where the unit does not exist yet.
    pub old_content: Option<String>,
    /// The rendered content.
    pub new_content: String,
    /// Whether the installed content was changed by someone else since the
    /// unit was last applied.
    pub state_modified: bool,
}

/// A [`ServiceChange`] by the characters of its texts.
pub struct ChangeView {
    pub unit: Seq<char>,
    pub old_content: Option<Seq<char>>,
    pub new_content: Seq<char>,
    pub state_modified: bool,
}

impl View for ServiceChange {
    type V = ChangeView;

    open spec fn view(&self) -> ChangeView {
        ChangeView {
            unit: self.unit@,
            old_content: content_of(self.old_content),
            new_content: self.new_content@,
            state_modified: self.state_modified,
        }
    }
}

/// Whether the installed content `live` of `unit` drifted: there is such
/// content, a fingerprint is stored for the unit, and it is not the
/// fingerprint of that content.
pub open spec fn drifted(
    state: Map<Seq<char>, Seq<char>>,
    unit: Seq<char>,
    live: Option<Seq<char>>,
) -> bool {
    match live {
        Some(content) => !matches_stored(state, unit, content),
        None => false,
    }
}

/// Whether installing `change` would alter anything: the unit does not exist
/// yet, or its content is not, character for character, the rendered one.
pub open spec fn needs_update(change: ChangeView) -> bool {
    change.old_content != Some(change.new_content)
}

/// The content that `snapshot` declares, or why there is none.
pub open spec fn desired_content(snapshot: ServiceSnapshot) -> Result<Seq<char>, Failure> {
    render_result(
        snapshot.template_path@,
        content_of(snapshot.template_source),
        snapshot.config.variables@,
    )
}

/// The change that `snapshot` calls for, given what `state` remembers.
pub open spec fn analysis(snapshot: ServiceSnapshot, state: Map<Seq<char>, Seq<char>>) -> Result<
    ChangeView,
    Failure,
> {
    match desired_content(snapshot) {
        Err(failure) => Err(failure),
        Ok(text) => Ok(
            ChangeView {
                unit: snapshot.config.unit@,
                old_content: content_of(snapshot.live_content),
                new_content: text,
                state_modified: drifted(
                    state,
                    snapshot.config.unit@,
                    content_of(snapshot.live_content),
                ),
            },
        ),
    }
}

impl ServiceChange {
    /// Whether installing the change would alter anything.
    pub fn needs_update(&self) -> (needed: bool)
        ensures
            needed == needs_update(self@),
    {
        match &self.old_content {
            Some(old_content) => !(*old_content == self.new_content),
            None => true,
        }
    }
}

/// Analyses one declaration: renders the content it declares and compares
/// what is installed with what was last applied.
///
/// Whether the change is needed is not decided here.
pub fn preview_changes(snapshot: &ServiceSnapshot, state: &StateFile) -> (outcome: Result<
    ServiceChange,
    ManagerError,
>)
    ensures
        match outcome {
            Ok(change) => analysis(*snapshot, state@) == Ok::<ChangeView, Failure>(change@),
            Err(error) => analysis(*snapshot, state@) == Err::<ChangeView, Failure>(error@),
        },
{
    let template_source = match &snapshot.template_source {
        Some(source) => Some(source.as_str()),
        None => None,
    };
    let new_content = match render_template(
        snapshot.template_path.as_str(),
        template_source,
        &snapshot.config.variables,
    ) {
        Ok(text) => text,
        Err(error) => {
            return Err(error);
        },
    };
    let unit = snapshot.config.unit.clone();
    match &snapshot.live_content {
        Some(content) => {
            let valid = state.validate_service(unit.as_str(), content.as_str());
            Ok(
                ServiceChange {
                    unit,
                    old_content: Some(content.clone()),
                    new_content,
                    state_modified: !valid,
                },
            )
        },
        None => Ok(ServiceChange { unit, old_content: None, new_content, state_modified: false }),
    }
}

/// The drift flag of an analysis is set only where content was installed, a
/// fingerprint was stored for the unit, and the two do not agree.
pub proof fn lemma_drift_needs_stored_fingerprint(
    snapshot: ServiceSnapshot,
    state: Map<Seq<char>, Seq<char>>,
)
    requires
        analysis(snapshot, state) is Ok,
    ensures
        analysis(snapshot, state)->Ok_0.state_modified <==> {
            &&& snapshot.live_content is Some
            &&& state.contains_key(snapshot.config.unit@)
            &&& state[snapshot.config.unit@] != sha256_hex(snapshot.live_content->Some_0@)
        },
{
}

/// A unit that is not installed is never reported as drifted, whatever the
/// state holds, and its change has no previous content.
pub proof fn lemma_missing_unit_has_no_drift(
    snapshot: ServiceSnapshot,
    state: Map<Seq<char>, Seq<char>>,
)
    requires
        snapshot.live_content is None,
        analysis(snapshot, state) is Ok,
    ensures
        analysis(snapshot, state)->Ok_0.old_content is None,
        !analysis(snapshot, state)->Ok_0.state_modified,
        needs_update(analysis(snapshot, state)->Ok_0),
{
}

} // verus!

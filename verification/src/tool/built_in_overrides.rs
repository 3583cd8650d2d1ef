//! What the operator says about the service's own tools: which of them are in circulation, and how what they cover is
//! described.

use vstd::prelude::*;

use crate::text::same;
use crate::tool::entity::{Status, Tool, ToolView};
use crate::tool::service::is_listed;
use crate::tool::system_tools::{SystemTool, SystemToolView};

verus! {

/// What the operator may say about one tool. Whatever is left out keeps what the service declares.
#[derive(Debug, PartialEq, Eq)]
pub struct Override {
    pub name: Option<String>,
    /// What the source covers, written for the decision that routes a question to it or to nothing.
    pub description: Option<String>,
    /// `false` takes the tool out of circulation.
    pub enabled: Option<bool>,
}

pub struct OverrideView {
    pub name: Option<Seq<char>>,
    pub description: Option<Seq<char>>,
    pub enabled: Option<bool>,
}

impl DeepView for Override {
    type V = OverrideView;

    open spec fn deep_view(&self) -> OverrideView {
        OverrideView {
            name: self.name.deep_view(),
            description: self.description.deep_view(),
            enabled: self.enabled,
        }
    }
}

/// Every override by slug, of a file that was read. A file that is missing or does not read as overrides yields none
/// at all: the service's own declarations then stand.
pub fn load(read: Result<Vec<(String, Override)>, String>) -> (overrides: Vec<(String, Override)>)
    ensures
        (match read {
            Ok(read) => overrides == read,
            Err(_) => overrides@.len() == 0,
        }),
{
    match read {
        Ok(overrides) => overrides,
        Err(_) => Vec::new(),
    }
}

/// What the operator said about the tool of a slug.
pub open spec fn said_of(overrides: Seq<(Seq<char>, OverrideView)>, slug: Seq<char>) -> Option<OverrideView>
    decreases overrides.len(),
{
    if overrides.len() == 0 {
        None
    } else if overrides[0].0 == slug {
        Some(overrides[0].1)
    } else {
        said_of(overrides.drop_first(), slug)
    }
}

/// A tool as it is declared once the operator has had their say, and none where they took it out of circulation.
pub open spec fn overridden(definition: SystemToolView, said: Option<OverrideView>) -> Option<SystemToolView> {
    match said {
        None => Some(definition),
        Some(said) => if said.enabled == Some(false) {
            None
        } else {
            Some(
                SystemToolView {
                    name: match said.name {
                        Some(name) => name,
                        None => definition.name,
                    },
                    description: match said.description {
                        Some(description) => description,
                        None => definition.description,
                    },
                    ..definition
                },
            )
        },
    }
}

/// The declaration of a tool with what the operator said of it.
pub fn apply(definition: SystemTool, overrides: &Vec<(String, Override)>) -> (declared: Option<SystemTool>)
    ensures
        declared.deep_view() == overridden(
            definition.deep_view(),
            said_of(overrides.deep_view(), definition.slug@),
        ),
{
    let ghost views = overrides.deep_view();
    assert(views.skip(0) =~= views);
    for i in 0..overrides.len()
        invariant
            views == overrides.deep_view(),
            said_of(views.skip(i as int), definition.slug@) == said_of(views, definition.slug@),
    {
        assert(views.skip(i as int).drop_first() =~= views.skip(i as int + 1));
        assert(views[i as int] == (overrides@[i as int].0@, overrides@[i as int].1.deep_view()));
        if same(overrides[i].0.as_str(), definition.slug.as_str()) {
            let said: &Override = &overrides[i].1;
            if let Some(enabled) = said.enabled {
                if !enabled {
                    return None;
                }
            }
            let name: String = match &said.name {
                Some(name) => name.clone(),
                None => definition.name.clone(),
            };
            let description: String = match &said.description {
                Some(description) => description.clone(),
                None => definition.description.clone(),
            };
            return Some(SystemTool { name, description, ..definition });
        }
    }
    Some(definition)
}

/// The row of a tool that is out of circulation: no catalog shows it.
pub open spec fn withdrawn(row: ToolView) -> ToolView {
    ToolView { status: Status::Draft, ..row }
}

pub fn withdraw(row: Tool) -> (tool: Tool)
    ensures
        tool.deep_view() == withdrawn(row.deep_view()),
{
    Tool { status: Status::Draft, ..row }
}

/// An entry changes only what it states, and never what a tool is called by, what it may do or what it takes.
pub proof fn law_an_entry_changes_only_what_it_states(definition: SystemToolView, said: OverrideView)
    requires
        said.enabled != Some(false),
    ensures
        ({
            let declared = overridden(definition, Some(said))->Some_0;
            &&& overridden(definition, Some(said)) is Some
            &&& said.name is None ==> declared.name == definition.name
            &&& said.description is None ==> declared.description == definition.description
            &&& declared.slug == definition.slug
            &&& declared.risk == definition.risk
            &&& declared.input_schema == definition.input_schema
        }),
{
}

/// A tool that was taken out of circulation is not declared, and its row is in nobody's catalog.
pub proof fn law_a_withdrawn_tool_is_in_no_catalog(
    definition: SystemToolView,
    said: OverrideView,
    row: ToolView,
    viewer: Option<u128>,
)
    ensures
        overridden(definition, Some(said)) is None <==> said.enabled == Some(false),
        !is_listed(viewer, withdrawn(row)),
{
}

/// What the operator said about a tool is what the first entry under its own slug says.
pub proof fn law_an_entry_is_found_by_its_slug(overrides: Seq<(Seq<char>, OverrideView)>, slug: Seq<char>)
    ensures
        said_of(overrides, slug) is None <==> forall|i: int|
            0 <= i < overrides.len() ==> (#[trigger] overrides[i]).0 != slug,
        said_of(overrides, slug) matches Some(said) ==> exists|i: int|
            0 <= i < overrides.len() && #[trigger] overrides[i] == (slug, said) && forall|k: int|
                0 <= k < i ==> (#[trigger] overrides[k]).0 != slug,
    decreases overrides.len(),
{
    if overrides.len() > 0 {
        let rest = overrides.drop_first();
        law_an_entry_is_found_by_its_slug(rest, slug);
        assert(forall|i: int| 0 <= i < rest.len() ==> #[trigger] rest[i] == overrides[i + 1]);
        if overrides[0].0 != slug {
            if let Some(said) = said_of(rest, slug) {
                let i = choose|i: int|
                    0 <= i < rest.len() && #[trigger] rest[i] == (slug, said) && forall|k: int|
                        0 <= k < i ==> (#[trigger] rest[k]).0 != slug;
                assert(overrides[i + 1] == (slug, said));
                assert forall|k: int| 0 <= k < i + 1 implies (#[trigger] overrides[k]).0 != slug by {
                    if k > 0 {
                        assert(overrides[k] == rest[k - 1]);
                    }
                }
            } else {
                assert forall|k: int| 0 <= k < overrides.len() implies (#[trigger] overrides[k]).0 != slug by {
                    if k > 0 {
                        assert(overrides[k] == rest[k - 1]);
                    }
                }
            }
        } else {
            assert(overrides[0] == (slug, overrides[0].1));
        }
    }
}

/// What an entry states stands in the declaration, each part in its own field, and a tool that no entry speaks of is
/// declared as it was.
pub proof fn law_what_an_entry_states_stands(definition: SystemToolView, said: OverrideView)
    ensures
        overridden(definition, None) == Some(definition),
        said.enabled != Some(false) ==> (overridden(definition, Some(said)) matches Some(declared) && (
        said.name matches Some(name) ==> declared.name == name) && (said.description matches Some(text)
            ==> declared.description == text)),
        said.enabled == Some(false) ==> overridden(definition, Some(said)) is None,
{
}

/// A row that is taken out of circulation is a draft, and otherwise stays as it was.
pub proof fn law_a_withdrawn_row_is_a_draft(row: ToolView)
    ensures
        withdrawn(row).status == Status::Draft,
        withdrawn(row).id == row.id,
        withdrawn(row).user_id == row.user_id,
        withdrawn(row).slug == row.slug,
        withdrawn(row).name == row.name,
        withdrawn(row).description == row.description,
        withdrawn(row).input_schema == row.input_schema,
        withdrawn(row).risk == row.risk,
        withdrawn(row).sources == row.sources,
{
}

/// The view of a statement of the operator shows each of its parts under that part's own name.
pub proof fn law_the_view_of_a_override_entry_is_its_own(said: Override)
    ensures
        said.deep_view().name == said.name.deep_view(),
        said.deep_view().description == said.description.deep_view(),
        said.deep_view().enabled == said.enabled,
{
}

} // verus!

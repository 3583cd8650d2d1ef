//! The tools that the operator declares in a file. The file is checked whole before anything of it is loaded: one bad
//! row refuses all of it.

use vstd::prelude::*;

use crate::collect::{keep, outcome};
use crate::json::{Json, JsonView};
use crate::text::{cat2, cat3, quote, quoted, same};
use crate::tool::entity::{Risk, Status, Tool, ToolView};
use crate::tool::error::{ToolError, ToolErrorView};
use crate::tool::service::{definition_fault, NewTool, NewToolView};
use crate::tool::slugs::{is_reserved, reserved};
use crate::tool::system_tools::{any_object, any_object_schema};
use crate::tool::tools::declarative::{parse_sources, sources_of, SourceSet, SourceSetView};

verus! {

/// A tool as the operator declares it.
#[derive(Debug, PartialEq, Eq)]
pub struct DeclarativeRow {
    pub slug: String,
    pub name: String,
    /// What the model reads to decide whether this tool answers the question in front of it.
    pub description: String,
    pub timeout_seconds: i32,
    pub input_schema: Json,
    pub sources: Json,
}

#[verifier::ext_equal]
pub struct DeclarativeRowView {
    pub slug: Seq<char>,
    pub name: Seq<char>,
    pub description: Seq<char>,
    pub timeout_seconds: i32,
    pub input_schema: JsonView,
    pub sources: JsonView,
}

impl DeepView for DeclarativeRow {
    type V = DeclarativeRowView;

    open spec fn deep_view(&self) -> DeclarativeRowView {
        DeclarativeRowView {
            slug: self.slug@,
            name: self.name@,
            description: self.description@,
            timeout_seconds: self.timeout_seconds,
            input_schema: self.input_schema.deep_view(),
            sources: self.sources.deep_view(),
        }
    }
}

/// A row with what was read of its sources.
pub type Declared = (DeclarativeRow, Result<SourceSet, String>);

pub type DeclaredView = (DeclarativeRowView, Result<SourceSetView, Seq<char>>);

pub open spec fn declared_view(declared: Declared) -> DeclaredView {
    (declared.0.deep_view(), outcome(declared.1))
}

pub open spec fn declared_views(rows: Seq<Declared>) -> Seq<DeclaredView> {
    rows.map_values(|row: Declared| declared_view(row))
}

/// A slug stands in a row before this one.
pub open spec fn seen_before(rows: Seq<DeclaredView>, i: int, slug: Seq<char>) -> bool {
    exists|k: int| 0 <= k < i && (#[trigger] rows[k]).0.slug == slug
}

/// What is wrong with a row.
pub open spec fn row_fault(rows: Seq<DeclaredView>, i: int) -> Option<Seq<char>> {
    let row = rows[i].0;
    if is_reserved(row.slug) {
        Some(quoted(row.slug) + " is a reserved system slug"@)
    } else if seen_before(rows, i, row.slug) {
        Some(quoted(row.slug) + " appears twice"@)
    } else {
        match sources_of(rows[i].1, row.input_schema) {
            Ok(_) => None,
            Err(error) => Some(row.slug + ": "@ + error),
        }
    }
}

/// What is wrong with the rows from a place on: the first fault.
pub open spec fn rows_fault(rows: Seq<DeclaredView>, from: int) -> Option<Seq<char>>
    decreases rows.len() - from,
{
    if from < 0 || from >= rows.len() {
        None
    } else {
        match row_fault(rows, from) {
            Some(fault) => Some(fault),
            None => rows_fault(rows, from + 1),
        }
    }
}

/// The rows of a file, or the first thing that is wrong with it.
pub open spec fn rows_of(read: Result<Seq<DeclaredView>, Seq<char>>) -> Result<Seq<DeclarativeRowView>, Seq<char>> {
    match read {
        Err(error) => Err("could not be read as JSON: "@ + error),
        Ok(rows) => match rows_fault(rows, 0) {
            Some(fault) => Err(fault),
            None => Ok(rows.map_values(|row: DeclaredView| row.0)),
        },
    }
}

pub open spec fn read_view(read: Result<Vec<Declared>, String>) -> Result<Seq<DeclaredView>, Seq<char>> {
    match read {
        Ok(rows) => Ok(declared_views(rows@)),
        Err(error) => Err(error@),
    }
}

/// Checks a whole file, read already, before anything of it is loaded.
pub fn read_rows(read: Result<Vec<Declared>, String>) -> (rows: Result<Vec<DeclarativeRow>, String>)
    ensures
        outcome(rows) == rows_of(read_view(read)),
{
    let mut left: Vec<Declared> = match read {
        Ok(rows) => rows,
        Err(error) => {
            return Err(cat2("could not be read as JSON: ", error.as_str()));
        },
    };
    let ghost views = declared_views(left@);
    let ghost all = left@;
    let total: usize = left.len();
    let mut rows: Vec<DeclarativeRow> = Vec::new();
    let mut i: usize = 0;
    assert(rows.deep_view() =~= views.take(0).map_values(|row: DeclaredView| row.0));
    assert(all.skip(0) =~= all);
    while left.len() > 0
        invariant
            i + left@.len() == total,
            total == all.len(),
            views == declared_views(all),
            left@ == all.skip(i as int),
            rows@.len() == i,
            rows.deep_view() == views.take(i as int).map_values(|row: DeclaredView| row.0),
            rows_fault(views, 0) == rows_fault(views, i as int),
            read_view(read) == Ok::<Seq<DeclaredView>, Seq<char>>(views),
        decreases left@.len(),
    {
        let (row, sources) = left.remove(0);
        assert(all.skip(i as int)[0] == all[i as int]);
        assert(left@ =~= all.skip(i as int + 1));
        assert(views[i as int] == (row.deep_view(), outcome(sources)));
        if reserved(row.slug.as_str()) {
            return Err(cat2(quote(row.slug.as_str()).as_str(), " is a reserved system slug"));
        }
        for k in 0..rows.len()
            invariant
                i == rows@.len(),
                i < views.len(),
                views[i as int].0 == row.deep_view(),
                rows.deep_view() == views.take(i as int).map_values(|row: DeclaredView| row.0),
                !is_reserved(row.slug@),
                rows_fault(views, 0) == rows_fault(views, i as int),
                read_view(read) == Ok::<Seq<DeclaredView>, Seq<char>>(views),
                forall|j: int| 0 <= j < k ==> (#[trigger] views[j]).0.slug != row.slug@,
        {
            assert(rows.deep_view()[k as int] == rows@[k as int].deep_view());
            assert(rows.deep_view()[k as int] == views[k as int].0);
            if same(rows[k].slug.as_str(), row.slug.as_str()) {
                assert(seen_before(views, i as int, row.slug@));
                return Err(cat2(quote(row.slug.as_str()).as_str(), " appears twice"));
            }
        }
        assert(!seen_before(views, i as int, row.slug@));
        match parse_sources(sources, &row.input_schema) {
            Ok(_) => {},
            Err(error) => {
                return Err(cat3(row.slug.as_str(), ": ", error.as_str()));
            },
        }
        assert(row_fault(views, i as int) is None);
        keep(&mut rows, row);
        assert(rows.deep_view() =~= views.take(i as int + 1).map_values(|row: DeclaredView| row.0));
        i += 1;
    }
    assert(views.take(i as int) =~= views);
    Ok(rows)
}

/// What a row registers: the operator decides neither the risk nor what it returns.
pub open spec fn registered(row: DeclarativeRowView) -> NewToolView {
    NewToolView {
        slug: row.slug,
        name: row.name,
        description: row.description,
        input_schema: row.input_schema,
        output_schema: any_object(),
        risk: Risk::ReadOnly,
        timeout_seconds: row.timeout_seconds,
    }
}

/// The tool to register for a row that is not in the registry yet.
pub fn declarative_new_tool(row: &DeclarativeRow) -> (tool: Result<NewTool, ToolError>)
    ensures
        (match tool {
            Ok(tool) => definition_fault(registered(row.deep_view())) is None && tool.deep_view() == registered(
                row.deep_view(),
            ),
            Err(error) => definition_fault(registered(row.deep_view())) matches Some(reason)
                && error.deep_view() == ToolErrorView::InvalidRequest(reason),
        }),
{
    NewTool::checked(
        row.slug.clone(),
        row.name.clone(),
        row.description.clone(),
        row.input_schema.copy(),
        any_object_schema(),
        Risk::ReadOnly,
        row.timeout_seconds,
    )
}

/// A stored tool brought up to its row and put into circulation.
pub open spec fn updated(stored: ToolView, row: DeclarativeRowView) -> ToolView {
    ToolView {
        name: row.name,
        description: row.description,
        input_schema: row.input_schema,
        sources: Some(row.sources),
        timeout_seconds: row.timeout_seconds,
        risk: Risk::ReadOnly,
        status: Status::Active,
        ..stored
    }
}

/// Brings a stored tool up to its row.
pub fn update_declarative_tool(stored: Tool, row: &DeclarativeRow) -> (tool: Tool)
    ensures
        tool.deep_view() == updated(stored.deep_view(), row.deep_view()),
{
    Tool {
        name: row.name.clone(),
        description: row.description.clone(),
        input_schema: row.input_schema.copy(),
        sources: Some(row.sources.copy()),
        timeout_seconds: row.timeout_seconds,
        risk: Risk::ReadOnly,
        status: Status::Active,
        ..stored
    }
}

/// A loaded row is an active tool that only reads, whoever wrote the file and whatever the stored tool was before; and
/// loading it again changes nothing more.
pub proof fn law_a_loaded_row_is_read_only_and_active(stored: ToolView, row: DeclarativeRowView)
    ensures
        updated(stored, row).risk == Risk::ReadOnly,
        updated(stored, row).status == Status::Active,
        updated(stored, row).user_id == stored.user_id,
        updated(stored, row).id == stored.id,
        updated(stored, row).slug == stored.slug,
        updated(stored, row).sources == Some(row.sources),
        updated(updated(stored, row), row) == updated(stored, row),
{
}

proof fn lemma_no_fault(rows: Seq<DeclaredView>, from: int, i: int)
    requires
        0 <= from <= i < rows.len(),
        rows_fault(rows, from) is None,
    ensures
        row_fault(rows, i) is None,
    decreases i - from,
{
    if from < i {
        lemma_no_fault(rows, from + 1, i);
    }
}

/// One bad row refuses the whole file: a file is loaded exactly where every row of it is sound, and then in full.
pub proof fn law_one_bad_row_refuses_the_file(rows: Seq<DeclaredView>)
    ensures
        rows_of(Ok(rows)) is Ok <==> (forall|i: int| 0 <= i < rows.len() ==> #[trigger] row_fault(rows, i) is None),
        rows_of(Ok(rows)) matches Ok(loaded) ==> loaded.len() == rows.len(),
{
    if rows_fault(rows, 0) is None {
        assert forall|i: int| 0 <= i < rows.len() implies #[trigger] row_fault(rows, i) is None by {
            lemma_no_fault(rows, 0, i);
        }
    } else if forall|i: int| 0 <= i < rows.len() ==> #[trigger] row_fault(rows, i) is None {
        lemma_sound_rows(rows, 0);
    }
}

proof fn lemma_sound_rows(rows: Seq<DeclaredView>, from: int)
    requires
        0 <= from <= rows.len(),
        forall|i: int| 0 <= i < rows.len() ==> #[trigger] row_fault(rows, i) is None,
    ensures
        rows_fault(rows, from) is None,
    decreases rows.len() - from,
{
    if from < rows.len() {
        assert(row_fault(rows, from) is None);
        lemma_sound_rows(rows, from + 1);
    }
}

/// The rows of a file that is loaded have slugs of their own, none of them reserved, and sources that can be asked.
pub proof fn law_loaded_rows_do_not_clash(rows: Seq<DeclaredView>, i: int, k: int)
    requires
        rows_of(Ok(rows)) is Ok,
        0 <= i < k < rows.len(),
    ensures
        rows[i].0.slug != rows[k].0.slug,
        !is_reserved(rows[i].0.slug),
        !is_reserved(rows[k].0.slug),
        sources_of(rows[k].1, rows[k].0.input_schema) is Ok,
{
    lemma_no_fault(rows, 0, i);
    lemma_no_fault(rows, 0, k);
}

/// The rows of a file are loaded as they were written, in their order.
pub proof fn law_rows_are_loaded_as_they_were_written(rows: Seq<DeclaredView>, i: int, error: Seq<char>)
    ensures
        rows_of(Ok(rows)) matches Ok(loaded) ==> (0 <= i < rows.len() ==> loaded[i] == rows[i].0),
        rows_of(Err(error)) == Err::<Seq<DeclarativeRowView>, Seq<char>>(
            "could not be read as JSON: "@ + error,
        ),
{
}

/// What is wrong with a row is told by its slug: reserved, used before, or with sources that do not read.
pub proof fn law_a_bad_row_is_told_by_its_slug(rows: Seq<DeclaredView>, i: int)
    requires
        0 <= i < rows.len(),
    ensures
        is_reserved(rows[i].0.slug) ==> row_fault(rows, i) == Some(
            quoted(rows[i].0.slug) + " is a reserved system slug"@,
        ),
        !is_reserved(rows[i].0.slug) && (exists|k: int|
            0 <= k < i && (#[trigger] rows[k]).0.slug == rows[i].0.slug) ==> row_fault(rows, i) == Some(
            quoted(rows[i].0.slug) + " appears twice"@,
        ),
        !is_reserved(rows[i].0.slug) && (forall|k: int|
            0 <= k < i ==> (#[trigger] rows[k]).0.slug != rows[i].0.slug) ==> (match sources_of(
            rows[i].1,
            rows[i].0.input_schema,
        ) {
            Ok(_) => row_fault(rows, i) is None,
            Err(error) => row_fault(rows, i) == Some(rows[i].0.slug + ": "@ + error),
        }),
{
}

/// What a row registers, and what it makes of a stored tool, is what the row says, each part in its own field; the
/// operator decides neither the risk nor the owner.
pub proof fn law_a_row_registers_what_it_says(row: DeclarativeRowView, stored: ToolView)
    ensures
        registered(row).slug == row.slug,
        registered(row).name == row.name,
        registered(row).description == row.description,
        registered(row).input_schema == row.input_schema,
        registered(row).timeout_seconds == row.timeout_seconds,
        registered(row).risk == Risk::ReadOnly,
        registered(row).output_schema.at("type"@) == JsonView::Text("object"@),
        updated(stored, row).name == row.name,
        updated(stored, row).description == row.description,
        updated(stored, row).input_schema == row.input_schema,
        updated(stored, row).timeout_seconds == row.timeout_seconds,
        updated(stored, row).sources == Some(row.sources),
        updated(stored, row).output_schema == stored.output_schema,
        updated(stored, row).connection_id == stored.connection_id,
{
    crate::json::lemma_holds(any_object()->Object_0, 0);
}

/// The view of a row shows each of its parts under that part's own name.
pub proof fn law_the_view_of_a_declarative_row_is_its_own(row: DeclarativeRow)
    ensures
        row.deep_view().slug == row.slug@,
        row.deep_view().name == row.name@,
        row.deep_view().description == row.description@,
        row.deep_view().timeout_seconds == row.timeout_seconds,
        row.deep_view().input_schema == row.input_schema.deep_view(),
        row.deep_view().sources == row.sources.deep_view(),
{
}

} // verus!

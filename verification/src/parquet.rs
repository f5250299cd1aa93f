//! The columnar store writer: what is to be written for a table, as the
//! statements to run and the rows to append, each row fitting the table's
//! columns. The rows are exported under a staging name first, so that the
//! target never holds a table that is half written.

use vstd::prelude::*;
use crate::models::llm::{comma_joined, LlmModel};
use crate::models::media::MediaModel;
use crate::number::Double;
use crate::schema::{
    benchmarks, benchmarks_columns, create_table_text, llms, llms_columns, media_columns,
    models_dev, models_dev_columns, Column, TableDef,
};
use crate::sources::artificial_analysis::AaLlmRow;
use crate::sources::models_dev::ModelsDevRow;
use crate::sql::quote_doubled;
use crate::text::{chars_of, clone_text, join_strings};

verus! {

/// A media model as a flat row.
#[derive(Debug)]
pub struct MediaRow {
    pub id: String,
    pub name: String,
    pub slug: String,
    pub creator: String,
    pub elo: Option<Double>,
    pub rank: Option<i32>,
    pub release_date: Option<String>,
}

/// A rank as a 32-bit signed number: as it is up to the largest such number,
/// and that largest number beyond it.
pub open spec fn rank_value(rank: u32) -> i32 {
    if rank <= i32::MAX {
        rank as i32
    } else {
        i32::MAX
    }
}

/// The flat row of a media model.
pub open spec fn media_row_of(model: MediaModel) -> MediaRow {
    MediaRow {
        id: model.id,
        name: model.name,
        slug: model.slug,
        creator: model.model_creator.name,
        elo: model.elo,
        rank: match model.rank {
            Some(r) => Some(rank_value(r)),
            None => None,
        },
        release_date: model.release_date,
    }
}

impl From<&MediaModel> for MediaRow {
    fn from(model: &MediaModel) -> (row: MediaRow) {
        MediaRow {
            id: model.id.clone(),
            name: model.name.clone(),
            slug: model.slug.clone(),
            creator: model.model_creator.name.clone(),
            elo: model.elo,
            rank: match model.rank {
                Some(r) => Some(
                    if r <= 0x7fff_ffff {
                        r as i32
                    } else {
                        i32::MAX
                    },
                ),
                None => None,
            },
            release_date: clone_text(&model.release_date),
        }
    }
}

impl vstd::std_specs::convert::FromSpecImpl<&MediaModel> for MediaRow {
    open spec fn obeys_from_spec() -> bool {
        true
    }

    open spec fn from_spec(model: &MediaModel) -> MediaRow {
        media_row_of(*model)
    }
}

/// What is appended into one column of one row.
#[derive(Debug, Clone)]
pub enum Cell {
    /// No value.
    Null,
    /// A text, for a `VARCHAR` column.
    Text(String),
    /// A number with a fraction, for a `DOUBLE` column.
    Real(Double),
    /// A truth value, for a `BOOLEAN` column.
    Flag(bool),
    /// A whole number, for a `BIGINT` or an `INTEGER` column.
    Whole(i64),
}

/// The cell of an optional text.
pub open spec fn text_cell(o: Option<String>) -> Cell {
    match o {
        Some(s) => Cell::Text(s),
        None => Cell::Null,
    }
}

/// The cell of an optional number with a fraction.
pub open spec fn real_cell(o: Option<Double>) -> Cell {
    match o {
        Some(d) => Cell::Real(d),
        None => Cell::Null,
    }
}

/// The cell of an optional truth value.
pub open spec fn flag_cell(o: Option<bool>) -> Cell {
    match o {
        Some(b) => Cell::Flag(b),
        None => Cell::Null,
    }
}

/// A count as a 64-bit signed number: as it is up to the largest such number,
/// and that largest number beyond it.
pub open spec fn count_value(n: u64) -> i64 {
    if n <= i64::MAX {
        n as i64
    } else {
        i64::MAX
    }
}

/// The cell of an optional count.
pub open spec fn whole_cell(o: Option<u64>) -> Cell {
    match o {
        Some(n) => Cell::Whole(count_value(n)),
        None => Cell::Null,
    }
}

/// The cell of an optional rank.
pub open spec fn small_cell(o: Option<i32>) -> Cell {
    match o {
        Some(n) => Cell::Whole(n as i64),
        None => Cell::Null,
    }
}

/// Whether `cell` holds the tokens of `list` as one text with commas between,
/// or nothing where there is no list.
pub open spec fn list_cell_reads(cell: Cell, list: Option<Vec<String>>) -> bool {
    match comma_joined(list) {
        Some(text) => cell matches Cell::Text(s) && s@ == text,
        None => cell is Null,
    }
}

/// Whether a column of type `sql_type`, nullable or not, takes `cell`.
pub open spec fn takes(column: Column, cell: Cell) -> bool {
    match cell {
        Cell::Null => column.nullable,
        Cell::Text(_) => column.sql_type@ == "VARCHAR"@,
        Cell::Real(_) => column.sql_type@ == "DOUBLE"@,
        Cell::Flag(_) => column.sql_type@ == "BOOLEAN"@,
        Cell::Whole(_) => column.sql_type@ == "BIGINT"@ || column.sql_type@ == "INTEGER"@,
    }
}

/// Whether a row fits the columns of a table: one cell per column, each taken
/// by its column.
pub open spec fn fits(cells: Seq<Cell>, columns: Seq<Column>) -> bool {
    &&& cells.len() == columns.len()
    &&& forall|i: int| 0 <= i < columns.len() ==> takes(#[trigger] columns[i], cells[i])
}

/// Computes [`text_cell`].
fn to_text_cell(o: &Option<String>) -> (cell: Cell)
    ensures
        cell == text_cell(*o),
{
    match o {
        Some(s) => Cell::Text(s.clone()),
        None => Cell::Null,
    }
}

/// Computes [`real_cell`].
fn to_real_cell(o: Option<Double>) -> (cell: Cell)
    ensures
        cell == real_cell(o),
{
    match o {
        Some(d) => Cell::Real(d),
        None => Cell::Null,
    }
}

/// Computes [`flag_cell`].
fn to_flag_cell(o: Option<bool>) -> (cell: Cell)
    ensures
        cell == flag_cell(o),
{
    match o {
        Some(b) => Cell::Flag(b),
        None => Cell::Null,
    }
}

/// Computes [`whole_cell`].
fn to_whole_cell(o: Option<u64>) -> (cell: Cell)
    ensures
        cell == whole_cell(o),
{
    match o {
        Some(n) => Cell::Whole(
            if n <= 0x7fff_ffff_ffff_ffff {
                n as i64
            } else {
                i64::MAX
            },
        ),
        None => Cell::Null,
    }
}

/// Computes [`small_cell`].
fn to_small_cell(o: Option<i32>) -> (cell: Cell)
    ensures
        cell == small_cell(o),
{
    match o {
        Some(n) => Cell::Whole(n as i64),
        None => Cell::Null,
    }
}

/// Builds a cell that [`list_cell_reads`] accepts.
fn to_list_cell(list: &Option<Vec<String>>) -> (cell: Cell)
    ensures
        list_cell_reads(cell, *list),
        cell is Null || cell is Text,
{
    match list {
        Some(v) => Cell::Text(join_strings(v, ",")),
        None => Cell::Null,
    }
}

/// Whether `cells` is the row of `model` in the merged model table: one cell per column, in
/// the order of the columns.
pub open spec fn is_llm_row(cells: Seq<Cell>, item: LlmModel) -> bool {
    &&& cells.len() == 35
    &&& cells[0] == Cell::Text(item.id)
    &&& cells[1] == Cell::Text(item.name)
    &&& cells[2] == Cell::Text(item.slug)
    &&& cells[3] == Cell::Text(item.creator)
    &&& cells[4] == text_cell(item.creator_slug)
    &&& cells[5] == text_cell(item.release_date)
    &&& cells[6] == real_cell(item.intelligence)
    &&& cells[7] == real_cell(item.coding)
    &&& cells[8] == real_cell(item.math)
    &&& cells[9] == real_cell(item.mmlu_pro)
    &&& cells[10] == real_cell(item.gpqa)
    &&& cells[11] == real_cell(item.hle)
    &&& cells[12] == real_cell(item.livecodebench)
    &&& cells[13] == real_cell(item.scicode)
    &&& cells[14] == real_cell(item.math_500)
    &&& cells[15] == real_cell(item.aime)
    &&& cells[16] == real_cell(item.input_price)
    &&& cells[17] == real_cell(item.output_price)
    &&& cells[18] == real_cell(item.price)
    &&& cells[19] == real_cell(item.tps)
    &&& cells[20] == real_cell(item.latency)
    &&& cells[21] == flag_cell(item.reasoning)
    &&& cells[22] == flag_cell(item.tool_call)
    &&& cells[23] == flag_cell(item.structured_output)
    &&& cells[24] == flag_cell(item.attachment)
    &&& cells[25] == flag_cell(item.temperature)
    &&& cells[26] == whole_cell(item.context_window)
    &&& cells[27] == whole_cell(item.max_input_tokens)
    &&& cells[28] == whole_cell(item.max_output_tokens)
    &&& list_cell_reads(cells[29], item.input_modalities)
    &&& list_cell_reads(cells[30], item.output_modalities)
    &&& cells[31] == text_cell(item.knowledge_cutoff)
    &&& cells[32] == flag_cell(item.open_weights)
    &&& cells[33] == text_cell(item.last_updated)
    &&& cells[34] == Cell::Flag(item.models_dev_matched)
}

/// Builds the row of `item` in the merged model table.
pub fn llm_row(item: &LlmModel) -> (cells: Vec<Cell>)
    ensures
        is_llm_row(cells@, *item),
        fits(cells@, llms_columns()),
{
    let cells = llm_cells(item);
    proof {
        lemma_llm_row_fits(cells@, *item);
    }
    cells
}

/// Builds the cells of [`llm_row`].
fn llm_cells(item: &LlmModel) -> (cells: Vec<Cell>)
    ensures
        is_llm_row(cells@, *item),
{
    let c0 = Cell::Text(item.id.clone());
    let c1 = Cell::Text(item.name.clone());
    let c2 = Cell::Text(item.slug.clone());
    let c3 = Cell::Text(item.creator.clone());
    let c4 = to_text_cell(&item.creator_slug);
    let c5 = to_text_cell(&item.release_date);
    let c6 = to_real_cell(item.intelligence);
    let c7 = to_real_cell(item.coding);
    let c8 = to_real_cell(item.math);
    let c9 = to_real_cell(item.mmlu_pro);
    let c10 = to_real_cell(item.gpqa);
    let c11 = to_real_cell(item.hle);
    let c12 = to_real_cell(item.livecodebench);
    let c13 = to_real_cell(item.scicode);
    let c14 = to_real_cell(item.math_500);
    let c15 = to_real_cell(item.aime);
    let c16 = to_real_cell(item.input_price);
    let c17 = to_real_cell(item.output_price);
    let c18 = to_real_cell(item.price);
    let c19 = to_real_cell(item.tps);
    let c20 = to_real_cell(item.latency);
    let c21 = to_flag_cell(item.reasoning);
    let c22 = to_flag_cell(item.tool_call);
    let c23 = to_flag_cell(item.structured_output);
    let c24 = to_flag_cell(item.attachment);
    let c25 = to_flag_cell(item.temperature);
    let c26 = to_whole_cell(item.context_window);
    let c27 = to_whole_cell(item.max_input_tokens);
    let c28 = to_whole_cell(item.max_output_tokens);
    let c29 = to_list_cell(&item.input_modalities);
    let c30 = to_list_cell(&item.output_modalities);
    let c31 = to_text_cell(&item.knowledge_cutoff);
    let c32 = to_flag_cell(item.open_weights);
    let c33 = to_text_cell(&item.last_updated);
    let c34 = Cell::Flag(item.models_dev_matched);
    let cells = vec![
        c0,
        c1,
        c2,
        c3,
        c4,
        c5,
        c6,
        c7,
        c8,
        c9,
        c10,
        c11,
        c12,
        c13,
        c14,
        c15,
        c16,
        c17,
        c18,
        c19,
        c20,
        c21,
        c22,
        c23,
        c24,
        c25,
        c26,
        c27,
        c28,
        c29,
        c30,
        c31,
        c32,
        c33,
        c34,
    ];
    cells
}

/// Whether `cells` is the row of `row` in the raw benchmark table: one cell per column, in
/// the order of the columns.
pub open spec fn is_benchmark_row(cells: Seq<Cell>, item: AaLlmRow) -> bool {
    &&& cells.len() == 21
    &&& cells[0] == Cell::Text(item.id)
    &&& cells[1] == Cell::Text(item.name)
    &&& cells[2] == Cell::Text(item.slug)
    &&& cells[3] == Cell::Text(item.creator)
    &&& cells[4] == text_cell(item.creator_slug)
    &&& cells[5] == text_cell(item.release_date)
    &&& cells[6] == real_cell(item.intelligence)
    &&& cells[7] == real_cell(item.coding)
    &&& cells[8] == real_cell(item.math)
    &&& cells[9] == real_cell(item.mmlu_pro)
    &&& cells[10] == real_cell(item.gpqa)
    &&& cells[11] == real_cell(item.hle)
    &&& cells[12] == real_cell(item.livecodebench)
    &&& cells[13] == real_cell(item.scicode)
    &&& cells[14] == real_cell(item.math_500)
    &&& cells[15] == real_cell(item.aime)
    &&& cells[16] == real_cell(item.input_price)
    &&& cells[17] == real_cell(item.output_price)
    &&& cells[18] == real_cell(item.price)
    &&& cells[19] == real_cell(item.tps)
    &&& cells[20] == real_cell(item.latency)
}

/// Builds the row of `item` in the raw benchmark table.
pub fn benchmark_row(item: &AaLlmRow) -> (cells: Vec<Cell>)
    ensures
        is_benchmark_row(cells@, *item),
        fits(cells@, benchmarks_columns()),
{
    let cells = benchmark_cells(item);
    proof {
        lemma_benchmark_row_fits(cells@, *item);
    }
    cells
}

/// Builds the cells of [`benchmark_row`].
fn benchmark_cells(item: &AaLlmRow) -> (cells: Vec<Cell>)
    ensures
        is_benchmark_row(cells@, *item),
{
    let c0 = Cell::Text(item.id.clone());
    let c1 = Cell::Text(item.name.clone());
    let c2 = Cell::Text(item.slug.clone());
    let c3 = Cell::Text(item.creator.clone());
    let c4 = to_text_cell(&item.creator_slug);
    let c5 = to_text_cell(&item.release_date);
    let c6 = to_real_cell(item.intelligence);
    let c7 = to_real_cell(item.coding);
    let c8 = to_real_cell(item.math);
    let c9 = to_real_cell(item.mmlu_pro);
    let c10 = to_real_cell(item.gpqa);
    let c11 = to_real_cell(item.hle);
    let c12 = to_real_cell(item.livecodebench);
    let c13 = to_real_cell(item.scicode);
    let c14 = to_real_cell(item.math_500);
    let c15 = to_real_cell(item.aime);
    let c16 = to_real_cell(item.input_price);
    let c17 = to_real_cell(item.output_price);
    let c18 = to_real_cell(item.price);
    let c19 = to_real_cell(item.tps);
    let c20 = to_real_cell(item.latency);
    let cells = vec![
        c0,
        c1,
        c2,
        c3,
        c4,
        c5,
        c6,
        c7,
        c8,
        c9,
        c10,
        c11,
        c12,
        c13,
        c14,
        c15,
        c16,
        c17,
        c18,
        c19,
        c20,
    ];
    cells
}

/// Whether `cells` is the row of `row` in the raw capability table: one cell per column, in
/// the order of the columns.
pub open spec fn is_models_dev_row(cells: Seq<Cell>, item: ModelsDevRow) -> bool {
    &&& cells.len() == 22
    &&& cells[0] == Cell::Text(item.provider_id)
    &&& cells[1] == Cell::Text(item.provider_name)
    &&& cells[2] == Cell::Text(item.model_id)
    &&& cells[3] == Cell::Text(item.model_name)
    &&& cells[4] == text_cell(item.family)
    &&& cells[5] == flag_cell(item.attachment)
    &&& cells[6] == flag_cell(item.reasoning)
    &&& cells[7] == flag_cell(item.tool_call)
    &&& cells[8] == flag_cell(item.structured_output)
    &&& cells[9] == flag_cell(item.temperature)
    &&& cells[10] == text_cell(item.knowledge)
    &&& cells[11] == text_cell(item.release_date)
    &&& cells[12] == text_cell(item.last_updated)
    &&& cells[13] == flag_cell(item.open_weights)
    &&& cells[14] == text_cell(item.status)
    &&& cells[15] == whole_cell(item.context_window)
    &&& cells[16] == whole_cell(item.max_input_tokens)
    &&& cells[17] == whole_cell(item.max_output_tokens)
    &&& cells[18] == real_cell(item.cost_input)
    &&& cells[19] == real_cell(item.cost_output)
    &&& cells[20] == text_cell(item.input_modalities)
    &&& cells[21] == text_cell(item.output_modalities)
}

/// Builds the row of `item` in the raw capability table.
pub fn models_dev_row(item: &ModelsDevRow) -> (cells: Vec<Cell>)
    ensures
        is_models_dev_row(cells@, *item),
        fits(cells@, models_dev_columns()),
{
    let cells = models_dev_cells(item);
    proof {
        lemma_models_dev_row_fits(cells@, *item);
    }
    cells
}

/// Builds the cells of [`models_dev_row`].
fn models_dev_cells(item: &ModelsDevRow) -> (cells: Vec<Cell>)
    ensures
        is_models_dev_row(cells@, *item),
{
    let c0 = Cell::Text(item.provider_id.clone());
    let c1 = Cell::Text(item.provider_name.clone());
    let c2 = Cell::Text(item.model_id.clone());
    let c3 = Cell::Text(item.model_name.clone());
    let c4 = to_text_cell(&item.family);
    let c5 = to_flag_cell(item.attachment);
    let c6 = to_flag_cell(item.reasoning);
    let c7 = to_flag_cell(item.tool_call);
    let c8 = to_flag_cell(item.structured_output);
    let c9 = to_flag_cell(item.temperature);
    let c10 = to_text_cell(&item.knowledge);
    let c11 = to_text_cell(&item.release_date);
    let c12 = to_text_cell(&item.last_updated);
    let c13 = to_flag_cell(item.open_weights);
    let c14 = to_text_cell(&item.status);
    let c15 = to_whole_cell(item.context_window);
    let c16 = to_whole_cell(item.max_input_tokens);
    let c17 = to_whole_cell(item.max_output_tokens);
    let c18 = to_real_cell(item.cost_input);
    let c19 = to_real_cell(item.cost_output);
    let c20 = to_text_cell(&item.input_modalities);
    let c21 = to_text_cell(&item.output_modalities);
    let cells = vec![
        c0,
        c1,
        c2,
        c3,
        c4,
        c5,
        c6,
        c7,
        c8,
        c9,
        c10,
        c11,
        c12,
        c13,
        c14,
        c15,
        c16,
        c17,
        c18,
        c19,
        c20,
        c21,
    ];
    cells
}

/// Whether `cells` is the row of `row` in the media tables: one cell per column, in
/// the order of the columns.
pub open spec fn is_media_row(cells: Seq<Cell>, item: MediaRow) -> bool {
    &&& cells.len() == 7
    &&& cells[0] == Cell::Text(item.id)
    &&& cells[1] == Cell::Text(item.name)
    &&& cells[2] == Cell::Text(item.slug)
    &&& cells[3] == Cell::Text(item.creator)
    &&& cells[4] == real_cell(item.elo)
    &&& cells[5] == small_cell(item.rank)
    &&& cells[6] == text_cell(item.release_date)
}

/// Builds the row of `item` in the media tables.
pub fn media_row(item: &MediaRow) -> (cells: Vec<Cell>)
    ensures
        is_media_row(cells@, *item),
        fits(cells@, media_columns()),
{
    let cells = media_cells(item);
    proof {
        lemma_media_row_fits(cells@, *item);
    }
    cells
}

/// Builds the cells of [`media_row`].
fn media_cells(item: &MediaRow) -> (cells: Vec<Cell>)
    ensures
        is_media_row(cells@, *item),
{
    let c0 = Cell::Text(item.id.clone());
    let c1 = Cell::Text(item.name.clone());
    let c2 = Cell::Text(item.slug.clone());
    let c3 = Cell::Text(item.creator.clone());
    let c4 = to_real_cell(item.elo);
    let c5 = to_small_cell(item.rank);
    let c6 = to_text_cell(&item.release_date);
    let cells = vec![
        c0,
        c1,
        c2,
        c3,
        c4,
        c5,
        c6,
    ];
    cells
}

/// A row built for this table fits its columns.
pub proof fn lemma_llm_row_fits(cells: Seq<Cell>, item: LlmModel)
    requires
        is_llm_row(cells, item),
    ensures
        fits(cells, llms_columns()),
{
    let columns = llms_columns();
    assert(columns.len() == 35);
}

/// A row built for this table fits its columns.
pub proof fn lemma_benchmark_row_fits(cells: Seq<Cell>, item: AaLlmRow)
    requires
        is_benchmark_row(cells, item),
    ensures
        fits(cells, benchmarks_columns()),
{
    let columns = benchmarks_columns();
    assert(columns.len() == 21);
}

/// A row built for this table fits its columns.
pub proof fn lemma_models_dev_row_fits(cells: Seq<Cell>, item: ModelsDevRow)
    requires
        is_models_dev_row(cells, item),
    ensures
        fits(cells, models_dev_columns()),
{
    let columns = models_dev_columns();
    assert(columns.len() == 22);
}

/// A row built for this table fits its columns.
pub proof fn lemma_media_row_fits(cells: Seq<Cell>, item: MediaRow)
    requires
        is_media_row(cells, item),
    ensures
        fits(cells, media_columns()),
{
    let columns = media_columns();
    assert(columns.len() == 7);
}

/// What is to be done to write a table: create it, append the rows, export it
/// under the staging name, and give the export the name of the target.
pub struct WritePlan {
    pub create_sql: String,
    pub table: String,
    pub rows: Vec<Vec<Cell>>,
    pub export_sql: String,
    pub staging_path: String,
    pub target_path: String,
}

/// The name that a table is exported under before it gets the name `path`.
pub open spec fn staging_name(path: Seq<char>) -> Seq<char> {
    path + ".tmp"@
}

/// The statement that exports the table `name` to the file `path`.
pub open spec fn export_text(name: Seq<char>, path: Seq<char>) -> Seq<char> {
    "COPY "@ + name + " TO '"@ + quote_doubled(path) + "' (FORMAT PARQUET)"@
}

/// Whether `plan` writes the table `name` with the columns `columns` to `path`,
/// apart from its rows.
pub open spec fn frames(plan: WritePlan, name: Seq<char>, columns: Seq<Column>, path: Seq<char>) -> bool {
    &&& plan.create_sql@ == create_table_text(name, columns)
    &&& plan.table@ == name
    &&& plan.export_sql@ == export_text(name, staging_name(path))
    &&& plan.staging_path@ == staging_name(path)
    &&& plan.target_path@ == path
    &&& forall|i: int| 0 <= i < plan.rows@.len() ==> fits((#[trigger] plan.rows@[i])@, columns)
}

/// Builds the plan for the table `def` with the rows `rows`.
fn plan_for(def: &TableDef, rows: Vec<Vec<Cell>>, path: &str) -> (plan: WritePlan)
    requires
        forall|i: int| 0 <= i < rows@.len() ==> fits((#[trigger] rows@[i])@, def.columns@),
    ensures
        frames(plan, def.name@, def.columns@, path@),
        plan.rows == rows,
{
    let mut staging = String::new();
    staging.append(path);
    staging.append(".tmp");
    let mut export_sql = String::new();
    export_sql.append("COPY ");
    export_sql.append(def.name);
    export_sql.append(" TO '");
    crate::sql::push_quote_doubled(&mut export_sql, &chars_of(staging.as_str()));
    export_sql.append("' (FORMAT PARQUET)");
    WritePlan {
        create_sql: def.create_table_sql(),
        table: def.name.to_owned(),
        rows,
        export_sql,
        staging_path: staging,
        target_path: path.to_owned(),
    }
}

/// Plans the writing of the raw benchmark rows to `path`: one row per item, in order.
pub fn write_aa_llms_parquet(rows: &Vec<AaLlmRow>, path: &str) -> (plan: WritePlan)
    ensures
        frames(plan, "benchmarks"@, benchmarks_columns(), path@),
        plan.rows@.len() == rows@.len(),
        forall|i: int|
            0 <= i < rows@.len() ==> is_benchmark_row((#[trigger] plan.rows@[i])@, rows@[i]),
{
    let mut cells: Vec<Vec<Cell>> = Vec::new();
    let mut i: usize = 0;
    while i < rows.len()
        invariant
            i <= rows.len(),
            cells@.len() == i,
            forall|j: int| 0 <= j < i ==> is_benchmark_row((#[trigger] cells@[j])@, rows@[j]),
            forall|j: int| 0 <= j < i ==> fits((#[trigger] cells@[j])@, benchmarks_columns()),
        decreases rows.len() - i,
    {
        cells.push(benchmark_row(&rows[i]));
        i += 1;
    }
    let def = benchmarks();
    plan_for(&def, cells, path)
}

/// Plans the writing of the raw capability rows to `path`: one row per item, in order.
pub fn write_models_dev_parquet(rows: &Vec<ModelsDevRow>, path: &str) -> (plan: WritePlan)
    ensures
        frames(plan, "models_dev"@, models_dev_columns(), path@),
        plan.rows@.len() == rows@.len(),
        forall|i: int|
            0 <= i < rows@.len() ==> is_models_dev_row((#[trigger] plan.rows@[i])@, rows@[i]),
{
    let mut cells: Vec<Vec<Cell>> = Vec::new();
    let mut i: usize = 0;
    while i < rows.len()
        invariant
            i <= rows.len(),
            cells@.len() == i,
            forall|j: int| 0 <= j < i ==> is_models_dev_row((#[trigger] cells@[j])@, rows@[j]),
            forall|j: int| 0 <= j < i ==> fits((#[trigger] cells@[j])@, models_dev_columns()),
        decreases rows.len() - i,
    {
        cells.push(models_dev_row(&rows[i]));
        i += 1;
    }
    let def = models_dev();
    plan_for(&def, cells, path)
}

/// Plans the writing of the unified models to `path`: one row per item, in order.
pub fn write_llms_parquet(models: &Vec<LlmModel>, path: &str) -> (plan: WritePlan)
    ensures
        frames(plan, "llms"@, llms_columns(), path@),
        plan.rows@.len() == models@.len(),
        forall|i: int|
            0 <= i < models@.len() ==> is_llm_row((#[trigger] plan.rows@[i])@, models@[i]),
{
    let mut cells: Vec<Vec<Cell>> = Vec::new();
    let mut i: usize = 0;
    while i < models.len()
        invariant
            i <= models.len(),
            cells@.len() == i,
            forall|j: int| 0 <= j < i ==> is_llm_row((#[trigger] cells@[j])@, models@[j]),
            forall|j: int| 0 <= j < i ==> fits((#[trigger] cells@[j])@, llms_columns()),
        decreases models.len() - i,
    {
        cells.push(llm_row(&models[i]));
        i += 1;
    }
    let def = llms();
    plan_for(&def, cells, path)
}

/// Plans the writing of the media models to `path`: one row per item, in order.
pub fn write_media_parquet(models: &Vec<MediaModel>, path: &str) -> (plan: WritePlan)
    ensures
        frames(plan, "media"@, media_columns(), path@),
        plan.rows@.len() == models@.len(),
        forall|i: int|
            0 <= i < models@.len() ==> is_media_row((#[trigger] plan.rows@[i])@, media_row_of(models@[i])),
{
    let mut cells: Vec<Vec<Cell>> = Vec::new();
    let mut i: usize = 0;
    while i < models.len()
        invariant
            i <= models.len(),
            cells@.len() == i,
            forall|j: int| 0 <= j < i ==> is_media_row((#[trigger] cells@[j])@, media_row_of(models@[j])),
            forall|j: int| 0 <= j < i ==> fits((#[trigger] cells@[j])@, media_columns()),
        decreases models.len() - i,
    {
        cells.push(media_row(&MediaRow::from(&models[i])));
        i += 1;
    }
    let def = TableDef {
        name: "media",
        command: "",
        parquet_file: "",
        columns: crate::schema::media_column_list(),
    };
    plan_for(&def, cells, path)
}

} // verus!

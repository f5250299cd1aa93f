//! The table registry: one definition per table, shared by the writer and the query layer.

use vstd::prelude::*;
use crate::text::{join, str_equal};

verus! {

/// One column of a table.
#[derive(Debug, Clone, Copy)]
pub struct Column {
    pub name: &'static str,
    pub sql_type: &'static str,
    pub nullable: bool,
}

/// A table: its name, the command that fills it, its file, and its columns in order.
#[derive(Debug, Clone)]
pub struct TableDef {
    pub name: &'static str,
    pub command: &'static str,
    pub parquet_file: &'static str,
    pub columns: Vec<Column>,
}

/// The declaration of one column inside `CREATE TABLE`.
pub open spec fn column_sql(c: Column) -> Seq<char> {
    c.name@ + " "@ + c.sql_type@ + (if c.nullable {
        ""@
    } else {
        " NOT NULL"@
    })
}

/// The `CREATE TABLE` statement for a table called `name` with the given columns.
pub open spec fn create_table_text(name: Seq<char>, columns: Seq<Column>) -> Seq<char> {
    "CREATE TABLE "@ + name + " (\n    "@ + join(columns.map_values(|c: Column| column_sql(c)), ",\n    "@)
        + "\n)"@
}

impl TableDef {
    /// Generates the `CREATE TABLE` statement of this table.
    pub fn create_table_sql(&self) -> (sql: String)
        ensures
            sql@ == create_table_text(self.name@, self.columns@),
    {
        let mut sql = String::new();
        sql.append("CREATE TABLE ");
        sql.append(self.name);
        sql.append(" (\n    ");
        let ghost head = sql@;
        let ghost parts = self.columns@.map_values(|c: Column| column_sql(c));
        let mut i: usize = 0;
        while i < self.columns.len()
            invariant
                i <= self.columns.len(),
                parts == self.columns@.map_values(|c: Column| column_sql(c)),
                sql@ == head + crate::text::join_upto(parts, ",\n    "@, i as nat),
            decreases self.columns.len() - i,
        {
            if i > 0 {
                sql.append(",\n    ");
            }
            let c = &self.columns[i];
            let ghost before = sql@;
            sql.append(c.name);
            sql.append(" ");
            sql.append(c.sql_type);
            if !c.nullable {
                sql.append(" NOT NULL");
            }
            proof {
                assert(sql@ == before + column_sql(*c)) by {
                    reveal_strlit("");
                    assert(""@ == Seq::<char>::empty());
                }
                assert(parts[i as int] == column_sql(*c));
            }
            i += 1;
        }
        sql.append("\n)");
        sql
    }
}

/// The columns of the merged model table.
pub open spec fn llms_columns() -> Seq<Column> {
    seq![
        Column { name: "id", sql_type: "VARCHAR", nullable: false },
        Column { name: "name", sql_type: "VARCHAR", nullable: false },
        Column { name: "slug", sql_type: "VARCHAR", nullable: false },
        Column { name: "creator", sql_type: "VARCHAR", nullable: false },
        Column { name: "creator_slug", sql_type: "VARCHAR", nullable: true },
        Column { name: "release_date", sql_type: "VARCHAR", nullable: true },
        Column { name: "intelligence", sql_type: "DOUBLE", nullable: true },
        Column { name: "coding", sql_type: "DOUBLE", nullable: true },
        Column { name: "math", sql_type: "DOUBLE", nullable: true },
        Column { name: "mmlu_pro", sql_type: "DOUBLE", nullable: true },
        Column { name: "gpqa", sql_type: "DOUBLE", nullable: true },
        Column { name: "hle", sql_type: "DOUBLE", nullable: true },
        Column { name: "livecodebench", sql_type: "DOUBLE", nullable: true },
        Column { name: "scicode", sql_type: "DOUBLE", nullable: true },
        Column { name: "math_500", sql_type: "DOUBLE", nullable: true },
        Column { name: "aime", sql_type: "DOUBLE", nullable: true },
        Column { name: "input_price", sql_type: "DOUBLE", nullable: true },
        Column { name: "output_price", sql_type: "DOUBLE", nullable: true },
        Column { name: "price", sql_type: "DOUBLE", nullable: true },
        Column { name: "tps", sql_type: "DOUBLE", nullable: true },
        Column { name: "latency", sql_type: "DOUBLE", nullable: true },
        Column { name: "reasoning", sql_type: "BOOLEAN", nullable: true },
        Column { name: "tool_call", sql_type: "BOOLEAN", nullable: true },
        Column { name: "structured_output", sql_type: "BOOLEAN", nullable: true },
        Column { name: "attachment", sql_type: "BOOLEAN", nullable: true },
        Column { name: "temperature", sql_type: "BOOLEAN", nullable: true },
        Column { name: "context_window", sql_type: "BIGINT", nullable: true },
        Column { name: "max_input_tokens", sql_type: "BIGINT", nullable: true },
        Column { name: "max_output_tokens", sql_type: "BIGINT", nullable: true },
        Column { name: "input_modalities", sql_type: "VARCHAR", nullable: true },
        Column { name: "output_modalities", sql_type: "VARCHAR", nullable: true },
        Column { name: "knowledge_cutoff", sql_type: "VARCHAR", nullable: true },
        Column { name: "open_weights", sql_type: "BOOLEAN", nullable: true },
        Column { name: "last_updated", sql_type: "VARCHAR", nullable: true },
        Column { name: "models_dev_matched", sql_type: "BOOLEAN", nullable: false },
    ]
}

/// Builds [`llms_columns`].
pub fn llms_column_list() -> (v: Vec<Column>)
    ensures
        v@ == llms_columns(),
{
    let mut v: Vec<Column> = Vec::new();
    v.push(Column { name: "id", sql_type: "VARCHAR", nullable: false });
    v.push(Column { name: "name", sql_type: "VARCHAR", nullable: false });
    v.push(Column { name: "slug", sql_type: "VARCHAR", nullable: false });
    v.push(Column { name: "creator", sql_type: "VARCHAR", nullable: false });
    v.push(Column { name: "creator_slug", sql_type: "VARCHAR", nullable: true });
    v.push(Column { name: "release_date", sql_type: "VARCHAR", nullable: true });
    v.push(Column { name: "intelligence", sql_type: "DOUBLE", nullable: true });
    v.push(Column { name: "coding", sql_type: "DOUBLE", nullable: true });
    v.push(Column { name: "math", sql_type: "DOUBLE", nullable: true });
    v.push(Column { name: "mmlu_pro", sql_type: "DOUBLE", nullable: true });
    v.push(Column { name: "gpqa", sql_type: "DOUBLE", nullable: true });
    v.push(Column { name: "hle", sql_type: "DOUBLE", nullable: true });
    v.push(Column { name: "livecodebench", sql_type: "DOUBLE", nullable: true });
    v.push(Column { name: "scicode", sql_type: "DOUBLE", nullable: true });
    v.push(Column { name: "math_500", sql_type: "DOUBLE", nullable: true });
    v.push(Column { name: "aime", sql_type: "DOUBLE", nullable: true });
    v.push(Column { name: "input_price", sql_type: "DOUBLE", nullable: true });
    v.push(Column { name: "output_price", sql_type: "DOUBLE", nullable: true });
    v.push(Column { name: "price", sql_type: "DOUBLE", nullable: true });
    v.push(Column { name: "tps", sql_type: "DOUBLE", nullable: true });
    v.push(Column { name: "latency", sql_type: "DOUBLE", nullable: true });
    v.push(Column { name: "reasoning", sql_type: "BOOLEAN", nullable: true });
    v.push(Column { name: "tool_call", sql_type: "BOOLEAN", nullable: true });
    v.push(Column { name: "structured_output", sql_type: "BOOLEAN", nullable: true });
    v.push(Column { name: "attachment", sql_type: "BOOLEAN", nullable: true });
    v.push(Column { name: "temperature", sql_type: "BOOLEAN", nullable: true });
    v.push(Column { name: "context_window", sql_type: "BIGINT", nullable: true });
    v.push(Column { name: "max_input_tokens", sql_type: "BIGINT", nullable: true });
    v.push(Column { name: "max_output_tokens", sql_type: "BIGINT", nullable: true });
    v.push(Column { name: "input_modalities", sql_type: "VARCHAR", nullable: true });
    v.push(Column { name: "output_modalities", sql_type: "VARCHAR", nullable: true });
    v.push(Column { name: "knowledge_cutoff", sql_type: "VARCHAR", nullable: true });
    v.push(Column { name: "open_weights", sql_type: "BOOLEAN", nullable: true });
    v.push(Column { name: "last_updated", sql_type: "VARCHAR", nullable: true });
    v.push(Column { name: "models_dev_matched", sql_type: "BOOLEAN", nullable: false });
    assert(v@ =~= llms_columns());
    v
}

/// The columns shared by the five media tables.
pub open spec fn media_columns() -> Seq<Column> {
    seq![
        Column { name: "id", sql_type: "VARCHAR", nullable: false },
        Column { name: "name", sql_type: "VARCHAR", nullable: false },
        Column { name: "slug", sql_type: "VARCHAR", nullable: false },
        Column { name: "creator", sql_type: "VARCHAR", nullable: false },
        Column { name: "elo", sql_type: "DOUBLE", nullable: true },
        Column { name: "rank", sql_type: "INTEGER", nullable: true },
        Column { name: "release_date", sql_type: "VARCHAR", nullable: true },
    ]
}

/// Builds [`media_columns`].
pub fn media_column_list() -> (v: Vec<Column>)
    ensures
        v@ == media_columns(),
{
    let mut v: Vec<Column> = Vec::new();
    v.push(Column { name: "id", sql_type: "VARCHAR", nullable: false });
    v.push(Column { name: "name", sql_type: "VARCHAR", nullable: false });
    v.push(Column { name: "slug", sql_type: "VARCHAR", nullable: false });
    v.push(Column { name: "creator", sql_type: "VARCHAR", nullable: false });
    v.push(Column { name: "elo", sql_type: "DOUBLE", nullable: true });
    v.push(Column { name: "rank", sql_type: "INTEGER", nullable: true });
    v.push(Column { name: "release_date", sql_type: "VARCHAR", nullable: true });
    assert(v@ =~= media_columns());
    v
}

/// The columns of the raw benchmark table.
pub open spec fn benchmarks_columns() -> Seq<Column> {
    seq![
        Column { name: "id", sql_type: "VARCHAR", nullable: false },
        Column { name: "name", sql_type: "VARCHAR", nullable: false },
        Column { name: "slug", sql_type: "VARCHAR", nullable: false },
        Column { name: "creator", sql_type: "VARCHAR", nullable: false },
        Column { name: "creator_slug", sql_type: "VARCHAR", nullable: true },
        Column { name: "release_date", sql_type: "VARCHAR", nullable: true },
        Column { name: "intelligence", sql_type: "DOUBLE", nullable: true },
        Column { name: "coding", sql_type: "DOUBLE", nullable: true },
        Column { name: "math", sql_type: "DOUBLE", nullable: true },
        Column { name: "mmlu_pro", sql_type: "DOUBLE", nullable: true },
        Column { name: "gpqa", sql_type: "DOUBLE", nullable: true },
        Column { name: "hle", sql_type: "DOUBLE", nullable: true },
        Column { name: "livecodebench", sql_type: "DOUBLE", nullable: true },
        Column { name: "scicode", sql_type: "DOUBLE", nullable: true },
        Column { name: "math_500", sql_type: "DOUBLE", nullable: true },
        Column { name: "aime", sql_type: "DOUBLE", nullable: true },
        Column { name: "input_price", sql_type: "DOUBLE", nullable: true },
        Column { name: "output_price", sql_type: "DOUBLE", nullable: true },
        Column { name: "price", sql_type: "DOUBLE", nullable: true },
        Column { name: "tps", sql_type: "DOUBLE", nullable: true },
        Column { name: "latency", sql_type: "DOUBLE", nullable: true },
    ]
}

/// Builds [`benchmarks_columns`].
pub fn benchmarks_column_list() -> (v: Vec<Column>)
    ensures
        v@ == benchmarks_columns(),
{
    let mut v: Vec<Column> = Vec::new();
    v.push(Column { name: "id", sql_type: "VARCHAR", nullable: false });
    v.push(Column { name: "name", sql_type: "VARCHAR", nullable: false });
    v.push(Column { name: "slug", sql_type: "VARCHAR", nullable: false });
    v.push(Column { name: "creator", sql_type: "VARCHAR", nullable: false });
    v.push(Column { name: "creator_slug", sql_type: "VARCHAR", nullable: true });
    v.push(Column { name: "release_date", sql_type: "VARCHAR", nullable: true });
    v.push(Column { name: "intelligence", sql_type: "DOUBLE", nullable: true });
    v.push(Column { name: "coding", sql_type: "DOUBLE", nullable: true });
    v.push(Column { name: "math", sql_type: "DOUBLE", nullable: true });
    v.push(Column { name: "mmlu_pro", sql_type: "DOUBLE", nullable: true });
    v.push(Column { name: "gpqa", sql_type: "DOUBLE", nullable: true });
    v.push(Column { name: "hle", sql_type: "DOUBLE", nullable: true });
    v.push(Column { name: "livecodebench", sql_type: "DOUBLE", nullable: true });
    v.push(Column { name: "scicode", sql_type: "DOUBLE", nullable: true });
    v.push(Column { name: "math_500", sql_type: "DOUBLE", nullable: true });
    v.push(Column { name: "aime", sql_type: "DOUBLE", nullable: true });
    v.push(Column { name: "input_price", sql_type: "DOUBLE", nullable: true });
    v.push(Column { name: "output_price", sql_type: "DOUBLE", nullable: true });
    v.push(Column { name: "price", sql_type: "DOUBLE", nullable: true });
    v.push(Column { name: "tps", sql_type: "DOUBLE", nullable: true });
    v.push(Column { name: "latency", sql_type: "DOUBLE", nullable: true });
    assert(v@ =~= benchmarks_columns());
    v
}

/// The columns of the raw capability table.
pub open spec fn models_dev_columns() -> Seq<Column> {
    seq![
        Column { name: "provider_id", sql_type: "VARCHAR", nullable: false },
        Column { name: "provider_name", sql_type: "VARCHAR", nullable: false },
        Column { name: "model_id", sql_type: "VARCHAR", nullable: false },
        Column { name: "model_name", sql_type: "VARCHAR", nullable: false },
        Column { name: "family", sql_type: "VARCHAR", nullable: true },
        Column { name: "attachment", sql_type: "BOOLEAN", nullable: true },
        Column { name: "reasoning", sql_type: "BOOLEAN", nullable: true },
        Column { name: "tool_call", sql_type: "BOOLEAN", nullable: true },
        Column { name: "structured_output", sql_type: "BOOLEAN", nullable: true },
        Column { name: "temperature", sql_type: "BOOLEAN", nullable: true },
        Column { name: "knowledge", sql_type: "VARCHAR", nullable: true },
        Column { name: "release_date", sql_type: "VARCHAR", nullable: true },
        Column { name: "last_updated", sql_type: "VARCHAR", nullable: true },
        Column { name: "open_weights", sql_type: "BOOLEAN", nullable: true },
        Column { name: "status", sql_type: "VARCHAR", nullable: true },
        Column { name: "context_window", sql_type: "BIGINT", nullable: true },
        Column { name: "max_input_tokens", sql_type: "BIGINT", nullable: true },
        Column { name: "max_output_tokens", sql_type: "BIGINT", nullable: true },
        Column { name: "cost_input", sql_type: "DOUBLE", nullable: true },
        Column { name: "cost_output", sql_type: "DOUBLE", nullable: true },
        Column { name: "input_modalities", sql_type: "VARCHAR", nullable: true },
        Column { name: "output_modalities", sql_type: "VARCHAR", nullable: true },
    ]
}

/// Builds [`models_dev_columns`].
pub fn models_dev_column_list() -> (v: Vec<Column>)
    ensures
        v@ == models_dev_columns(),
{
    let mut v: Vec<Column> = Vec::new();
    v.push(Column { name: "provider_id", sql_type: "VARCHAR", nullable: false });
    v.push(Column { name: "provider_name", sql_type: "VARCHAR", nullable: false });
    v.push(Column { name: "model_id", sql_type: "VARCHAR", nullable: false });
    v.push(Column { name: "model_name", sql_type: "VARCHAR", nullable: false });
    v.push(Column { name: "family", sql_type: "VARCHAR", nullable: true });
    v.push(Column { name: "attachment", sql_type: "BOOLEAN", nullable: true });
    v.push(Column { name: "reasoning", sql_type: "BOOLEAN", nullable: true });
    v.push(Column { name: "tool_call", sql_type: "BOOLEAN", nullable: true });
    v.push(Column { name: "structured_output", sql_type: "BOOLEAN", nullable: true });
    v.push(Column { name: "temperature", sql_type: "BOOLEAN", nullable: true });
    v.push(Column { name: "knowledge", sql_type: "VARCHAR", nullable: true });
    v.push(Column { name: "release_date", sql_type: "VARCHAR", nullable: true });
    v.push(Column { name: "last_updated", sql_type: "VARCHAR", nullable: true });
    v.push(Column { name: "open_weights", sql_type: "BOOLEAN", nullable: true });
    v.push(Column { name: "status", sql_type: "VARCHAR", nullable: true });
    v.push(Column { name: "context_window", sql_type: "BIGINT", nullable: true });
    v.push(Column { name: "max_input_tokens", sql_type: "BIGINT", nullable: true });
    v.push(Column { name: "max_output_tokens", sql_type: "BIGINT", nullable: true });
    v.push(Column { name: "cost_input", sql_type: "DOUBLE", nullable: true });
    v.push(Column { name: "cost_output", sql_type: "DOUBLE", nullable: true });
    v.push(Column { name: "input_modalities", sql_type: "VARCHAR", nullable: true });
    v.push(Column { name: "output_modalities", sql_type: "VARCHAR", nullable: true });
    assert(v@ =~= models_dev_columns());
    v
}

/// The merged model table.
pub fn llms() -> (t: TableDef)
    ensures
        t.name@ == "llms"@,
        t.command@ == "aa llms"@,
        t.parquet_file@ == "llms.parquet"@,
        t.columns@ == llms_columns(),
{
    TableDef {
        name: "llms",
        command: "aa llms",
        parquet_file: "llms.parquet",
        columns: llms_column_list(),
    }
}

/// The text-to-image leaderboard.
pub fn text_to_image() -> (t: TableDef)
    ensures
        t.name@ == "text_to_image"@,
        t.command@ == "aa text-to-image"@,
        t.parquet_file@ == "text_to_image.parquet"@,
        t.columns@ == media_columns(),
{
    TableDef {
        name: "text_to_image",
        command: "aa text-to-image",
        parquet_file: "text_to_image.parquet",
        columns: media_column_list(),
    }
}

/// The image-editing leaderboard.
pub fn image_editing() -> (t: TableDef)
    ensures
        t.name@ == "image_editing"@,
        t.command@ == "aa image-editing"@,
        t.parquet_file@ == "image_editing.parquet"@,
        t.columns@ == media_columns(),
{
    TableDef {
        name: "image_editing",
        command: "aa image-editing",
        parquet_file: "image_editing.parquet",
        columns: media_column_list(),
    }
}

/// The text-to-speech leaderboard.
pub fn text_to_speech() -> (t: TableDef)
    ensures
        t.name@ == "text_to_speech"@,
        t.command@ == "aa text-to-speech"@,
        t.parquet_file@ == "text_to_speech.parquet"@,
        t.columns@ == media_columns(),
{
    TableDef {
        name: "text_to_speech",
        command: "aa text-to-speech",
        parquet_file: "text_to_speech.parquet",
        columns: media_column_list(),
    }
}

/// The text-to-video leaderboard.
pub fn text_to_video() -> (t: TableDef)
    ensures
        t.name@ == "text_to_video"@,
        t.command@ == "aa text-to-video"@,
        t.parquet_file@ == "text_to_video.parquet"@,
        t.columns@ == media_columns(),
{
    TableDef {
        name: "text_to_video",
        command: "aa text-to-video",
        parquet_file: "text_to_video.parquet",
        columns: media_column_list(),
    }
}

/// The image-to-video leaderboard.
pub fn image_to_video() -> (t: TableDef)
    ensures
        t.name@ == "image_to_video"@,
        t.command@ == "aa image-to-video"@,
        t.parquet_file@ == "image_to_video.parquet"@,
        t.columns@ == media_columns(),
{
    TableDef {
        name: "image_to_video",
        command: "aa image-to-video",
        parquet_file: "image_to_video.parquet",
        columns: media_column_list(),
    }
}

/// The raw benchmark table; internal, filled by a refresh.
pub fn benchmarks() -> (t: TableDef)
    ensures
        t.name@ == "benchmarks"@,
        t.command@ == "which-llm refresh"@,
        t.parquet_file@ == "benchmarks.parquet"@,
        t.columns@ == benchmarks_columns(),
{
    TableDef {
        name: "benchmarks",
        command: "which-llm refresh",
        parquet_file: "benchmarks.parquet",
        columns: benchmarks_column_list(),
    }
}

/// The raw capability table; internal, so no command fills it on request.
pub fn models_dev() -> (t: TableDef)
    ensures
        t.name@ == "models_dev"@,
        t.command@ == ""@,
        t.parquet_file@ == "models_dev.parquet"@,
        t.columns@ == models_dev_columns(),
{
    TableDef {
        name: "models_dev",
        command: "",
        parquet_file: "models_dev.parquet",
        columns: models_dev_column_list(),
    }
}

/// How many tables a query can name.
pub const TABLE_COUNT: usize = 6;

/// The name of the `k`-th queryable table.
pub open spec fn table_name(k: int) -> Seq<char> {
    if k == 0 {
        "llms"@
    } else if k == 1 {
        "text_to_image"@
    } else if k == 2 {
        "image_editing"@
    } else if k == 3 {
        "text_to_speech"@
    } else if k == 4 {
        "text_to_video"@
    } else {
        "image_to_video"@
    }
}

/// The command that fills the `k`-th queryable table.
pub open spec fn table_command(k: int) -> Seq<char> {
    if k == 0 {
        "aa llms"@
    } else if k == 1 {
        "aa text-to-image"@
    } else if k == 2 {
        "aa image-editing"@
    } else if k == 3 {
        "aa text-to-speech"@
    } else if k == 4 {
        "aa text-to-video"@
    } else {
        "aa image-to-video"@
    }
}

/// The file name of the `k`-th queryable table.
pub open spec fn table_file(k: int) -> Seq<char> {
    if k == 0 {
        "llms.parquet"@
    } else if k == 1 {
        "text_to_image.parquet"@
    } else if k == 2 {
        "image_editing.parquet"@
    } else if k == 3 {
        "text_to_speech.parquet"@
    } else if k == 4 {
        "text_to_video.parquet"@
    } else {
        "image_to_video.parquet"@
    }
}

/// Computes [`table_name`].
pub fn table_name_of(k: usize) -> (r: &'static str)
    requires
        k < TABLE_COUNT,
    ensures
        r@ == table_name(k as int),
{
    if k == 0 {
        "llms"
    } else if k == 1 {
        "text_to_image"
    } else if k == 2 {
        "image_editing"
    } else if k == 3 {
        "text_to_speech"
    } else if k == 4 {
        "text_to_video"
    } else {
        "image_to_video"
    }
}

/// Computes [`table_command`].
pub fn table_command_of(k: usize) -> (r: &'static str)
    requires
        k < TABLE_COUNT,
    ensures
        r@ == table_command(k as int),
{
    if k == 0 {
        "aa llms"
    } else if k == 1 {
        "aa text-to-image"
    } else if k == 2 {
        "aa image-editing"
    } else if k == 3 {
        "aa text-to-speech"
    } else if k == 4 {
        "aa text-to-video"
    } else {
        "aa image-to-video"
    }
}

/// Computes [`table_file`].
pub fn table_file_of(k: usize) -> (r: &'static str)
    requires
        k < TABLE_COUNT,
    ensures
        r@ == table_file(k as int),
{
    if k == 0 {
        "llms.parquet"
    } else if k == 1 {
        "text_to_image.parquet"
    } else if k == 2 {
        "image_editing.parquet"
    } else if k == 3 {
        "text_to_speech.parquet"
    } else if k == 4 {
        "text_to_video.parquet"
    } else {
        "image_to_video.parquet"
    }
}

/// The columns of the `k`-th queryable table.
pub open spec fn table_columns(k: int) -> Seq<Column> {
    if k == 0 {
        llms_columns()
    } else {
        media_columns()
    }
}

/// The `k`-th queryable table.
pub fn table_at(k: usize) -> (t: TableDef)
    requires
        k < TABLE_COUNT,
    ensures
        t.name@ == table_name(k as int),
        t.command@ == table_command(k as int),
        t.parquet_file@ == table_file(k as int),
        t.columns@ == table_columns(k as int),
{
    if k == 0 {
        llms()
    } else if k == 1 {
        text_to_image()
    } else if k == 2 {
        image_editing()
    } else if k == 3 {
        text_to_speech()
    } else if k == 4 {
        text_to_video()
    } else {
        image_to_video()
    }
}

/// All queryable tables, in their fixed order.
pub fn all_tables() -> (v: Vec<TableDef>)
    ensures
        v.len() == TABLE_COUNT,
        forall|k: int|
            0 <= k < TABLE_COUNT ==> {
                &&& (#[trigger] v[k]).name@ == table_name(k)
                &&& v[k].command@ == table_command(k)
                &&& v[k].parquet_file@ == table_file(k)
                &&& v[k].columns@ == table_columns(k)
            },
{
    let mut v: Vec<TableDef> = Vec::new();
    let mut k: usize = 0;
    while k < TABLE_COUNT
        invariant
            k <= TABLE_COUNT,
            v.len() == k,
            forall|j: int|
                0 <= j < k ==> {
                    &&& (#[trigger] v[j]).name@ == table_name(j)
                    &&& v[j].command@ == table_command(j)
                    &&& v[j].parquet_file@ == table_file(j)
                    &&& v[j].columns@ == table_columns(j)
                },
        decreases TABLE_COUNT - k,
    {
        v.push(table_at(k));
        k += 1;
    }
    v
}

/// The index of the queryable table called exactly `name`, if there is one.
pub open spec fn table_index(name: Seq<char>) -> Option<int> {
    if name == table_name(0) {
        Some(0)
    } else if name == table_name(1) {
        Some(1)
    } else if name == table_name(2) {
        Some(2)
    } else if name == table_name(3) {
        Some(3)
    } else if name == table_name(4) {
        Some(4)
    } else if name == table_name(5) {
        Some(5)
    } else {
        None
    }
}

/// Finds the index of the queryable table called exactly `name`.
pub fn find_table(name: &str) -> (r: Option<usize>)
    ensures
        r is Some <==> table_index(name@) is Some,
        r matches Some(k) ==> k < TABLE_COUNT && table_index(name@) == Some(k as int),
{
    let mut k: usize = 0;
    while k < TABLE_COUNT
        invariant
            k <= TABLE_COUNT,
            forall|j: int| 0 <= j < k ==> name@ != table_name(j),
        decreases TABLE_COUNT - k,
    {
        if str_equal(name, table_name_of(k)) {
            return Some(k);
        }
        k += 1;
    }
    None
}

/// Gets a table definition by name.
pub fn get_table_def(name: &str) -> (r: Option<TableDef>)
    ensures
        match r {
            Some(t) => {
                &&& table_index(name@) matches Some(k)
                &&& t.name@ == table_name(k)
                &&& t.command@ == table_command(k)
                &&& t.parquet_file@ == table_file(k)
                &&& t.columns@ == table_columns(k)
            },
            None => table_index(name@) is None,
        },
{
    match find_table(name) {
        Some(k) => Some(table_at(k)),
        None => None,
    }
}

} // verus!

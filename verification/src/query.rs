//! The query layer: which tables a query names, whether their files are there,
//! and the query rewritten to read those files.

use vstd::prelude::*;
use crate::bindings::{
    csv_record, csv_record_text, json_entries, json_holds_texts, json_object_insert,
    json_object_new, json_pretty, json_pretty_text,
};
use crate::error::AppError;
use crate::number::{fixed_text, Double};
use crate::schema::{
    find_table, llms_column_list, media_column_list, table_at, table_columns, table_command,
    table_command_of, table_index, table_name, table_name_of, Column, TABLE_COUNT,
};
use crate::sql::{references, rewritten, substitute};
use crate::output::OutputFormat;
use crate::text::{
    chars_of, contains, join, join_strings, push_signed_decimal, signed_decimal, str_contains,
    views,
};

verus! {

/// The columns of a table as a query sees them.
pub struct TableSchema {
    pub name: &'static str,
    pub columns: Vec<Column>,
}

/// Gets the schema of a queryable table: the merged model table has its own,
/// the five media tables share one.
pub fn get_schema(table_name: &str) -> (r: Option<TableSchema>)
    ensures
        match r {
            Some(s) => {
                &&& table_index(table_name@) matches Some(k)
                &&& s.columns@ == table_columns(k)
                &&& s.name@ == (if k == 0 {
                    "llms"@
                } else {
                    "media"@
                })
            },
            None => table_index(table_name@) is None,
        },
{
    match find_table(table_name) {
        Some(k) => {
            if k == 0 {
                Some(TableSchema { name: "llms", columns: llms_column_list() })
            } else {
                Some(TableSchema { name: "media", columns: media_column_list() })
            }
        },
        None => None,
    }
}

/// The answer to a query: column names, and rows of rendered values.
pub struct QueryResult {
    pub columns: Vec<String>,
    pub rows: Vec<Vec<String>>,
}

impl QueryResult {
    /// Whether the result has no rows.
    pub fn is_empty(&self) -> (r: bool)
        ensures
            r == (self.rows@.len() == 0),
    {
        self.rows.len() == 0
    }

    /// The number of rows.
    pub fn len(&self) -> (n: usize)
        ensures
            n == self.rows@.len(),
    {
        self.rows.len()
    }
}

/// What is reported when a query names table `k` and its file is not there.
pub open spec fn missing_table_text(k: int) -> Seq<char> {
    "Table '"@ + table_name(k) + "' not found. Run '"@ + table_command(k)
        + "' first to fetch and cache the data."@
}

/// The first table from `from` on that `sql` refers to and `there` denies.
pub open spec fn first_missing(sql: Seq<char>, there: spec_fn(int) -> bool, from: int) -> Option<int>
    decreases TABLE_COUNT - from,
{
    if from < 0 || from >= TABLE_COUNT {
        None
    } else if references(sql, from) && !there(from) {
        Some(from)
    } else {
        first_missing(sql, there, from + 1)
    }
}

/// `first_missing` finds nothing exactly when every table referred to is there.
pub proof fn lemma_first_missing(sql: Seq<char>, there: spec_fn(int) -> bool, from: int)
    requires
        0 <= from <= TABLE_COUNT,
    ensures
        first_missing(sql, there, from) is None <==> (forall|k: int|
            from <= k < TABLE_COUNT && references(sql, k) ==> there(k)),
        first_missing(sql, there, from) matches Some(m) ==> from <= m < TABLE_COUNT && references(
            sql,
            m,
        ) && !there(m) && (forall|k: int| from <= k < m && references(sql, k) ==> there(k)),
    decreases TABLE_COUNT - from,
{
    if from < TABLE_COUNT {
        lemma_first_missing(sql, there, from + 1);
    }
}

/// Rewrites queries against the table files of one directory.
pub struct QueryExecutor {
    cache_dir: String,
    cached: Vec<bool>,
}

impl QueryExecutor {
    #[verifier::type_invariant]
    spec fn well_formed(self) -> bool {
        self.cached.len() == TABLE_COUNT
    }

    /// The directory the table files are looked for in.
    pub closed spec fn dir(self) -> Seq<char> {
        self.cache_dir@
    }

    /// Whether the file of table `k` is known to be there.
    pub closed spec fn has_table(self, k: int) -> bool {
        0 <= k < self.cached.len() && self.cached[k]
    }

    /// Creates an executor for `cache_dir` that knows of no table file yet.
    pub fn new(cache_dir: String) -> (e: Self)
        ensures
            e.dir() == cache_dir@,
            forall|k: int| !e.has_table(k),
    {
        let mut cached: Vec<bool> = Vec::new();
        while cached.len() < TABLE_COUNT
            invariant
                cached.len() <= TABLE_COUNT,
                forall|k: int| 0 <= k < cached.len() ==> !cached[k],
            decreases TABLE_COUNT - cached.len(),
        {
            cached.push(false);
        }
        QueryExecutor { cache_dir, cached }
    }

    /// Records that the file of `table` is there; tells whether `table` is a table name.
    pub fn mark_cached(&mut self, table: &str) -> (known: bool)
        ensures
            final(self).dir() == old(self).dir(),
            known == (table_index(table@) is Some),
            forall|k: int|
                final(self).has_table(k) == (old(self).has_table(k) || (0 <= k < TABLE_COUNT
                    && table_index(table@) == Some(k))),
    {
        proof {
            use_type_invariant(&*self);
        }
        match find_table(table) {
            Some(k) => {
                let mut updated: Vec<bool> = Vec::new();
                let mut j: usize = 0;
                while j < TABLE_COUNT
                    invariant
                        j <= TABLE_COUNT,
                        k < TABLE_COUNT,
                        updated.len() == j,
                        self.cached.len() == TABLE_COUNT,
                        forall|i: int| 0 <= i < j ==> updated[i] == (self.cached[i] || i == k),
                    decreases TABLE_COUNT - j,
                {
                    updated.push(j == k || self.cached[j]);
                    j += 1;
                }
                self.cached = updated;
                true
            },
            None => false,
        }
    }

    /// Substitutes table names by references to the table files.
    ///
    /// Fails, naming the first such table and the command that fills it, when the
    /// query refers to a table whose file is not there; otherwise returns the
    /// rewritten query.
    pub fn substitute_aliases(&self, sql: &str) -> (r: Result<String, AppError>)
        ensures
            r is Ok <==> (forall|k: int|
                0 <= k < TABLE_COUNT && references(sql@, k) ==> self.has_table(k)),
            match r {
                Ok(s) => s@ == rewritten(sql@, self.dir()),
                Err(e) => {
                    &&& first_missing(sql@, |k: int| self.has_table(k), 0) matches Some(m)
                    &&& e matches AppError::Query(text)
                    &&& text@ == missing_table_text(m)
                },
            },
    {
        proof {
            use_type_invariant(self);
            lemma_first_missing(sql@, |k: int| self.has_table(k), 0);
        }
        let query = chars_of(sql);
        let dir = chars_of(self.cache_dir.as_str());
        let (text, used) = substitute(&query, &dir);
        let mut k: usize = 0;
        while k < TABLE_COUNT
            invariant
                k <= TABLE_COUNT,
                used.len() == TABLE_COUNT,
                self.cached.len() == TABLE_COUNT,
                forall|j: int| 0 <= j < TABLE_COUNT ==> used[j] == references(sql@, j),
                first_missing(sql@, |j: int| self.has_table(j), 0) == first_missing(
                    sql@,
                    |j: int| self.has_table(j),
                    k as int,
                ),
            decreases TABLE_COUNT - k,
        {
            if used[k] && !self.cached[k] {
                let mut report = String::new();
                report.append("Table '");
                report.append(table_name_of(k));
                report.append("' not found. Run '");
                report.append(table_command_of(k));
                report.append("' first to fetch and cache the data.");
                return Err(AppError::Query(report));
            }
            k += 1;
        }
        Ok(text)
    }
}

/// What a listing says of one column.
pub struct ColumnInfo {
    pub name: String,
    pub data_type: String,
    pub nullable: bool,
}

/// What a listing says of one table.
pub struct TableInfo {
    pub name: String,
    pub exists: bool,
    pub schema: Option<Vec<ColumnInfo>>,
}

/// Whether `infos` describes exactly the columns `columns`.
pub open spec fn describes(infos: Seq<ColumnInfo>, columns: Seq<Column>) -> bool {
    &&& infos.len() == columns.len()
    &&& forall|j: int|
        0 <= j < columns.len() ==> {
            &&& (#[trigger] infos[j]).name@ == columns[j].name@
            &&& infos[j].data_type@ == columns[j].sql_type@
            &&& infos[j].nullable == columns[j].nullable
        }
}

/// Describes the columns `columns`.
fn describe_columns(columns: &Vec<Column>) -> (infos: Vec<ColumnInfo>)
    ensures
        describes(infos@, columns@),
{
    let mut infos: Vec<ColumnInfo> = Vec::new();
    let mut j: usize = 0;
    while j < columns.len()
        invariant
            j <= columns.len(),
            describes(infos@, columns@.take(j as int)),
        decreases columns.len() - j,
    {
        let c = &columns[j];
        infos.push(
            ColumnInfo {
                name: c.name.to_owned(),
                data_type: c.sql_type.to_owned(),
                nullable: c.nullable,
            },
        );
        j += 1;
    }
    assert(columns@.take(columns.len() as int) == columns@);
    infos
}

impl QueryExecutor {
    /// Lists the queryable tables in their fixed order, each with its columns and
    /// with whether its file is there.
    pub fn list_tables(&self) -> (tables: Vec<TableInfo>)
        ensures
            tables.len() == TABLE_COUNT,
            forall|k: int|
                0 <= k < TABLE_COUNT ==> {
                    &&& (#[trigger] tables[k]).name@ == table_name(k)
                    &&& tables[k].exists == self.has_table(k)
                    &&& tables[k].schema matches Some(infos)
                    &&& describes(infos@, table_columns(k))
                },
    {
        proof {
            use_type_invariant(self);
        }
        let mut tables: Vec<TableInfo> = Vec::new();
        let mut k: usize = 0;
        while k < TABLE_COUNT
            invariant
                k <= TABLE_COUNT,
                tables.len() == k,
                self.cached.len() == TABLE_COUNT,
                forall|j: int|
                    0 <= j < k ==> {
                        &&& (#[trigger] tables[j]).name@ == table_name(j)
                        &&& tables[j].exists == self.has_table(j)
                        &&& tables[j].schema matches Some(infos)
                        &&& describes(infos@, table_columns(j))
                    },
            decreases TABLE_COUNT - k,
        {
            let def = table_at(k);
            let infos = describe_columns(&def.columns);
            tables.push(
                TableInfo { name: def.name.to_owned(), exists: self.cached[k], schema: Some(infos) },
            );
            k += 1;
        }
        tables
    }
}

/// The views of the rows of a result.
pub open spec fn row_views(rows: Seq<Vec<String>>) -> Seq<Seq<Seq<char>>> {
    rows.map_values(|r: Vec<String>| views(r@))
}

/// One line of a pipe-delimited table.
pub open spec fn markdown_line(cells: Seq<Seq<char>>) -> Seq<char> {
    "| "@ + join(cells, " | "@) + " |\n"@
}

/// The lines of the first `n` rows of a pipe-delimited table.
pub open spec fn markdown_lines(rows: Seq<Seq<Seq<char>>>, n: nat) -> Seq<char>
    decreases n,
{
    if n == 0 {
        Seq::empty()
    } else {
        markdown_lines(rows, (n - 1) as nat) + markdown_line(rows[n - 1])
    }
}

/// A result as a pipe-delimited table: header, rule, then one line per row.
pub open spec fn markdown_text(columns: Seq<Seq<char>>, rows: Seq<Seq<Seq<char>>>) -> Seq<char> {
    markdown_line(columns) + markdown_line(Seq::new(columns.len(), |i: int| "---"@))
        + markdown_lines(rows, rows.len())
}

/// Renders [`markdown_text`].
pub fn format_markdown(result: &QueryResult) -> (out: String)
    ensures
        out@ == markdown_text(views(result.columns@), row_views(result.rows@)),
{
    let mut out = String::new();
    out.append("| ");
    out.append(join_strings(&result.columns, " | ").as_str());
    out.append(" |\n");
    let mut separators: Vec<String> = Vec::new();
    let mut i: usize = 0;
    while i < result.columns.len()
        invariant
            i <= result.columns.len(),
            separators.len() == i,
            forall|j: int| 0 <= j < i ==> (#[trigger] separators[j])@ == "---"@,
        decreases result.columns.len() - i,
    {
        separators.push("---".to_owned());
        i += 1;
    }
    assert(views(separators@) == Seq::new(views(result.columns@).len(), |i: int| "---"@));
    out.append("| ");
    out.append(join_strings(&separators, " | ").as_str());
    out.append(" |\n");
    let ghost head = out@;
    let ghost rows = row_views(result.rows@);
    let mut r: usize = 0;
    while r < result.rows.len()
        invariant
            r <= result.rows.len(),
            rows == row_views(result.rows@),
            out@ == head + markdown_lines(rows, r as nat),
        decreases result.rows.len() - r,
    {
        out.append("| ");
        out.append(join_strings(&result.rows[r], " | ").as_str());
        out.append(" |\n");
        r += 1;
    }
    out
}

/// The first `n` rows, each as its cells with tabs between and a line end after.
pub open spec fn plain_lines(rows: Seq<Seq<Seq<char>>>, n: nat) -> Seq<char>
    decreases n,
{
    if n == 0 {
        Seq::empty()
    } else {
        plain_lines(rows, (n - 1) as nat) + join(rows[n - 1], "\t"@) + "\n"@
    }
}

/// Renders the rows alone: cells with tabs between, one line per row.
pub fn format_plain(result: &QueryResult) -> (out: String)
    ensures
        out@ == plain_lines(row_views(result.rows@), result.rows@.len()),
{
    let mut out = String::new();
    let ghost rows = row_views(result.rows@);
    let mut r: usize = 0;
    while r < result.rows.len()
        invariant
            r <= result.rows.len(),
            rows == row_views(result.rows@),
            out@ == plain_lines(rows, r as nat),
        decreases result.rows.len() - r,
    {
        out.append(join_strings(&result.rows[r], "\t").as_str());
        out.append("\n");
        r += 1;
    }
    out
}

/// How many bytes the UTF-8 form of `s` takes.
pub open spec fn byte_len(s: Seq<char>) -> nat {
    vstd::utf8::encode_utf8(s).len()
}

/// The width of column `i` after its header and the first `n` rows: the largest
/// byte length among them.
pub open spec fn column_width(
    columns: Seq<Seq<char>>,
    rows: Seq<Seq<Seq<char>>>,
    i: int,
    n: nat,
) -> nat
    decreases n,
{
    if n == 0 {
        byte_len(columns[i])
    } else {
        let w = column_width(columns, rows, i, (n - 1) as nat);
        let row = rows[n - 1];
        if i < row.len() && byte_len(row[i]) > w {
            byte_len(row[i])
        } else {
            w
        }
    }
}

/// The widths of all columns of a result.
pub open spec fn column_widths(columns: Seq<Seq<char>>, rows: Seq<Seq<Seq<char>>>) -> Seq<nat> {
    Seq::new(columns.len(), |i: int| column_width(columns, rows, i, rows.len()))
}

/// `n` copies of `c`.
pub open spec fn repeated(c: char, n: nat) -> Seq<char> {
    Seq::new(n, |i: int| c)
}

/// `s`, filled up with blanks on the right to `w` characters.
pub open spec fn padded(s: Seq<char>, w: nat) -> Seq<char> {
    if s.len() < w {
        s + repeated(' ', (w - s.len()) as nat)
    } else {
        s
    }
}

/// The width that cell `i` of a row is padded to.
pub open spec fn width_at(widths: Seq<nat>, i: int) -> nat {
    if 0 <= i < widths.len() {
        widths[i]
    } else {
        0
    }
}

/// A border line up to and including column `n - 1`, without its line end.
pub open spec fn border_upto(widths: Seq<nat>, n: nat) -> Seq<char>
    decreases n,
{
    if n == 0 {
        "+"@
    } else {
        border_upto(widths, (n - 1) as nat) + "-"@ + repeated('-', widths[n - 1]) + "-+"@
    }
}

/// A row line up to and including cell `n - 1`, without its line end.
pub open spec fn cells_upto(cells: Seq<Seq<char>>, widths: Seq<nat>, n: nat) -> Seq<char>
    decreases n,
{
    if n == 0 {
        "|"@
    } else {
        cells_upto(cells, widths, (n - 1) as nat) + " "@ + padded(
            cells[n - 1],
            width_at(widths, n - 1),
        ) + " |"@
    }
}

/// The lines of the first `n` rows of a bordered table.
pub open spec fn table_lines(rows: Seq<Seq<Seq<char>>>, widths: Seq<nat>, n: nat) -> Seq<char>
    decreases n,
{
    if n == 0 {
        Seq::empty()
    } else {
        table_lines(rows, widths, (n - 1) as nat) + cells_upto(
            rows[n - 1],
            widths,
            rows[n - 1].len(),
        ) + "\n"@
    }
}

/// A result as a bordered table: border, header, border, rows, border.
pub open spec fn table_text(columns: Seq<Seq<char>>, rows: Seq<Seq<Seq<char>>>) -> Seq<char> {
    let widths = column_widths(columns, rows);
    let border = border_upto(widths, widths.len()) + "\n"@;
    border + cells_upto(columns, widths, columns.len()) + "\n"@ + border + table_lines(
        rows,
        widths,
        rows.len(),
    ) + border
}

/// The widths of a list as naturals.
pub open spec fn as_nats(widths: Seq<usize>) -> Seq<nat> {
    widths.map_values(|w: usize| w as nat)
}

/// Computes [`column_widths`].
fn measure(result: &QueryResult) -> (widths: Vec<usize>)
    ensures
        as_nats(widths@) == column_widths(views(result.columns@), row_views(result.rows@)),
{
    let ghost columns = views(result.columns@);
    let ghost rows = row_views(result.rows@);
    let mut widths: Vec<usize> = Vec::new();
    let mut i: usize = 0;
    while i < result.columns.len()
        invariant
            i <= result.columns.len(),
            columns == views(result.columns@),
            widths.len() == i,
            forall|j: int| 0 <= j < i ==> widths[j] == column_width(columns, rows, j, 0),
        decreases result.columns.len() - i,
    {
        assert(columns[i as int] == result.columns@[i as int]@);
        widths.push(result.columns[i].as_str().as_bytes().len());
        i += 1;
    }
    let mut n: usize = 0;
    while n < result.rows.len()
        invariant
            n <= result.rows.len(),
            columns == views(result.columns@),
            rows == row_views(result.rows@),
            widths.len() == result.columns.len(),
            forall|j: int|
                0 <= j < widths.len() ==> widths[j] == column_width(columns, rows, j, n as nat),
        decreases result.rows.len() - n,
    {
        let row = &result.rows[n];
        let mut c: usize = 0;
        while c < row.len() && c < widths.len()
            invariant
                c <= row.len(),
                n < result.rows.len(),
                row == &result.rows[n as int],
                columns == views(result.columns@),
                rows == row_views(result.rows@),
                widths.len() == result.columns.len(),
                forall|j: int|
                    0 <= j < c && j < widths.len() ==> widths[j] == column_width(
                        columns,
                        rows,
                        j,
                        (n + 1) as nat,
                    ),
                forall|j: int|
                    c <= j < widths.len() ==> widths[j] == column_width(
                        columns,
                        rows,
                        j,
                        n as nat,
                    ),
            decreases row.len() - c,
        {
            assert(rows[n as int] == views(row@));
            assert(rows[n as int][c as int] == row@[c as int]@);
            let len = row[c].as_str().as_bytes().len();
            if len > widths[c] {
                widths.set(c, len);
            }
            c += 1;
        }
        proof {
            assert(rows[n as int] == views(row@));
            assert forall|j: int| 0 <= j < widths.len() implies widths[j] == column_width(
                columns,
                rows,
                j,
                (n + 1) as nat,
            ) by {
                if j >= c {
                    assert(!(j < rows[n as int].len()));
                }
            }
        }
        n += 1;
    }
    assert(as_nats(widths@) =~= column_widths(columns, rows));
    widths
}

/// Appends `n` copies of `c`.
pub fn push_repeated(out: &mut String, c: char, n: usize)
    ensures
        final(out)@ == old(out)@ + repeated(c, n as nat),
{
    let mut k: usize = 0;
    while k < n
        invariant
            k <= n,
            out@ == old(out)@ + repeated(c, k as nat),
        decreases n - k,
    {
        out.push(c);
        k += 1;
        assert(repeated(c, k as nat) == repeated(c, (k - 1) as nat).push(c));
    }
    assert(repeated(c, 0) == Seq::<char>::empty());
}

/// Appends a border line.
fn push_border(out: &mut String, widths: &Vec<usize>)
    ensures
        final(out)@ == old(out)@ + border_upto(as_nats(widths@), widths@.len()) + "\n"@,
{
    out.append("+");
    let mut i: usize = 0;
    while i < widths.len()
        invariant
            i <= widths.len(),
            out@ == old(out)@ + border_upto(as_nats(widths@), i as nat),
        decreases widths.len() - i,
    {
        out.append("-");
        push_repeated(out, '-', widths[i]);
        out.append("-+");
        i += 1;
    }
    out.append("\n");
}

/// Appends a row line.
fn push_cells(out: &mut String, cells: &Vec<String>, widths: &Vec<usize>)
    ensures
        final(out)@ == old(out)@ + cells_upto(views(cells@), as_nats(widths@), cells@.len())
            + "\n"@,
{
    out.append("|");
    let mut i: usize = 0;
    while i < cells.len()
        invariant
            i <= cells.len(),
            out@ == old(out)@ + cells_upto(views(cells@), as_nats(widths@), i as nat),
        decreases cells.len() - i,
    {
        let cell = cells[i].as_str();
        let w: usize = if i < widths.len() {
            widths[i]
        } else {
            0
        };
        let len = cell.unicode_len();
        out.append(" ");
        out.append(cell);
        if len < w {
            push_repeated(out, ' ', w - len);
        }
        out.append(" |");
        i += 1;
    }
    out.append("\n");
}

/// Renders [`table_text`].
pub fn format_ascii_table(result: &QueryResult) -> (out: String)
    ensures
        out@ == table_text(views(result.columns@), row_views(result.rows@)),
{
    let widths = measure(result);
    let ghost rows = row_views(result.rows@);
    let mut out = String::new();
    push_border(&mut out, &widths);
    push_cells(&mut out, &result.columns, &widths);
    push_border(&mut out, &widths);
    let ghost head = out@;
    let mut r: usize = 0;
    while r < result.rows.len()
        invariant
            r <= result.rows.len(),
            rows == row_views(result.rows@),
            out@ == head + table_lines(rows, as_nats(widths@), r as nat),
        decreases result.rows.len() - r,
    {
        push_cells(&mut out, &result.rows[r], &widths);
        r += 1;
    }
    push_border(&mut out, &widths);
    out
}

/// The cell of `row` under column `i`; a row that is too short has empty cells.
pub open spec fn cell_at(row: Seq<Seq<char>>, i: int) -> Seq<char> {
    if 0 <= i < row.len() {
        row[i]
    } else {
        Seq::empty()
    }
}

/// The object that pairs the first `n` column names with the cells of `row`;
/// of two columns with one name, the later one counts.
pub open spec fn row_object(columns: Seq<Seq<char>>, row: Seq<Seq<char>>, n: nat) -> Map<
    Seq<char>,
    Seq<char>,
>
    decreases n,
{
    if n == 0 {
        Map::empty()
    } else {
        row_object(columns, row, (n - 1) as nat).insert(columns[n - 1], cell_at(row, n - 1))
    }
}

/// One object per row of a result.
pub open spec fn row_objects(columns: Seq<Seq<char>>, rows: Seq<Seq<Seq<char>>>) -> Seq<
    Map<Seq<char>, Seq<char>>,
> {
    Seq::new(rows.len(), |r: int| row_object(columns, rows[r], columns.len()))
}

/// Renders a result as a JSON array with one object per row.
pub fn format_json(result: &QueryResult) -> (out: String)
    ensures
        out@ == json_pretty_text(row_objects(views(result.columns@), row_views(result.rows@))),
{
    let ghost columns = views(result.columns@);
    let ghost rows = row_views(result.rows@);
    let mut objects: Vec<serde_json::Map<String, serde_json::Value>> = Vec::new();
    let mut r: usize = 0;
    while r < result.rows.len()
        invariant
            r <= result.rows.len(),
            columns == views(result.columns@),
            rows == row_views(result.rows@),
            objects.len() == r,
            forall|j: int| 0 <= j < r ==> json_holds_texts(#[trigger] objects[j]),
            forall|j: int|
                0 <= j < r ==> json_entries(#[trigger] objects[j]) == row_object(
                    columns,
                    rows[j],
                    columns.len(),
                ),
        decreases result.rows.len() - r,
    {
        let row = &result.rows[r];
        let mut object = json_object_new();
        let mut i: usize = 0;
        while i < result.columns.len()
            invariant
                i <= result.columns.len(),
                r < result.rows.len(),
                row == &result.rows[r as int],
                columns == views(result.columns@),
                rows == row_views(result.rows@),
                json_holds_texts(object),
                json_entries(object) == row_object(columns, rows[r as int], i as nat),
            decreases result.columns.len() - i,
        {
            let cell = if i < row.len() {
                row[i].clone()
            } else {
                String::new()
            };
            assert(rows[r as int] == views(row@));
            assert(cell@ == cell_at(rows[r as int], i as int));
            assert(columns[i as int] == result.columns@[i as int]@);
            json_object_insert(&mut object, result.columns[i].clone(), cell);
            i += 1;
        }
        objects.push(object);
        r += 1;
    }
    assert(objects@.map_values(|o: serde_json::Map<String, serde_json::Value>| json_entries(o))
        =~= row_objects(columns, rows));
    json_pretty(&objects).unwrap()
}

/// The records of the first `n` rows of a result, one after the other.
pub open spec fn csv_lines(rows: Seq<Seq<Seq<char>>>, n: nat) -> Seq<char>
    decreases n,
{
    if n == 0 {
        Seq::empty()
    } else {
        csv_lines(rows, (n - 1) as nat) + csv_record_text(rows[n - 1])
    }
}

/// Renders a result as comma-separated values, the column names first.
pub fn format_csv(result: &QueryResult) -> (out: String)
    ensures
        out@ == csv_record_text(views(result.columns@)) + csv_lines(
            row_views(result.rows@),
            result.rows@.len(),
        ),
{
    let ghost rows = row_views(result.rows@);
    let mut out = csv_record(&result.columns).unwrap();
    let ghost head = out@;
    let mut r: usize = 0;
    while r < result.rows.len()
        invariant
            r <= result.rows.len(),
            rows == row_views(result.rows@),
            out@ == head + csv_lines(rows, r as nat),
        decreases result.rows.len() - r,
    {
        out.append(csv_record(&result.rows[r]).unwrap().as_str());
        r += 1;
    }
    out
}

/// Formats a result in the rendering asked for; a result without rows is
/// reported as such in every rendering.
pub fn format_query_result(result: &QueryResult, format: OutputFormat) -> (out: String)
    ensures
        result.rows@.len() == 0 ==> out@ == "No results."@,
        result.rows@.len() > 0 ==> match format {
            OutputFormat::Json => out@ == json_pretty_text(
                row_objects(views(result.columns@), row_views(result.rows@)),
            ),
            OutputFormat::Csv => out@ == csv_record_text(views(result.columns@)) + csv_lines(
                row_views(result.rows@),
                result.rows@.len(),
            ),
            OutputFormat::Table => out@ == table_text(
                views(result.columns@),
                row_views(result.rows@),
            ),
            OutputFormat::Plain => out@ == plain_lines(
                row_views(result.rows@),
                result.rows@.len(),
            ),
            OutputFormat::Markdown => out@ == markdown_text(
                views(result.columns@),
                row_views(result.rows@),
            ),
        },
{
    if result.is_empty() {
        return "No results.".to_owned();
    }
    match format {
        OutputFormat::Json => format_json(result),
        OutputFormat::Csv => format_csv(result),
        OutputFormat::Table => format_ascii_table(result),
        OutputFormat::Plain => format_plain(result),
        OutputFormat::Markdown => format_markdown(result),
    }
}

/// The line of a listing that describes one column.
pub open spec fn column_line(c: ColumnInfo) -> Seq<char> {
    "      - "@ + c.name@ + " "@ + c.data_type@ + " "@ + (if c.nullable {
        "NULL"@
    } else {
        "NOT NULL"@
    }) + "\n"@
}

/// The lines that describe the first `n` columns.
pub open spec fn column_lines(columns: Seq<ColumnInfo>, n: nat) -> Seq<char>
    decreases n,
{
    if n == 0 {
        Seq::empty()
    } else {
        column_lines(columns, (n - 1) as nat) + column_line(columns[n - 1])
    }
}

/// The part of a listing that describes one table.
pub open spec fn table_entry(t: TableInfo) -> Seq<char> {
    "  "@ + t.name@ + " "@ + (if t.exists {
        "(cached)"@
    } else {
        "(not cached)"@
    }) + "\n"@ + (match t.schema {
        Some(columns) => "    Columns:\n"@ + column_lines(columns@, columns@.len()),
        None => Seq::empty(),
    }) + "\n"@
}

/// The parts of a listing that describe the first `n` tables.
pub open spec fn table_entries(tables: Seq<TableInfo>, n: nat) -> Seq<char>
    decreases n,
{
    if n == 0 {
        Seq::empty()
    } else {
        table_entries(tables, (n - 1) as nat) + table_entry(tables[n - 1])
    }
}

/// The closing lines of a listing: which command fills which table.
pub open spec fn listing_footer() -> Seq<char> {
    "To cache a table, run the corresponding command:\n"@ + "  aa llms           -> llms\n"@
        + "  aa text-to-image  -> text_to_image\n"@ + "  aa image-editing  -> image_editing\n"@
        + "  aa text-to-speech -> text_to_speech\n"@ + "  aa text-to-video  -> text_to_video\n"@
        + "  aa image-to-video -> image_to_video\n"@
}

/// The whole listing of `tables`.
pub open spec fn tables_list_text(tables: Seq<TableInfo>) -> Seq<char> {
    "Available tables:\n\n"@ + table_entries(tables, tables.len()) + listing_footer()
}

/// Appends [`table_entry`].
fn push_table_entry(out: &mut String, table: &TableInfo)
    ensures
        final(out)@ == old(out)@ + table_entry(*table),
{
    let mut entry = String::new();
    entry.append("  ");
    entry.append(table.name.as_str());
    entry.append(" ");
    if table.exists {
        entry.append("(cached)");
    } else {
        entry.append("(not cached)");
    }
    entry.append("\n");
    match &table.schema {
        Some(columns) => {
            entry.append("    Columns:\n");
            let ghost start = entry@;
            let mut j: usize = 0;
            while j < columns.len()
                invariant
                    j <= columns.len(),
                    entry@ == start + column_lines(columns@, j as nat),
                decreases columns.len() - j,
            {
                push_column_line(&mut entry, &columns[j]);
                j += 1;
            }
        },
        None => {},
    }
    entry.append("\n");
    assert(entry@ =~= table_entry(*table));
    out.append(entry.as_str());
}

/// Appends [`column_line`].
fn push_column_line(out: &mut String, c: &ColumnInfo)
    ensures
        final(out)@ == old(out)@ + column_line(*c),
{
    let mut line = String::new();
    line.append("      - ");
    line.append(c.name.as_str());
    line.append(" ");
    line.append(c.data_type.as_str());
    line.append(" ");
    if c.nullable {
        line.append("NULL");
    } else {
        line.append("NOT NULL");
    }
    line.append("\n");
    assert(line@ =~= column_line(*c));
    out.append(line.as_str());
}

/// Formats a table listing for display.
pub fn format_tables_list(tables: &Vec<TableInfo>) -> (out: String)
    ensures
        out@ == tables_list_text(tables@),
{
    let mut out = String::new();
    out.append("Available tables:\n\n");
    let ghost head = out@;
    let mut k: usize = 0;
    while k < tables.len()
        invariant
            k <= tables.len(),
            out@ == head + table_entries(tables@, k as nat),
        decreases tables.len() - k,
    {
        push_table_entry(&mut out, &tables[k]);
        k += 1;
    }
    let mut footer = String::new();
    footer.append("To cache a table, run the corresponding command:\n");
    footer.append("  aa llms           -> llms\n");
    footer.append("  aa text-to-image  -> text_to_image\n");
    footer.append("  aa image-editing  -> image_editing\n");
    footer.append("  aa text-to-speech -> text_to_speech\n");
    footer.append("  aa text-to-video  -> text_to_video\n");
    footer.append("  aa image-to-video -> image_to_video\n");
    assert(footer@ =~= listing_footer());
    out.append(footer.as_str());
    out
}

/// A value as the engine hands it back.
pub enum SqlValue {
    /// No value.
    Null,
    /// A truth value.
    Boolean(bool),
    /// An integer of any width the engine has.
    Integer(i128),
    /// A number with a fraction.
    Real(Double),
    /// A text.
    Text(String),
    /// Anything else, already written in the engine's own notation.
    Other(String),
}

/// How a value is shown: nothing for no value, `true` or `false`, the integer as
/// it is, a number with a fraction rounded to two fractional digits, texts and
/// prepared renderings unchanged.
pub open spec fn value_text(v: SqlValue) -> Seq<char> {
    match v {
        SqlValue::Null => Seq::empty(),
        SqlValue::Boolean(b) => if b {
            "true"@
        } else {
            "false"@
        },
        SqlValue::Integer(n) => signed_decimal(n as int),
        SqlValue::Real(d) => fixed_text(d.bits, 2),
        SqlValue::Text(s) => s@,
        SqlValue::Other(s) => s@,
    }
}

/// Renders [`value_text`].
pub fn render_value(v: &SqlValue) -> (out: String)
    ensures
        out@ == value_text(*v),
{
    match v {
        SqlValue::Null => String::new(),
        SqlValue::Boolean(b) => {
            if *b {
                "true".to_owned()
            } else {
                "false".to_owned()
            }
        },
        SqlValue::Integer(n) => {
            let mut out = String::new();
            push_signed_decimal(&mut out, *n);
            out
        },
        SqlValue::Real(d) => d.render_fixed(2),
        SqlValue::Text(s) => s.clone(),
        SqlValue::Other(s) => s.clone(),
    }
}

/// The value of `row` under column `i`; a row that is too short has no value there.
pub open spec fn value_at(row: Seq<SqlValue>, i: int) -> SqlValue {
    if 0 <= i < row.len() {
        row[i]
    } else {
        SqlValue::Null
    }
}

/// Whether `cells` shows the first `width` values of `row`, one cell per column.
pub open spec fn shows(cells: Seq<String>, row: Seq<SqlValue>, width: nat) -> bool {
    &&& cells.len() == width
    &&& forall|i: int| 0 <= i < width ==> (#[trigger] cells[i])@ == value_text(value_at(row, i))
}

/// Turns what the engine returned into a result: the column names as they are, and
/// every row with one rendered cell per column, in the engine's order.
pub fn materialize(columns: Vec<String>, rows: &Vec<Vec<SqlValue>>) -> (result: QueryResult)
    ensures
        result.columns == columns,
        result.rows@.len() == rows@.len(),
        forall|r: int|
            0 <= r < rows@.len() ==> shows(
                (#[trigger] result.rows@[r])@,
                rows@[r]@,
                columns@.len(),
            ),
{
    let mut out: Vec<Vec<String>> = Vec::new();
    let mut r: usize = 0;
    while r < rows.len()
        invariant
            r <= rows.len(),
            out.len() == r,
            forall|j: int| 0 <= j < r ==> shows((#[trigger] out@[j])@, rows@[j]@, columns@.len()),
        decreases rows.len() - r,
    {
        let row = &rows[r];
        let mut cells: Vec<String> = Vec::new();
        let mut i: usize = 0;
        while i < columns.len()
            invariant
                i <= columns.len(),
                shows(cells@, row@, i as nat),
            decreases columns.len() - i,
        {
            let cell = if i < row.len() {
                render_value(&row[i])
            } else {
                String::new()
            };
            cells.push(cell);
            i += 1;
        }
        out.push(cells);
        r += 1;
    }
    QueryResult { columns, rows: out }
}

/// The step at which the engine failed.
#[derive(Debug, Clone, Copy, PartialEq, Eq, Structural)]
pub enum QueryStage {
    /// Opening the engine.
    Connect,
    /// Preparing the statement.
    Prepare,
    /// Running the statement.
    Run,
    /// Fetching a row.
    Fetch,
}

/// What is reported for an engine failure with message `msg` at `stage`. A failed
/// preparation is told apart by its message: a syntax error, an unknown table or
/// column, or anything else.
pub open spec fn failure_text(stage: QueryStage, msg: Seq<char>) -> Seq<char> {
    match stage {
        QueryStage::Connect => "DuckDB error: "@ + msg,
        QueryStage::Prepare => if contains(msg, "syntax error"@) {
            "SQL syntax error: "@ + msg
        } else if contains(msg, "does not exist"@) || contains(msg, "not found"@) {
            "Table or column not found. Use 'aa query --tables' to see available tables and columns.\nError: "@
                + msg
        } else {
            "SQL error: "@ + msg
        },
        QueryStage::Run => "Query error: "@ + msg,
        QueryStage::Fetch => "Row error: "@ + msg,
    }
}

/// The query error for an engine failure with message `msg` at `stage`.
pub fn query_failure(stage: QueryStage, msg: &str) -> (e: AppError)
    ensures
        e matches AppError::Query(text) && text@ == failure_text(stage, msg@),
{
    let mut text = String::new();
    match stage {
        QueryStage::Connect => {
            text.append("DuckDB error: ");
        },
        QueryStage::Prepare => {
            if str_contains(msg, "syntax error") {
                text.append("SQL syntax error: ");
            } else if str_contains(msg, "does not exist") || str_contains(msg, "not found") {
                text.append(
                    "Table or column not found. Use 'aa query --tables' to see available tables and columns.\nError: ",
                );
            } else {
                text.append("SQL error: ");
            }
        },
        QueryStage::Run => {
            text.append("Query error: ");
        },
        QueryStage::Fetch => {
            text.append("Row error: ");
        },
    }
    text.append(msg);
    AppError::Query(text)
}

} // verus!

//! The table of results.

use vstd::prelude::*;
use prettytable::{Row, Table};

verus! {

/// `prettytable::Table`: a table that is printed with aligned columns.
#[verifier::external_type_specification]
#[verifier::external_body]
pub struct ExTable(prettytable::Table);

/// The texts of the cells of a table, row by row: for each cell what
/// `prettytable::Cell::get_content` gives.
pub uninterp spec fn table_cells(table: Table) -> Seq<Seq<Seq<char>>>;

/// A text with each carriage return in front of a line feed taken out.
pub open spec fn unix_lines(text: Seq<char>) -> Seq<char>
    decreases text.len(),
{
    if text.len() == 0 {
        text
    } else {
        let rest = unix_lines(text.drop_first());
        if text.len() > 1 && text[0] == '\r' && text[1] == '\n' {
            rest
        } else {
            seq![text[0]] + rest
        }
    }
}

/// What a cell made from a text shows: its lines, without a line feed at the end.
pub open spec fn cell_text(text: Seq<char>) -> Seq<char> {
    let lines = unix_lines(text);
    if lines.len() > 0 && lines.last() == '\n' {
        lines.drop_last()
    } else {
        lines
    }
}

/// A text of one line is shown as it is.
pub proof fn lemma_single_line(text: Seq<char>)
    requires
        !text.contains('\n'),
    ensures
        cell_text(text) == text,
{
    lemma_unix_lines_keeps(text);
    if text.len() > 0 {
        assert(text.contains(text.last()));
    }
}

proof fn lemma_unix_lines_keeps(text: Seq<char>)
    requires
        !text.contains('\n'),
    ensures
        unix_lines(text) == text,
    decreases text.len(),
{
    if text.len() > 0 {
        let rest = text.drop_first();
        assert forall|i: int| 0 <= i < rest.len() implies rest[i] != '\n' by {
            assert(text.contains(text[i + 1]));
        }
        lemma_unix_lines_keeps(rest);
        if text.len() > 1 {
            assert(text.contains(text[1]));
        }
        assert(seq![text[0]] + rest =~= text);
    }
}

/// `prettytable::Table::new`: a table without rows.
#[verifier::external_body]
fn new_table() -> (r: Table)
    ensures
        table_cells(r) == Seq::<Seq<Seq<char>>>::empty(),
{
    Table::new()
}

/// A terminal escape sequence starts at `j`: U+001B with a bracket behind it.
pub open spec fn escape_at(text: Seq<char>, j: int) -> bool {
    0 <= j < text.len() - 1 && text[j] == '\u{1b}' && text[j + 1] == '['
}

/// No terminal escape sequence starts in a text.
pub open spec fn unescaped(text: Seq<char>) -> bool {
    forall|j: int| !(#[trigger] escape_at(text, j))
}

/// No terminal escape sequence starts in any text of a row.
pub open spec fn unescaped_row(row: Seq<Seq<char>>) -> bool {
    forall|i: int| 0 <= i < row.len() ==> unescaped(#[trigger] row[i])
}

/// `prettytable::Table::add_row` with `prettytable::Row::from`: one more row at the
/// end, with a cell for each text. A cell is made of the lines of its text. The width
/// of a line is counted with terminal escape sequences taken out, and that count may
/// fail an assertion inside such a sequence, so no text may start one.
#[verifier::external_body]
fn add_row(table: &mut Table, cells: Vec<String>)
    requires
        unescaped_row(cells@.map_values(|c: String| c@)),
    ensures
        table_cells(*final(table)) == table_cells(*old(table)).push(
            cells@.map_values(|c: String| cell_text(c@)),
        ),
{
    table.add_row(Row::from(cells));
}

/// The result of a benchmark, its figures rounded and written out.
#[derive(Debug)]
pub struct BenchResult {
    pub name: String,
    pub size_mb: String,
    pub time_ms: String,
    pub metric: String,
    pub metric_val: String,
    /// The percentage of the peak, without its sign.
    pub peak_pct: Option<String>,
}

impl BenchResult {
    /// The texts of the result's row.
    pub open spec fn row(self) -> Seq<Seq<char>> {
        seq![
            self.name@,
            self.size_mb@,
            self.time_ms@,
            self.metric@,
            self.metric_val@,
            match self.peak_pct {
                Some(p) => p@ + "%"@,
                None => "-"@,
            },
        ]
    }

    /// The texts of the result's row.
    pub fn cells(&self) -> (r: Vec<String>)
        ensures
            r@.map_values(|c: String| c@) == self.row(),
            r@.len() == 6,
            r@[0]@ == self.name@,
            r@[1]@ == self.size_mb@,
            r@[2]@ == self.time_ms@,
            r@[3]@ == self.metric@,
            r@[4]@ == self.metric_val@,
            self.peak_pct matches Some(p) ==> r@[5]@ == p@ + "%"@,
            self.peak_pct is None ==> r@[5]@ == "-"@,
    {
        let peak = match &self.peak_pct {
            Some(p) => {
                let mut text = p.clone();
                text.append("%");
                text
            },
            None => "-".to_owned(),
        };
        let cells: Vec<String> = vec![
            self.name.clone(),
            self.size_mb.clone(),
            self.time_ms.clone(),
            self.metric.clone(),
            self.metric_val.clone(),
            peak,
        ];
        assert(cells@.map_values(|c: String| c@) =~= self.row());
        cells
    }

    /// A row starts no escape sequence exactly if none of its texts does.
    proof fn lemma_unescaped_row(self)
        ensures
            unescaped_row(self.row()) == {
                &&& unescaped(self.name@)
                &&& unescaped(self.size_mb@)
                &&& unescaped(self.time_ms@)
                &&& unescaped(self.metric@)
                &&& unescaped(self.metric_val@)
                &&& match self.peak_pct {
                    Some(p) => unescaped(p@ + "%"@),
                    None => true,
                }
            },
    {
        reveal_strlit("-");
        let row = self.row();
        assert(unescaped("-"@));
        assert(row[0] == self.name@);
        assert(row[1] == self.size_mb@);
        assert(row[2] == self.time_ms@);
        assert(row[3] == self.metric@);
        assert(row[4] == self.metric_val@);
        if unescaped_row(row) {
            assert(unescaped(row[0]) && unescaped(row[1]) && unescaped(row[2]) && unescaped(row[3])
                && unescaped(row[4]) && unescaped(row[5]));
        }
    }

    /// Whether the result can be put in a table: no terminal escape sequence starts in
    /// any of its texts.
    pub fn is_printable(&self) -> (r: bool)
        ensures
            r == unescaped_row(self.row()),
            r == {
                &&& unescaped(self.name@)
                &&& unescaped(self.size_mb@)
                &&& unescaped(self.time_ms@)
                &&& unescaped(self.metric@)
                &&& unescaped(self.metric_val@)
                &&& match self.peak_pct {
                    Some(p) => unescaped(p@ + "%"@),
                    None => true,
                }
            },
    {
        proof {
            self.lemma_unescaped_row();
        }
        let cells = self.cells();
        let ghost row = cells@.map_values(|c: String| c@);
        let mut i: usize = 0;
        while i < cells.len()
            invariant
                i <= cells@.len(),
                row == cells@.map_values(|c: String| c@),
                row == self.row(),
                forall|k: int| 0 <= k < i ==> unescaped(#[trigger] row[k]),
            decreases cells@.len() - i,
        {
            assert(row[i as int] == cells@[i as int]@);
            if !is_unescaped(cells[i].as_str()) {
                proof {
                    self.lemma_unescaped_row();
                }
                return false;
            }
            i = i + 1;
        }
        true
    }
}

/// Whether no terminal escape sequence starts in a text.
fn is_unescaped(text: &str) -> (r: bool)
    ensures
        r == unescaped(text@),
{
    let len: usize = text.unicode_len();
    let mut j: usize = 1;
    while j < len
        invariant
            1 <= j,
            len == text@.len(),
            j <= len || len == 0,
            forall|k: int| k < j - 1 ==> !(#[trigger] escape_at(text@, k)),
        decreases len - j,
    {
        if text.get_char(j - 1) == '\u{1b}' && text.get_char(j) == '[' {
            assert(escape_at(text@, j - 1));
            return false;
        }
        assert(!escape_at(text@, j - 1));
        j = j + 1;
    }
    true
}

/// The headings of the table.
pub open spec fn headings() -> Seq<Seq<char>> {
    seq![
        "Benchmark"@,
        "Data (MB)"@,
        "Time (ms)"@,
        "Throughput"@,
        "Value"@,
        "% of Peak"@,
    ]
}

/// The texts of a row as its cells show them.
pub open spec fn shown(row: Seq<Seq<char>>) -> Seq<Seq<char>> {
    row.map_values(|text: Seq<char>| cell_text(text))
}

/// The texts of the table for some results: the headings, and a row for each result.
pub open spec fn table_of(results: Seq<BenchResult>) -> Seq<Seq<Seq<char>>> {
    seq![headings()] + results.map_values(|r: BenchResult| shown(r.row()))
}

fn heading_cells() -> (r: Vec<String>)
    ensures
        r@.map_values(|c: String| c@) == headings(),
{
    let cells: Vec<String> = vec![
        "Benchmark".to_owned(),
        "Data (MB)".to_owned(),
        "Time (ms)".to_owned(),
        "Throughput".to_owned(),
        "Value".to_owned(),
        "% of Peak".to_owned(),
    ];
    assert(cells@.map_values(|c: String| c@) =~= headings());
    cells
}

proof fn lemma_headings_shown()
    ensures
        shown(headings()) == headings(),
        unescaped_row(headings()),
{
    reveal_strlit("Benchmark");
    reveal_strlit("Data (MB)");
    reveal_strlit("Time (ms)");
    reveal_strlit("Throughput");
    reveal_strlit("Value");
    reveal_strlit("% of Peak");
    lemma_single_line("Benchmark"@);
    lemma_single_line("Data (MB)"@);
    lemma_single_line("Time (ms)"@);
    lemma_single_line("Throughput"@);
    lemma_single_line("Value"@);
    lemma_single_line("% of Peak"@);
    assert(shown(headings()) =~= headings());
}

/// The table of results, none of which may start a terminal escape sequence.
pub fn results_table(results: &Vec<BenchResult>) -> (r: Table)
    requires
        forall|i: int| 0 <= i < results@.len() ==> unescaped_row(#[trigger] results@[i].row()),
    ensures
        table_cells(r) == table_of(results@),
        table_cells(r).len() == results@.len() + 1,
        table_cells(r)[0] == seq![
            "Benchmark"@,
            "Data (MB)"@,
            "Time (ms)"@,
            "Throughput"@,
            "Value"@,
            "% of Peak"@,
        ],
        // Each result has a row of its own, in the order of the results.
        forall|i: int|
            0 <= i < results@.len() ==> {
                let row = #[trigger] table_cells(r)[i + 1];
                &&& row.len() == 6
                &&& row[0] == cell_text(results@[i].name@)
                &&& row[1] == cell_text(results@[i].size_mb@)
                &&& row[2] == cell_text(results@[i].time_ms@)
                &&& row[3] == cell_text(results@[i].metric@)
                &&& row[4] == cell_text(results@[i].metric_val@)
                &&& row[5] == match results@[i].peak_pct {
                    Some(p) => cell_text(p@ + "%"@),
                    None => "-"@,
                }
            },
{
    let mut table = new_table();
    let header = heading_cells();
    proof {
        lemma_headings_shown();
        assert(header@.map_values(|c: String| cell_text(c@)) =~= shown(
            header@.map_values(|c: String| c@),
        ));
    }
    add_row(&mut table, header);
    assert(table_cells(table) =~= table_of(results@.take(0)));
    let count: usize = results.len();
    for i in 0..count
        invariant
            count == results@.len(),
            table_cells(table) == table_of(results@.take(i as int)),
            forall|k: int| 0 <= k < results@.len() ==> unescaped_row(#[trigger] results@[k].row()),
    {
        let cells = results[i].cells();
        proof {
            assert(cells@.map_values(|c: String| cell_text(c@)) =~= shown(
                cells@.map_values(|c: String| c@),
            ));
        }
        add_row(&mut table, cells);
        assert(table_cells(table) =~= table_of(results@.take(i + 1)));
    }
    assert(results@.take(count as int) =~= results@);
    proof {
        assert forall|i: int| 0 <= i < results@.len() implies {
            let row = #[trigger] table_cells(table)[i + 1];
            &&& row.len() == 6
            &&& row[0] == cell_text(results@[i].name@)
            &&& row[1] == cell_text(results@[i].size_mb@)
            &&& row[2] == cell_text(results@[i].time_ms@)
            &&& row[3] == cell_text(results@[i].metric@)
            &&& row[4] == cell_text(results@[i].metric_val@)
            &&& row[5] == match results@[i].peak_pct {
                Some(p) => cell_text(p@ + "%"@),
                None => "-"@,
            }
        } by {
            law_row_shows_the_result(results@, i);
        }
    }
    table
}

/// Every row of the table has a cell under each heading.
pub proof fn law_rows_match_the_headings(results: Seq<BenchResult>, i: int)
    requires
        0 <= i <= results.len(),
    ensures
        table_of(results).len() == results.len() + 1,
        table_of(results)[i].len() == headings().len(),
{
}

/// The row of a result shows its name, size, time, metric and value, each in its column;
/// and of a result with a percentage, whatever else it holds, it shows in the last column
/// that percentage with a sign behind it.
pub proof fn law_row_shows_the_result(results: Seq<BenchResult>, i: int)
    requires
        0 <= i < results.len(),
    ensures
        table_of(results).len() == results.len() + 1,
        table_of(results)[i + 1].len() == 6,
        table_of(results)[i + 1][0] == cell_text(results[i].name@),
        table_of(results)[i + 1][1] == cell_text(results[i].size_mb@),
        table_of(results)[i + 1][2] == cell_text(results[i].time_ms@),
        table_of(results)[i + 1][3] == cell_text(results[i].metric@),
        table_of(results)[i + 1][4] == cell_text(results[i].metric_val@),
        table_of(results)[i + 1][5] == match results[i].peak_pct {
            Some(p) => cell_text(p@ + "%"@),
            None => "-"@,
        },
        results[i].peak_pct matches Some(p) ==> !p@.contains('\n') ==> table_of(results)[i
            + 1][5] == p@ + "%"@,
{
    reveal_strlit("-");
    lemma_single_line("-"@);
    if let Some(p) = results[i].peak_pct {
        reveal_strlit("%");
        if !p@.contains('\n') {
            let text = p@ + "%"@;
            assert forall|k: int| 0 <= k < text.len() implies text[k] != '\n' by {
                if k < p@.len() {
                    assert(p@.contains(p@[k]));
                }
            }
            lemma_single_line(text);
        }
    }
}

/// A cell shows a text of one line as it is, and of any text nothing that the text does
/// not hold.
pub proof fn law_cell_shows_the_text(text: Seq<char>, k: int)
    ensures
        !text.contains('\n') ==> cell_text(text) == text,
        cell_text(text).len() <= text.len(),
        0 <= k < cell_text(text).len() ==> text.contains(cell_text(text)[k]),
{
    if !text.contains('\n') {
        lemma_single_line(text);
    }
    lemma_unix_lines_from_text(text);
    if 0 <= k < cell_text(text).len() {
        assert(cell_text(text)[k] == unix_lines(text)[k]);
        assert(text.contains(unix_lines(text)[k]));
    }
}

proof fn lemma_unix_lines_from_text(text: Seq<char>)
    ensures
        unix_lines(text).len() <= text.len(),
        forall|k: int|
            0 <= k < unix_lines(text).len() ==> text.contains(#[trigger] unix_lines(text)[k]),
    decreases text.len(),
{
    if text.len() > 0 {
        let rest = text.drop_first();
        lemma_unix_lines_from_text(rest);
        let lines = unix_lines(text);
        let tail = unix_lines(rest);
        assert forall|k: int| 0 <= k < lines.len() implies text.contains(#[trigger] lines[k]) by {
            if lines[k] == text[0] {
                assert(text.contains(text[0]));
            } else {
                let j = if lines.len() == tail.len() {
                    k
                } else {
                    k - 1
                };
                assert(lines[k] == tail[j]);
                let m = choose|m: int| 0 <= m < rest.len() && rest[m] == tail[j];
                assert(text[m + 1] == lines[k]);
            }
        }
    }
}

/// A text may be put in a cell exactly if nowhere in it U+001B stands right before a
/// bracket.
pub proof fn law_unescaped_texts(text: Seq<char>)
    ensures
        unescaped(text) <==> forall|j: int|
            0 <= j && j + 1 < text.len() && #[trigger] text[j] == '\u{1b}' ==> text[j + 1] != '[',
{
    if !unescaped(text) {
        let j = choose|j: int| #[trigger] escape_at(text, j);
        assert(text[j] == '\u{1b}');
    } else {
        assert forall|j: int|
            0 <= j && j + 1 < text.len() && #[trigger] text[j] == '\u{1b}' implies text[j + 1]
            != '[' by {
            assert(!escape_at(text, j));
        }
    }
}

/// A result without a peak shows a dash in the last column.
pub proof fn law_no_peak_is_a_dash(results: Seq<BenchResult>, i: int)
    requires
        0 <= i < results.len(),
        results[i].peak_pct is None,
    ensures
        table_of(results)[i + 1].last() == "-"@,
{
    reveal_strlit("-");
    lemma_single_line("-"@);
}

} // verus!

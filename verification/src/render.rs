use vstd::prelude::*;
use crate::text::{
    decimal, join, joined, lemma_views_push, pad_left, pad_right, push_decimal, push_padded_left,
    push_padded_right, push_signed_decimal, signed_decimal, views,
};

verus! {

/// The kind of datum that a column holds.
#[derive(Clone, Copy, Debug, PartialEq, Eq)]
pub enum DatumType {
    Bit,
    Tinyint,
    Smallint,
    Integer,
    Bigint,
    Float,
    Double,
    Decimal,
    String,
    Timestamp,
    Date,
    Time,
    Json,
}

impl DatumType {
    /// The text of `name`.
    pub open spec fn spec_name(self) -> Seq<char> {
        match self {
            DatumType::Bit => "Bit"@,
            DatumType::Tinyint => "Tinyint"@,
            DatumType::Smallint => "Smallint"@,
            DatumType::Integer => "Integer"@,
            DatumType::Bigint => "Bigint"@,
            DatumType::Float => "Float"@,
            DatumType::Double => "Double"@,
            DatumType::Decimal => "Decimal"@,
            DatumType::String => "String"@,
            DatumType::Timestamp => "Timestamp"@,
            DatumType::Date => "Date"@,
            DatumType::Time => "Time"@,
            DatumType::Json => "Json"@,
        }
    }

    /// The name under which the datum type is printed.
    pub fn name(&self) -> (s: &'static str)
        ensures
            s@ == self.spec_name(),
    {
        match self {
            DatumType::Bit => "Bit",
            DatumType::Tinyint => "Tinyint",
            DatumType::Smallint => "Smallint",
            DatumType::Integer => "Integer",
            DatumType::Bigint => "Bigint",
            DatumType::Float => "Float",
            DatumType::Double => "Double",
            DatumType::Decimal => "Decimal",
            DatumType::String => "String",
            DatumType::Timestamp => "Timestamp",
            DatumType::Date => "Date",
            DatumType::Time => "Time",
            DatumType::Json => "Json",
        }
    }
}

/// What is known of one column of a result set.
#[derive(Clone, Debug, PartialEq, Eq)]
pub struct ColumnSchema {
    pub name: String,
    pub datum_type: DatumType,
    /// The type tag that the data source itself gives the column.
    pub odbc_type: String,
    pub nullable: bool,
}

/// One value of a row. A missing value is the `None` of `Option<Value>`.
#[derive(Clone, Debug, PartialEq, Eq)]
pub enum Value {
    Bit(bool),
    /// An integer of any width up to 64 bits.
    Integer(i64),
    /// A character string; dates and times come in their text form.
    Text(String),
    /// A value that is written to every output as it stands: a number with a
    /// fraction in its decimal form, or a JSON document.
    Literal(String),
}

/// Why a row could not be rendered.
#[derive(Clone, Copy, Debug, PartialEq, Eq)]
pub enum RenderError {
    /// The JSON serializer refused a value.
    Serialization,
}

impl RenderError {
    /// A short description of the failure.
    pub fn message(&self) -> (s: String)
        ensures
            s@ == "failed to serialize JSON"@,
    {
        String::from_str("failed to serialize JSON")
    }
}

/// A truth value as text.
pub open spec fn bool_text(b: bool) -> Seq<char> {
    if b {
        "true"@
    } else {
        "false"@
    }
}

fn bool_name(b: bool) -> (s: &'static str)
    ensures
        s@ == bool_text(b),
{
    if b {
        "true"
    } else {
        "false"
    }
}

/// The header line of a schema listing.
pub open spec fn schema_header_text() -> Seq<char> {
    "column name\tdatum type\tODBC type\tnullable"@
}

/// The line of a schema listing for one column: name, datum type, source type
/// tag and nullability, separated by tabs.
pub open spec fn schema_line_text(c: ColumnSchema) -> Seq<char> {
    c.name@ + seq!['\t'] + c.datum_type.spec_name() + seq!['\t'] + c.odbc_type@ + seq!['\t']
        + bool_text(c.nullable)
}

/// The lines of a schema listing: the header, then one line per column.
pub open spec fn schema_lines(columns: Seq<ColumnSchema>) -> Seq<Seq<char>> {
    seq![schema_header_text()] + Seq::new(columns.len(), |k: int| schema_line_text(columns[k]))
}

/// The line of a schema listing for one column.
pub fn schema_line(c: &ColumnSchema) -> (s: String)
    ensures
        s@ == schema_line_text(*c),
{
    let mut s = String::new();
    s.append(c.name.as_str());
    s.push('\t');
    s.append(c.datum_type.name());
    s.push('\t');
    s.append(c.odbc_type.as_str());
    s.push('\t');
    s.append(bool_name(c.nullable));
    assert(s@ =~= schema_line_text(*c));
    s
}

/// Renders the schema of a result set. No row is needed for it.
pub fn render_schema(columns: &Vec<ColumnSchema>) -> (lines: Vec<String>)
    ensures
        views(lines@) == schema_lines(columns@),
{
    let mut lines: Vec<String> = Vec::new();
    lines.push(String::from_str("column name\tdatum type\tODBC type\tnullable"));
    let mut k: usize = 0;
    assert(views(lines@) =~= seq![schema_header_text()] + Seq::new(
        0,
        |j: int| schema_line_text(columns@[j]),
    ));
    while k < columns.len()
        invariant
            k <= columns.len(),
            views(lines@) == seq![schema_header_text()] + Seq::new(
                k as nat,
                |j: int| schema_line_text(columns@[j]),
            ),
        decreases columns.len() - k,
    {
        let line = schema_line(&columns[k]);
        proof {
            lemma_views_push(lines@, line);
        }
        lines.push(line);
        k += 1;
        assert(views(lines@) =~= seq![schema_header_text()] + Seq::new(
            k as nat,
            |j: int| schema_line_text(columns@[j]),
        ));
    }
    lines
}

/// The text of a value in the plain outputs.
pub open spec fn value_text(v: Value) -> Seq<char> {
    match v {
        Value::Bit(b) => bool_text(b),
        Value::Integer(i) => signed_decimal(i as int),
        Value::Text(s) => s@,
        Value::Literal(s) => s@,
    }
}

/// The text of a cell in the plain outputs: a missing value reads `NULL`.
pub open spec fn cell_text(c: Option<Value>) -> Seq<char> {
    match c {
        None => "NULL"@,
        Some(v) => value_text(v),
    }
}

fn push_cell(s: &mut String, c: &Option<Value>)
    ensures
        final(s)@ == old(s)@ + cell_text(*c),
{
    match c {
        None => s.append("NULL"),
        Some(Value::Bit(b)) => s.append(bool_name(*b)),
        Some(Value::Integer(i)) => push_signed_decimal(s, *i),
        Some(Value::Text(t)) => s.append(t.as_str()),
        Some(Value::Literal(t)) => s.append(t.as_str()),
    }
}

/// The text that Rust's `Debug` formatting gives a string slice: the text between
/// double quotes, with Rust's escapes.
pub uninterp spec fn debug_string_literal(s: Seq<char>) -> Seq<char>;

/// `Debug` formatting of a string slice, by `format!`. What it returns depends on
/// the text alone.
#[verifier::external_body]
fn debug_quoted(s: &str) -> (r: String)
    ensures
        r@ == debug_string_literal(s@),
{
    format!("{:?}", s)
}

/// The text of a value in the debug output, with `quoted` for the quoted form of
/// a character string: the variant's name, and in brackets what it holds.
pub open spec fn debug_value_text_with(v: Value, quoted: Seq<char>) -> Seq<char> {
    match v {
        Value::Bit(b) => "Bit("@ + bool_text(b) + seq![')'],
        Value::Integer(i) => "Integer("@ + signed_decimal(i as int) + seq![')'],
        Value::Text(_) => "Text("@ + quoted + seq![')'],
        Value::Literal(s) => "Literal("@ + s@ + seq![')'],
    }
}

/// The text of a cell in the debug output, with `quoted` for the quoted form of
/// a character string: `None` marks a missing value.
pub open spec fn debug_cell_text_with(c: Option<Value>, quoted: Seq<char>) -> Seq<char> {
    match c {
        None => "None"@,
        Some(v) => "Some("@ + debug_value_text_with(v, quoted) + seq![')'],
    }
}

/// The text of a cell in the debug output.
pub open spec fn debug_cell_text(c: Option<Value>) -> Seq<char> {
    match c {
        Some(Value::Text(s)) => debug_cell_text_with(c, debug_string_literal(s@)),
        _ => debug_cell_text_with(c, Seq::empty()),
    }
}

/// The debug texts of the cells of a row, one for each cell, in order.
pub open spec fn debug_cells(row: Seq<Option<Value>>) -> Seq<Seq<char>> {
    Seq::new(row.len(), |k: int| debug_cell_text(row[k]))
}

/// The line of the debug output for a row: its cells between square brackets,
/// separated by a comma and a space.
pub open spec fn debug_line_text(row: Seq<Option<Value>>) -> Seq<char> {
    seq!['['] + joined(debug_cells(row), ", "@) + seq![']']
}

/// The debug text of one cell, given the quoted form of its character string.
/// For any other cell `quoted` is not looked at.
pub fn debug_cell_with(c: &Option<Value>, quoted: &str) -> (t: String)
    ensures
        t@ == debug_cell_text_with(*c, quoted@),
{
    let mut t = String::new();
    match c {
        None => {
            t.append("None");
        },
        Some(v) => {
            t.append("Some(");
            match v {
                Value::Bit(b) => {
                    t.append("Bit(");
                    t.append(bool_name(*b));
                },
                Value::Integer(i) => {
                    t.append("Integer(");
                    push_signed_decimal(&mut t, *i);
                },
                Value::Text(_) => {
                    t.append("Text(");
                    t.append(quoted);
                },
                Value::Literal(s) => {
                    t.append("Literal(");
                    t.append(s.as_str());
                },
            }
            t.push(')');
            t.push(')');
        },
    }
    assert(t@ =~= debug_cell_text_with(*c, quoted@));
    t
}

/// The debug text of one cell.
pub fn debug_cell(c: &Option<Value>) -> (t: String)
    ensures
        t@ == debug_cell_text(*c),
{
    match c {
        Some(Value::Text(s)) => {
            let quoted = debug_quoted(s.as_str());
            debug_cell_with(c, quoted.as_str())
        },
        _ => debug_cell_with(c, ""),
    }
}

/// Renders a row for the debug output: every cell in the order of the columns,
/// a missing value as `None`. There is no header.
pub fn debug_line(row: &Vec<Option<Value>>) -> (line: String)
    ensures
        line@ == debug_line_text(row@),
{
    let mut cells: Vec<String> = Vec::new();
    let mut k: usize = 0;
    assert(views(cells@) =~= debug_cells(row@).take(0));
    while k < row.len()
        invariant
            k <= row.len(),
            views(cells@) == debug_cells(row@).take(k as int),
        decreases row.len() - k,
    {
        let t = debug_cell(&row[k]);
        proof {
            lemma_views_push(cells@, t);
        }
        cells.push(t);
        k += 1;
        assert(views(cells@) =~= debug_cells(row@).take(k as int));
    }
    assert(debug_cells(row@).take(k as int) =~= debug_cells(row@));
    let mut line = String::new();
    line.push('[');
    let body = join(&cells, ", ");
    line.append(body.as_str());
    line.push(']');
    assert(line@ =~= debug_line_text(row@));
    line
}

/// The length of the longest name, 0 where there is none.
pub open spec fn max_width(names: Seq<Seq<char>>) -> nat
    decreases names.len(),
{
    if names.len() == 0 {
        0
    } else {
        let rest = max_width(names.drop_last());
        if names.last().len() > rest {
            names.last().len()
        } else {
            rest
        }
    }
}

/// No name is longer than the width, and where there is a name, one is as long.
pub proof fn lemma_max_width(names: Seq<Seq<char>>)
    ensures
        forall|k: int| 0 <= k < names.len() ==> (#[trigger] names[k]).len() <= max_width(names),
        names.len() > 0 ==> exists|k: int|
            0 <= k < names.len() && (#[trigger] names[k]).len() == max_width(names),
        names.len() == 0 ==> max_width(names) == 0,
    decreases names.len(),
{
    if names.len() > 0 {
        let init = names.drop_last();
        lemma_max_width(init);
        assert forall|k: int| 0 <= k < names.len() implies (#[trigger] names[k]).len()
            <= max_width(names) by {
            if k < init.len() {
                assert(names[k] == init[k]);
            }
        }
        if names.last().len() > max_width(init) || init.len() == 0 {
            assert(names[names.len() - 1].len() == max_width(names));
        } else {
            let k = choose|k: int| 0 <= k < init.len() && (#[trigger] init[k]).len() == max_width(init);
            assert(names[k] == init[k]);
        }
    }
}

/// One line of the vertical output: the row's index in three columns, the
/// column's name padded to `width`, and the cell.
pub open spec fn vertical_line(index: nat, name: Seq<char>, width: nat, cell: Option<Value>) -> Seq<
    char,
> {
    pad_right(decimal(index), 3) + seq![' '] + pad_right(name, width) + seq![' '] + cell_text(cell)
}

/// One line of the output of a script: the statement's index, right-aligned in
/// three columns, then the line of the vertical output.
pub open spec fn script_line(
    statement: nat,
    index: nat,
    name: Seq<char>,
    width: nat,
    cell: Option<Value>,
) -> Seq<char> {
    pad_left(decimal(statement), 3) + seq![' '] + vertical_line(index, name, width, cell)
}

/// A line of the vertical output, behind the statement's index where there is one.
pub open spec fn prefixed_line(
    statement: Option<u64>,
    index: nat,
    name: Seq<char>,
    width: nat,
    cell: Option<Value>,
) -> Seq<char> {
    match statement {
        Some(q) => script_line(q as nat, index, name, width, cell),
        None => vertical_line(index, name, width, cell),
    }
}

/// The smaller of two lengths.
pub open spec fn min_len(a: int, b: int) -> int {
    if a < b {
        a
    } else {
        b
    }
}

/// The lines of one row in vertical form: a blank line first unless the row is
/// the first, then one line for each cell that has a column.
pub open spec fn vertical_row_lines(
    statement: Option<u64>,
    index: nat,
    names: Seq<Seq<char>>,
    row: Seq<Option<Value>>,
) -> Seq<Seq<char>> {
    let cells = Seq::new(
        min_len(names.len() as int, row.len() as int) as nat,
        |k: int| prefixed_line(statement, index, names[k], max_width(names), row[k]),
    );
    if index > 0 {
        seq![Seq::<char>::empty()] + cells
    } else {
        cells
    }
}

/// What separates the output of a statement of a script from that of the
/// statement before it.
pub open spec fn opening_lines_text(statement: Option<u64>) -> Seq<Seq<char>> {
    match statement {
        Some(q) => if q > 0 {
            seq![Seq::<char>::empty()]
        } else {
            Seq::empty()
        },
        None => Seq::empty(),
    }
}

/// Renders the rows of one result set in vertical form, one row at a time.
pub struct VerticalRenderer {
    names: Vec<String>,
    width: usize,
    statement: Option<u64>,
    next_row: u64,
}

impl VerticalRenderer {
    /// The width is that of the longest column name.
    pub closed spec fn wf(&self) -> bool {
        self.width == max_width(views(self.names@))
    }

    /// The column names of the result set.
    pub closed spec fn names(&self) -> Seq<Seq<char>> {
        views(self.names@)
    }

    /// The index that the next row gets.
    pub closed spec fn next_row(&self) -> nat {
        self.next_row as nat
    }

    /// The index of the statement of a script, where the rows belong to one.
    pub closed spec fn statement(&self) -> Option<u64> {
        self.statement
    }

    /// The padding width.
    pub closed spec fn spec_width(&self) -> nat {
        self.width as nat
    }

    /// A renderer for a result set with the columns `names`, that starts at row 0.
    /// With `statement` every line begins with that index.
    pub fn new(names: Vec<String>, statement: Option<u64>) -> (r: VerticalRenderer)
        ensures
            r.wf(),
            r.names() == views(names@),
            r.next_row() == 0,
            r.statement() == statement,
            r.spec_width() == max_width(views(names@)),
    {
        let mut width: usize = 0;
        let mut k: usize = 0;
        while k < names.len()
            invariant
                k <= names.len(),
                width == max_width(views(names@).take(k as int)),
            decreases names.len() - k,
        {
            assert(views(names@).take(k as int + 1).drop_last() =~= views(names@).take(k as int));
            let n = names[k].as_str().unicode_len();
            if n > width {
                width = n;
            }
            k += 1;
        }
        assert(views(names@).take(k as int) =~= views(names@));
        VerticalRenderer { names, width, statement, next_row: 0 }
    }

    /// The padding width: the length of the longest column name.
    pub fn width(&self) -> (w: usize)
        requires
            self.wf(),
        ensures
            w == max_width(self.names()),
            w == self.spec_width(),
    {
        self.width
    }

    /// The index that the next row gets.
    pub fn next_index(&self) -> (index: u64)
        ensures
            index == self.next_row(),
    {
        self.next_row
    }

    /// The lines before the first row: a blank line where the rows belong to a
    /// statement of a script that is not its first.
    pub fn opening_lines(&self) -> (lines: Vec<String>)
        ensures
            views(lines@) == opening_lines_text(self.statement()),
    {
        let mut lines: Vec<String> = Vec::new();
        match self.statement {
            Some(q) => {
                if q > 0 {
                    let blank = String::new();
                    proof {
                        lemma_views_push(lines@, blank);
                    }
                    lines.push(blank);
                }
            },
            None => {},
        }
        assert(views(lines@) =~= opening_lines_text(self.statement));
        lines
    }

    /// Counts a row that is written elsewhere.
    pub fn skip_row(&mut self)
        requires
            old(self).wf(),
            old(self).next_row() < u64::MAX,
        ensures
            final(self).wf(),
            final(self).names() == old(self).names(),
            final(self).statement() == old(self).statement(),
            final(self).next_row() == old(self).next_row() + 1,
    {
        self.next_row = self.next_row + 1;
    }

    /// The lines of the next row. Rows are counted from 0, one by one, for as
    /// long as the renderer lives.
    pub fn render_row(&mut self, row: &Vec<Option<Value>>) -> (lines: Vec<String>)
        requires
            old(self).wf(),
            old(self).next_row() < u64::MAX,
        ensures
            final(self).wf(),
            final(self).names() == old(self).names(),
            final(self).statement() == old(self).statement(),
            final(self).next_row() == old(self).next_row() + 1,
            views(lines@) == vertical_row_lines(
                old(self).statement(),
                old(self).next_row(),
                old(self).names(),
                row@,
            ),
    {
        let index = self.next_row;
        let mut lines: Vec<String> = Vec::new();
        if index > 0 {
            let blank = String::new();
            proof {
                lemma_views_push(lines@, blank);
            }
            lines.push(blank);
        }
        let ghost lead = views(lines@);
        let ghost names = views(self.names@);
        let ghost width = self.width as nat;
        let count = if self.names.len() < row.len() {
            self.names.len()
        } else {
            row.len()
        };
        let mut k: usize = 0;
        assert(views(lines@) =~= lead + Seq::new(
            0,
            |j: int| prefixed_line(self.statement, index as nat, names[j], width, row@[j]),
        ));
        while k < count
            invariant
                k <= count,
                count == min_len(self.names.len() as int, row.len() as int),
                names == views(self.names@),
                width == self.width,
                views(lines@) == lead + Seq::new(
                    k as nat,
                    |j: int| prefixed_line(self.statement, index as nat, names[j], width, row@[j]),
                ),
            decreases count - k,
        {
            let mut line = String::new();
            match self.statement {
                Some(q) => {
                    let mut number = String::new();
                    push_decimal(&mut number, q);
                    push_padded_left(&mut line, number.as_str(), 3);
                    line.push(' ');
                },
                None => {},
            }
            let mut number = String::new();
            push_decimal(&mut number, index);
            push_padded_right(&mut line, number.as_str(), 3);
            line.push(' ');
            push_padded_right(&mut line, self.names[k].as_str(), self.width);
            line.push(' ');
            push_cell(&mut line, &row[k]);
            assert(line@ =~= prefixed_line(
                self.statement,
                index as nat,
                names[k as int],
                width,
                row@[k as int],
            ));
            proof {
                lemma_views_push(lines@, line);
            }
            lines.push(line);
            k += 1;
            assert(views(lines@) =~= lead + Seq::new(
                k as nat,
                |j: int| prefixed_line(self.statement, index as nat, names[j], width, row@[j]),
            ));
        }
        self.next_row = index + 1;
        lines
    }
}

} // verus!

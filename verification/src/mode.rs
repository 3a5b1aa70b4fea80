use vstd::prelude::*;
use crate::avro::{
    codec_choice, make_avro_configuration, make_codec, reformat_choice, timestamp_choice,
    AvroConfiguration,
};
use crate::json::{json_array, json_array_line, json_cells, needs_serializer};
use crate::query::{inline_text, Query, Request};
use crate::executor::Phase;
use crate::render::{
    debug_line, debug_line_text, vertical_row_lines, RenderError, Value, VerticalRenderer,
};
use crate::text::{lemma_views_push, views};

verus! {

/// The output that an invocation asks for. It is chosen once.
#[derive(Clone, Debug, PartialEq, Eq)]
pub enum OutputMode {
    Schema,
    Debug,
    Vertical,
    JsonArray,
    AvroRecord {
        show_schema_only: bool,
        deflate: bool,
        reformat_json: bool,
        reformat_json_pretty: bool,
        timestamp_millis: bool,
        schema_name: String,
    },
}

/// The modes that print the columns alone and read no row.
pub open spec fn is_schema_only(mode: OutputMode) -> bool {
    mode is Schema || (mode matches OutputMode::AvroRecord { show_schema_only, .. }
        && show_schema_only)
}

/// The Avro options that a mode holds, codec included.
pub open spec fn has_configuration(mode: OutputMode, c: Option<AvroConfiguration>) -> bool {
    match mode {
        OutputMode::AvroRecord {
            deflate,
            reformat_json,
            reformat_json_pretty,
            timestamp_millis,
            schema_name,
            ..
        } => c is Some && c.unwrap().reformat_json == reformat_choice(
            reformat_json,
            reformat_json_pretty,
        ) && c.unwrap().timestamp_format == timestamp_choice(timestamp_millis)
            && c.unwrap().schema_name@ == schema_name@ && c.unwrap().codec == codec_choice(
            deflate,
        ),
        _ => c is None,
    }
}

impl OutputMode {
    /// Whether the mode prints the columns alone.
    pub fn schema_only(&self) -> (b: bool)
        ensures
            b == is_schema_only(*self),
    {
        match self {
            OutputMode::Schema => true,
            OutputMode::AvroRecord { show_schema_only, .. } => *show_schema_only,
            _ => false,
        }
    }

    /// The options of the Avro output, for the Avro mode; none for the others.
    pub fn avro_configuration(&self) -> (c: Option<AvroConfiguration>)
        ensures
            has_configuration(*self, c),
    {
        match self {
            OutputMode::AvroRecord {
                deflate,
                reformat_json,
                reformat_json_pretty,
                timestamp_millis,
                schema_name,
                ..
            } => {
                let name = schema_name.clone();
                Some(
                    make_avro_configuration(
                        *reformat_json,
                        *reformat_json_pretty,
                        *timestamp_millis,
                        name,
                    ).with_codec(make_codec(*deflate)),
                )
            },
            _ => None,
        }
    }

    /// The request for a query in this mode: for the columns alone where the mode
    /// prints nothing else, for the rows otherwise.
    pub fn request(&self, query: Query) -> (r: Request)
        ensures
            r.text == inline_text(query.text),
            r.executor.wf(),
            r.executor.spec_phase() == Phase::Idle,
            r.executor.spec_schema_only() == is_schema_only(*self),
            r.executor.spec_parameters() == views(query.parameters@),
    {
        if self.schema_only() {
            query.schema()
        } else {
            query.execute()
        }
    }
}

/// The text outputs that are written row by row.
#[derive(Clone, Copy, Debug, PartialEq, Eq, Structural)]
pub enum RowFormat {
    Debug,
    Vertical,
    JsonArray,
}

/// The lines of the row with the given index, in the given format.
pub open spec fn rendered_row(
    format: RowFormat,
    index: nat,
    names: Seq<Seq<char>>,
    row: Seq<Option<Value>>,
) -> Seq<Seq<char>> {
    match format {
        RowFormat::Debug => seq![debug_line_text(row)],
        RowFormat::Vertical => vertical_row_lines(None, index, names, row),
        RowFormat::JsonArray => seq![json_array(json_cells(row))],
    }
}

/// Renders the rows of one result set in one format, as they come.
pub struct RowRenderer {
    format: RowFormat,
    vertical: VerticalRenderer,
}

impl RowRenderer {
    /// The row counter and the padding width are in order.
    pub closed spec fn wf(&self) -> bool {
        self.vertical.wf() && self.vertical.statement() is None
    }

    /// The format in which the rows are written.
    pub closed spec fn format(&self) -> RowFormat {
        self.format
    }

    /// The column names of the result set.
    pub closed spec fn names(&self) -> Seq<Seq<char>> {
        self.vertical.names()
    }

    /// The number of rows rendered so far, which is the index of the next.
    pub closed spec fn rows(&self) -> nat {
        self.vertical.next_row()
    }

    /// The number of rows rendered so far.
    pub fn row_count(&self) -> (n: u64)
        requires
            self.wf(),
        ensures
            n == self.rows(),
    {
        self.vertical.next_index()
    }

    /// The renderer for a mode and the column names of a result set; none for a
    /// mode that writes no text row by row.
    pub fn new(mode: &OutputMode, names: Vec<String>) -> (r: Option<RowRenderer>)
        ensures
            (*mode is Debug || *mode is Vertical || *mode is JsonArray) <==> r is Some,
            r matches Some(renderer) ==> {
                &&& renderer.wf()
                &&& renderer.rows() == 0
                &&& renderer.names() == views(names@)
                &&& (*mode is Debug ==> renderer.format() == RowFormat::Debug)
                &&& (*mode is Vertical ==> renderer.format() == RowFormat::Vertical)
                &&& (*mode is JsonArray ==> renderer.format() == RowFormat::JsonArray)
            },
    {
        let format = match mode {
            OutputMode::Debug => RowFormat::Debug,
            OutputMode::Vertical => RowFormat::Vertical,
            OutputMode::JsonArray => RowFormat::JsonArray,
            _ => {
                return None;
            },
        };
        Some(RowRenderer { format, vertical: VerticalRenderer::new(names, None) })
    }

    /// The lines of the next row. A row fails only in the JSON format, and only
    /// where the serializer refuses one of its character strings; a row that
    /// failed is not counted.
    pub fn render_row(&mut self, row: &Vec<Option<Value>>) -> (r: Result<Vec<String>, RenderError>)
        requires
            old(self).wf(),
            old(self).rows() < u64::MAX,
        ensures
            final(self).wf(),
            final(self).format() == old(self).format(),
            final(self).names() == old(self).names(),
            r matches Ok(lines) ==> views(lines@) == rendered_row(
                old(self).format(),
                old(self).rows(),
                old(self).names(),
                row@,
            ) && final(self).rows() == old(self).rows() + 1,
            r is Err ==> old(self).format() == RowFormat::JsonArray && final(self).rows() == old(
                self,
            ).rows(),
            old(self).format() != RowFormat::JsonArray ==> r is Ok,
            (forall|k: int| 0 <= k < row.len() ==> !needs_serializer(#[trigger] row@[k])) ==> r is Ok,
    {
        match self.format {
            RowFormat::Vertical => Ok(self.vertical.render_row(row)),
            RowFormat::Debug => {
                let line = debug_line(row);
                let mut lines: Vec<String> = Vec::new();
                proof {
                    lemma_views_push(lines@, line);
                }
                lines.push(line);
                self.vertical.skip_row();
                assert(views(lines@) =~= seq![debug_line_text(row@)]);
                Ok(lines)
            },
            RowFormat::JsonArray => {
                match json_array_line(row) {
                    Ok(line) => {
                        let mut lines: Vec<String> = Vec::new();
                        proof {
                            lemma_views_push(lines@, line);
                        }
                        lines.push(line);
                        self.vertical.skip_row();
                        assert(views(lines@) =~= seq![json_array(json_cells(row@))]);
                        Ok(lines)
                    },
                    Err(e) => Err(e),
                }
            },
        }
    }
}

} // verus!

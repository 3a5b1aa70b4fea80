use odbc_tools::json::{frame_json_array, json_array_line, json_cell, json_cell_with, serialized};
use odbc_tools::mode::{OutputMode, RowRenderer};
use odbc_tools::render::{
    debug_cell, debug_cell_with, debug_line, render_schema, schema_line, ColumnSchema, DatumType,
    RenderError, Value, VerticalRenderer,
};

fn names(list: &[&str]) -> Vec<String> {
    list.iter().map(|s| s.to_string()).collect()
}

fn text(s: &str) -> Option<Value> {
    Some(Value::Text(s.to_string()))
}

fn integer(i: i64) -> Option<Value> {
    Some(Value::Integer(i))
}

#[test]
fn vertical_pads_names_to_the_longest() {
    let mut renderer = VerticalRenderer::new(names(&["id", "name"]), None);
    assert_eq!(renderer.width(), 4);
    let lines = renderer.render_row(&vec![integer(1), text("a")]);
    assert_eq!(lines, vec!["0   id   1", "0   name a"]);
}

#[test]
fn vertical_counts_rows_and_separates_them() {
    let mut renderer = VerticalRenderer::new(names(&["id", "name"]), None);
    let first = renderer.render_row(&vec![integer(1), text("a")]);
    let second = renderer.render_row(&vec![integer(-2), None]);
    let third = renderer.render_row(&vec![Some(Value::Bit(true)), Some(Value::Literal("1.5".to_string()))]);
    assert_eq!(first.len(), 2);
    assert_eq!(second, vec!["", "1   id   -2", "1   name NULL"]);
    assert_eq!(third, vec!["", "2   id   true", "2   name 1.5"]);
}

#[test]
fn vertical_width_without_columns_is_zero() {
    let mut renderer = VerticalRenderer::new(Vec::new(), None);
    assert_eq!(renderer.width(), 0);
    assert_eq!(renderer.render_row(&vec![integer(1)]), Vec::<String>::new());
    assert_eq!(renderer.render_row(&Vec::new()), vec![""]);
}

#[test]
fn vertical_stops_at_the_shorter_of_row_and_columns() {
    let mut renderer = VerticalRenderer::new(names(&["a", "bcd"]), None);
    assert_eq!(renderer.render_row(&vec![integer(7)]), vec!["0   a   7"]);
    assert_eq!(renderer.render_row(&vec![integer(7), integer(8), integer(9)]), vec!["", "1   a   7", "1   bcd 8"]);
}

#[test]
fn vertical_index_wider_than_three_digits_is_not_cut() {
    let mut renderer = VerticalRenderer::new(names(&["n"]), None);
    let mut last = Vec::new();
    for _ in 0..1235 {
        last = renderer.render_row(&vec![integer(0)]);
    }
    assert_eq!(last, vec!["", "1234 n 0"]);
}

#[test]
fn script_lines_begin_with_the_statement_index() {
    let mut renderer = VerticalRenderer::new(names(&["id", "name"]), Some(3));
    assert_eq!(renderer.render_row(&vec![integer(1), text("a")]), vec!["  3 0   id   1", "  3 0   name a"]);
    assert_eq!(renderer.render_row(&vec![integer(2), None]), vec!["", "  3 1   id   2", "  3 1   name NULL"]);
    let mut wide = VerticalRenderer::new(names(&["x"]), Some(12345));
    assert_eq!(wide.render_row(&vec![integer(1)]), vec!["12345 0   x 1"]);
}

#[test]
fn integers_are_written_in_decimal() {
    let mut renderer = VerticalRenderer::new(names(&["v"]), None);
    let row = vec![integer(i64::MIN)];
    assert_eq!(renderer.render_row(&row), vec!["0   v -9223372036854775808"]);
    assert_eq!(json_array_line(&vec![integer(0), integer(10), integer(i64::MAX), integer(-907)]).unwrap(), "[0,10,9223372036854775807,-907]");
}

#[test]
fn schema_listing_has_header_and_one_line_per_column() {
    let columns = vec![
        ColumnSchema { name: "id".to_string(), datum_type: DatumType::Integer, odbc_type: "SQL_INTEGER".to_string(), nullable: false },
        ColumnSchema { name: "name".to_string(), datum_type: DatumType::String, odbc_type: "SQL_VARCHAR".to_string(), nullable: true },
    ];
    assert_eq!(
        render_schema(&columns),
        vec![
            "column name\tdatum type\tODBC type\tnullable",
            "id\tInteger\tSQL_INTEGER\tfalse",
            "name\tString\tSQL_VARCHAR\ttrue",
        ]
    );
    assert_eq!(schema_line(&columns[1]), "name\tString\tSQL_VARCHAR\ttrue");
    assert_eq!(render_schema(&Vec::new()), vec!["column name\tdatum type\tODBC type\tnullable"]);
}

#[test]
fn datum_types_have_their_names() {
    let all = [
        (DatumType::Bit, "Bit"), (DatumType::Tinyint, "Tinyint"), (DatumType::Smallint, "Smallint"),
        (DatumType::Integer, "Integer"), (DatumType::Bigint, "Bigint"), (DatumType::Float, "Float"),
        (DatumType::Double, "Double"), (DatumType::Decimal, "Decimal"), (DatumType::String, "String"),
        (DatumType::Timestamp, "Timestamp"), (DatumType::Date, "Date"), (DatumType::Time, "Time"),
        (DatumType::Json, "Json"),
    ];
    for (datum_type, name) in all {
        assert_eq!(datum_type.name(), name);
    }
}

#[test]
fn debug_prints_single_value_row() {
    assert_eq!(debug_line(&vec![integer(1)]), "[Some(Integer(1))]");
}

#[test]
fn debug_marks_nulls_and_quotes_text() {
    let row = vec![None, text("a\"b\n"), Some(Value::Bit(false)), Some(Value::Literal("2.5".to_string()))];
    assert_eq!(debug_line(&row), "[None, Some(Text(\"a\\\"b\\n\")), Some(Bit(false)), Some(Literal(2.5))]");
    assert_eq!(debug_line(&Vec::new()), "[]");
}

#[test]
fn json_line_is_a_compact_array() {
    let row = vec![integer(1), text("a"), None, Some(Value::Bit(true)), Some(Value::Literal("{\"k\":[1,2]}".to_string()))];
    assert_eq!(json_array_line(&row).unwrap(), "[1,\"a\",null,true,{\"k\":[1,2]}]");
    assert_eq!(json_array_line(&Vec::new()).unwrap(), "[]");
}

#[test]
fn json_text_is_escaped() {
    assert_eq!(json_array_line(&vec![text("a\"b\\c\nd")]).unwrap(), "[\"a\\\"b\\\\c\\nd\"]");
    assert_eq!(json_cell(&text("x")).unwrap(), "\"x\"");
    assert_eq!(json_cell(&None).unwrap(), "null");
}

#[test]
fn json_line_parses_back_with_nulls_in_place() {
    let rows = vec![
        vec![integer(1), None, text("null"), None],
        vec![None],
        vec![],
        vec![text("a,b]"), Some(Value::Bit(false)), Some(Value::Literal("1.25".to_string())), None, integer(-3)],
    ];
    for row in rows {
        let line = json_array_line(&row).unwrap();
        assert!(!line.contains('\n'));
        let parsed: serde_json::Value = serde_json::from_str(&line).unwrap();
        let items = parsed.as_array().unwrap();
        assert_eq!(items.len(), row.len());
        for (item, cell) in items.iter().zip(row.iter()) {
            assert_eq!(item.is_null(), cell.is_none());
        }
    }
}

#[test]
fn frame_joins_elements_with_commas() {
    assert_eq!(frame_json_array(&names(&["1", "\"a\"", "null"])), "[1,\"a\",null]");
    assert_eq!(frame_json_array(&names(&["1"])), "[1]");
    assert_eq!(frame_json_array(&Vec::new()), "[]");
}

#[test]
fn serializer_outcome_becomes_text_or_error() {
    assert_eq!(serialized(Ok("\"a\"".to_string())), Ok("\"a\"".to_string()));
    let failure = serde_json::from_str::<i32>("x").unwrap_err();
    assert_eq!(serialized(Err(failure)), Err(RenderError::Serialization));
    assert_eq!(RenderError::Serialization.message(), "failed to serialize JSON");
}

#[test]
fn row_renderer_exists_for_the_row_formats_only() {
    let avro = OutputMode::AvroRecord {
        show_schema_only: false,
        deflate: false,
        reformat_json: false,
        reformat_json_pretty: false,
        timestamp_millis: false,
        schema_name: "result_set".to_string(),
    };
    assert!(RowRenderer::new(&OutputMode::Schema, names(&["a"])).is_none());
    assert!(RowRenderer::new(&avro, names(&["a"])).is_none());
    assert!(RowRenderer::new(&OutputMode::Debug, names(&["a"])).is_some());
    assert!(RowRenderer::new(&OutputMode::Vertical, names(&["a"])).is_some());
    assert!(RowRenderer::new(&OutputMode::JsonArray, names(&["a"])).is_some());
}

#[test]
fn row_renderer_dispatches_by_mode() {
    let row = vec![integer(1), None];
    let mut debug = RowRenderer::new(&OutputMode::Debug, names(&["id", "name"])).unwrap();
    assert_eq!(debug.render_row(&row).unwrap(), vec!["[Some(Integer(1)), None]"]);
    assert_eq!(debug.render_row(&row).unwrap(), vec!["[Some(Integer(1)), None]"]);
    let mut json = RowRenderer::new(&OutputMode::JsonArray, names(&["id", "name"])).unwrap();
    assert_eq!(json.render_row(&row).unwrap(), vec!["[1,null]"]);
    let mut vertical = RowRenderer::new(&OutputMode::Vertical, names(&["id", "name"])).unwrap();
    assert_eq!(vertical.render_row(&row).unwrap(), vec!["0   id   1", "0   name NULL"]);
    assert_eq!(vertical.render_row(&row).unwrap(), vec!["", "1   id   1", "1   name NULL"]);
}

#[test]
fn debug_mode_prints_one_row_for_select_one() {
    let mut renderer = RowRenderer::new(&OutputMode::Debug, names(&["a"])).unwrap();
    let rows = vec![vec![integer(1)]];
    let mut printed = Vec::new();
    for row in &rows {
        printed.extend(renderer.render_row(row).unwrap());
    }
    assert_eq!(printed, vec!["[Some(Integer(1))]"]);
}

#[test]
fn later_statements_of_a_script_open_with_a_blank_line() {
    assert_eq!(VerticalRenderer::new(names(&["a"]), None).opening_lines(), Vec::<String>::new());
    assert_eq!(VerticalRenderer::new(names(&["a"]), Some(0)).opening_lines(), Vec::<String>::new());
    assert_eq!(VerticalRenderer::new(names(&["a"]), Some(1)).opening_lines(), vec![""]);
}

#[test]
fn renderers_count_their_rows() {
    let mut vertical = VerticalRenderer::new(names(&["a"]), None);
    assert_eq!(vertical.next_index(), 0);
    vertical.render_row(&vec![integer(1)]);
    vertical.skip_row();
    assert_eq!(vertical.next_index(), 2);
    let mut json = RowRenderer::new(&OutputMode::JsonArray, names(&["a"])).unwrap();
    assert_eq!(json.row_count(), 0);
    json.render_row(&vec![text("x")]).unwrap();
    assert_eq!(json.row_count(), 1);
}

#[test]
fn cells_take_the_quoted_text_of_a_string_as_given() {
    assert_eq!(json_cell_with(&text("a"), "\"a\"".to_string()), "\"a\"");
    assert_eq!(json_cell_with(&integer(-12), "unused".to_string()), "-12");
    assert_eq!(json_cell_with(&None, "unused".to_string()), "null");
    assert_eq!(json_cell_with(&Some(Value::Bit(false)), String::new()), "false");
    assert_eq!(json_cell_with(&Some(Value::Literal("1e3".to_string())), String::new()), "1e3");
    assert_eq!(debug_cell_with(&text("a"), "\"a\""), "Some(Text(\"a\"))");
    assert_eq!(debug_cell_with(&integer(5), "unused"), "Some(Integer(5))");
    assert_eq!(debug_cell_with(&None, "unused"), "None");
    assert_eq!(debug_cell(&text("tab\t")), "Some(Text(\"tab\\t\"))");
    assert_eq!(debug_cell(&Some(Value::Bit(true))), "Some(Bit(true))");
}

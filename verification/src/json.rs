use vstd::prelude::*;
use crate::render::{bool_text, RenderError, Value};
use crate::text::{join, joined, lemma_views_push, push_signed_decimal, signed_decimal, views};

verus! {

/// The error of the JSON serializer; nothing is read from it.
#[verifier::external_type_specification]
#[verifier::external_body]
pub struct ExJsonError(serde_json::Error);

/// The JSON string literal that `serde_json` writes for a text: the text between
/// double quotes, with the escapes that JSON asks for.
pub uninterp spec fn json_string_literal(s: Seq<char>) -> Seq<char>;

/// A text that stands between two double quotes.
pub open spec fn is_quoted(t: Seq<char>) -> bool {
    t.len() >= 2 && t[0] == '"' && t.last() == '"'
}

/// `serde_json::to_string` on a string slice. Where it succeeds, what it returns
/// is the JSON string literal for that text, which depends on the text alone and
/// stands between double quotes. That it succeeds is not claimed.
#[verifier::external_body]
fn json_quoted(s: &str) -> (r: Result<String, serde_json::Error>)
    ensures
        r matches Ok(t) ==> t@ == json_string_literal(s@) && is_quoted(json_string_literal(s@)),
{
    serde_json::to_string(s)
}

/// What becomes of the serializer's outcome: its text, or the library's error.
pub fn serialized(outcome: Result<String, serde_json::Error>) -> (r: Result<String, RenderError>)
    ensures
        outcome matches Ok(t) ==> r == Ok::<String, RenderError>(t),
        outcome is Err ==> r == Err::<String, RenderError>(RenderError::Serialization),
{
    match outcome {
        Ok(t) => Ok(t),
        Err(_) => Err(RenderError::Serialization),
    }
}

/// The JSON text of a cell, with `quoted` for the string literal of a character
/// string: `null` for a missing value, a JSON literal otherwise.
pub open spec fn json_cell_text_with(c: Option<Value>, quoted: Seq<char>) -> Seq<char> {
    match c {
        None => "null"@,
        Some(Value::Bit(b)) => bool_text(b),
        Some(Value::Integer(i)) => signed_decimal(i as int),
        Some(Value::Text(_)) => quoted,
        Some(Value::Literal(s)) => s@,
    }
}

/// The JSON text of a cell: `null` for a missing value, a JSON literal otherwise.
pub open spec fn json_cell_text(c: Option<Value>) -> Seq<char> {
    match c {
        Some(Value::Text(s)) => json_cell_text_with(c, json_string_literal(s@)),
        _ => json_cell_text_with(c, Seq::empty()),
    }
}

/// The JSON texts of the cells of a row, one for each cell, in order.
pub open spec fn json_cells(row: Seq<Option<Value>>) -> Seq<Seq<char>> {
    Seq::new(row.len(), |k: int| json_cell_text(row[k]))
}

/// A compact JSON array of the given element texts.
pub open spec fn json_array(cells: Seq<Seq<char>>) -> Seq<char> {
    seq!['['] + joined(cells, seq![',']) + seq![']']
}

/// Whether the serializer is asked about the cell: only a character string needs it.
pub open spec fn needs_serializer(c: Option<Value>) -> bool {
    c matches Some(Value::Text(_))
}

/// Whether the cell's JSON text is the cell's own text, written as it stands.
pub open spec fn is_literal(c: Option<Value>) -> bool {
    c matches Some(Value::Literal(_))
}

/// The element reads `null` where the value is missing, and only there.
pub open spec fn null_marks_missing(c: Option<Value>) -> bool {
    json_cell_text(c) == "null"@ <==> c is None
}

/// The array has as many elements as the row has cells, and a missing value
/// stands in it as `null`; a truth value or an integer never reads `null`.
pub proof fn lemma_json_cells_follow_row(row: Seq<Option<Value>>, k: int)
    requires
        0 <= k < row.len(),
    ensures
        json_cells(row).len() == row.len(),
        row[k] is None ==> json_cells(row)[k] == "null"@,
        (row[k] matches Some(Value::Bit(_))) ==> json_cells(row)[k] != "null"@,
        (row[k] matches Some(Value::Integer(_))) ==> json_cells(row)[k] != "null"@,
        !needs_serializer(row[k]) && !is_literal(row[k]) ==> null_marks_missing(row[k]),
{
    reveal_strlit("null");
    reveal_strlit("true");
    reveal_strlit("false");
    assert("null"@[0] == 'n');
    match row[k] {
        Some(Value::Bit(b)) => {
            assert("true"@[0] == 't');
            assert("false"@[0] == 'f');
            assert(json_cells(row)[k][0] != 'n');
        },
        Some(Value::Integer(i)) => {
            if i < 0 {
                assert(signed_decimal(i as int)[0] == '-');
            } else {
                lemma_decimal_starts_with_digit(i as nat);
            }
            assert(json_cells(row)[k][0] != 'n');
        },
        _ => {},
    }
}

/// A decimal number is not empty and starts with a digit.
pub proof fn lemma_decimal_starts_with_digit(n: nat)
    ensures
        crate::text::decimal(n).len() > 0,
        '0' <= crate::text::decimal(n)[0] <= '9',
    decreases n,
{
    if n >= 10 {
        lemma_decimal_starts_with_digit(n / 10);
    }
}

/// The compact JSON array with the given element texts.
pub fn frame_json_array(cells: &Vec<String>) -> (line: String)
    ensures
        line@ == json_array(views(cells@)),
{
    let mut line = String::new();
    line.push('[');
    let body = join(cells, ",");
    proof {
        reveal_strlit(",");
        assert(","@ =~= seq![',']);
    }
    line.append(body.as_str());
    line.push(']');
    assert(line@ =~= json_array(views(cells@)));
    line
}

/// The JSON text of one cell, given the string literal for its character string.
/// For any other cell `quoted` is not looked at.
pub fn json_cell_with(c: &Option<Value>, quoted: String) -> (t: String)
    ensures
        t@ == json_cell_text_with(*c, quoted@),
{
    match c {
        None => String::from_str("null"),
        Some(Value::Bit(b)) => String::from_str(
            if *b {
                "true"
            } else {
                "false"
            },
        ),
        Some(Value::Integer(i)) => {
            let mut t = String::new();
            push_signed_decimal(&mut t, *i);
            assert(t@ =~= signed_decimal(*i as int));
            t
        },
        Some(Value::Text(_)) => quoted,
        Some(Value::Literal(s)) => s.clone(),
    }
}

/// The JSON text of one cell. Only for a character string is the serializer
/// asked, and only then can the cell fail. But for a value written as it stands,
/// the text is `null` for a missing value and for no other.
pub fn json_cell(c: &Option<Value>) -> (r: Result<String, RenderError>)
    ensures
        r matches Ok(t) ==> t@ == json_cell_text(*c),
        !needs_serializer(*c) ==> r is Ok,
        r is Ok && !is_literal(*c) ==> null_marks_missing(*c),
{
    proof {
        if c is None || !needs_serializer(*c) {
            lemma_json_cells_follow_row(seq![*c], 0);
        }
        reveal_strlit("null");
        assert("null"@[0] == 'n');
    }
    match c {
        Some(Value::Text(s)) => match serialized(json_quoted(s.as_str())) {
            Ok(quoted) => Ok(json_cell_with(c, quoted)),
            Err(e) => Err(e),
        },
        _ => Ok(json_cell_with(c, String::new())),
    }
}

/// Renders a row as one line: a compact JSON array of its cells, `null` for a
/// missing value. A row without character strings always renders.
pub fn json_array_line(row: &Vec<Option<Value>>) -> (r: Result<String, RenderError>)
    ensures
        r matches Ok(line) ==> line@ == json_array(json_cells(row@)),
        (forall|k: int| 0 <= k < row.len() ==> !needs_serializer(#[trigger] row@[k])) ==> r is Ok,
        r matches Err(e) ==> e == RenderError::Serialization,
        r is Ok ==> forall|k: int|
            0 <= k < row.len() && !is_literal(#[trigger] row@[k]) ==> null_marks_missing(row@[k]),
{
    let mut cells: Vec<String> = Vec::new();
    let mut k: usize = 0;
    assert(views(cells@) =~= json_cells(row@).take(0));
    while k < row.len()
        invariant
            k <= row.len(),
            views(cells@) == json_cells(row@).take(k as int),
            forall|j: int|
                0 <= j < k && !is_literal(#[trigger] row@[j]) ==> null_marks_missing(row@[j]),
        decreases row.len() - k,
    {
        match json_cell(&row[k]) {
            Ok(t) => {
                proof {
                    lemma_views_push(cells@, t);
                }
                cells.push(t);
            },
            Err(_) => {
                assert(needs_serializer(row@[k as int]));
                return Err(RenderError::Serialization);
            },
        }
        k += 1;
        assert(views(cells@) =~= json_cells(row@).take(k as int));
    }
    assert(json_cells(row@).take(k as int) =~= json_cells(row@));
    Ok(frame_json_array(&cells))
}

} // verus!

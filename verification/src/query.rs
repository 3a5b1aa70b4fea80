use vstd::prelude::*;
use crate::executor::{Executor, Phase, QueryError};
use crate::split::{advance, region_at, Region};
use crate::text::{chars_of, views};

verus! {

/// Reading of an inline statement argument: a lone dash stands for "take the
/// text from standard input", anything else is the text itself.
pub fn minus_none(v: String) -> (r: Option<String>)
    ensures
        r == inline_text(Some(v)),
{
    proof {
        reveal_strlit("-");
    }
    if v.as_str().unicode_len() == 1 && v.as_str().get_char(0) == '-' {
        assert(v@ =~= "-"@);
        None
    } else {
        Some(v)
    }
}

/// The statement text that the command line itself gives: none where the
/// argument is missing or a lone dash.
pub open spec fn inline_text(text: Option<String>) -> Option<String> {
    match text {
        Some(s) => if s@ == "-"@ {
            None
        } else {
            Some(s)
        },
        None => None,
    }
}

/// A statement and the values for its placeholders, as the command line gives them.
#[derive(Clone, Debug, PartialEq, Eq)]
pub struct Query {
    /// The statement; `None` or a lone dash to have it read from standard input.
    pub text: Option<String>,
    /// The values for the placeholders, in their order.
    pub parameters: Vec<String>,
}

/// What is to be run: the statement text, unless it is still to be read from
/// standard input, and the run's executor.
#[derive(Clone, Debug)]
pub struct Request {
    pub text: Option<String>,
    pub executor: Executor,
}

/// One parameter with the placeholder it goes to.
#[derive(Clone, Debug, PartialEq, Eq)]
pub struct Binding {
    pub position: usize,
    pub value: String,
}

/// The bindings of `parameters`: the parameter at each position, unchanged, for
/// the placeholder at that position.
pub open spec fn bindings_of(parameters: Seq<String>) -> Seq<(int, Seq<char>)> {
    Seq::new(parameters.len(), |i: int| (i, parameters[i]@))
}

/// Each binding as its position and the text of its value.
pub open spec fn binding_views(bindings: Seq<Binding>) -> Seq<(int, Seq<char>)> {
    Seq::new(bindings.len(), |i: int| (bindings[i].position as int, bindings[i].value@))
}

/// Binds the parameters to the placeholders of a statement, from left to right
/// and as they are. The number of parameters must be the number of placeholders.
pub fn bind_parameters(placeholders: usize, parameters: &Vec<String>) -> (r: Result<
    Vec<Binding>,
    QueryError,
>)
    ensures
        parameters.len() != placeholders ==> r == Err::<Vec<Binding>, QueryError>(
            QueryError::BindCountMismatch { placeholders, parameters: parameters.len() },
        ),
        parameters.len() == placeholders ==> r is Ok && binding_views(r.unwrap()@) == bindings_of(
            parameters@,
        ),
{
    if parameters.len() != placeholders {
        return Err(QueryError::BindCountMismatch { placeholders, parameters: parameters.len() });
    }
    let mut bindings: Vec<Binding> = Vec::new();
    let mut i: usize = 0;
    assert(binding_views(bindings@) =~= bindings_of(parameters@).take(0));
    while i < parameters.len()
        invariant
            i <= parameters.len(),
            bindings.len() == i,
            binding_views(bindings@) == bindings_of(parameters@).take(i as int),
        decreases parameters.len() - i,
    {
        let ghost before = bindings@;
        let value = parameters[i].clone();
        assert(value@ == parameters@[i as int]@);
        bindings.push(Binding { position: i, value });
        i += 1;
        assert forall|k: int| 0 <= k < i implies binding_views(bindings@)[k] == bindings_of(
            parameters@,
        )[k] by {
            if k < i - 1 {
                assert(bindings@[k] == before[k]);
                assert(binding_views(before)[k] == bindings_of(parameters@).take(i - 1)[k]);
            }
        }
        assert(binding_views(bindings@) =~= bindings_of(parameters@).take(i as int));
    }
    assert(bindings_of(parameters@).take(i as int) =~= bindings_of(parameters@));
    Ok(bindings)
}

/// A placeholder stands at position `i`: a question mark outside quoted literals
/// and comments.
pub open spec fn is_placeholder(s: Seq<char>, i: int) -> bool {
    0 <= i < s.len() && s[i] == '?' && region_at(s, i) is Code
}

/// The number of placeholders among the first `n` characters.
pub open spec fn placeholders_within(s: Seq<char>, n: int) -> nat
    decreases n,
{
    if n <= 0 {
        0
    } else if is_placeholder(s, n - 1) {
        placeholders_within(s, n - 1) + 1
    } else {
        placeholders_within(s, n - 1)
    }
}

/// The number of placeholders of a statement.
pub open spec fn placeholder_count(s: Seq<char>) -> nat {
    placeholders_within(s, s.len() as int)
}

/// Counts the placeholders of a statement.
pub fn count_placeholders(statement: &str) -> (n: usize)
    ensures
        n == placeholder_count(statement@),
{
    let chars = chars_of(statement);
    let len = chars.len();
    let mut region = Region::Code;
    let mut count: usize = 0;
    let mut i: usize = 0;
    while i < len
        invariant
            chars@ == statement@,
            len == chars.len(),
            i <= len,
            count <= i,
            region == region_at(chars@, i as int),
            count == placeholders_within(chars@, i as int),
        decreases len - i,
    {
        let c = chars[i];
        let next = if i + 1 < len {
            Some(chars[i + 1])
        } else {
            None
        };
        if c == '?' && matches!(region, Region::Code) {
            count += 1;
        }
        region = advance(region, c, next);
        i += 1;
    }
    count
}

/// Binds the parameters to the placeholders that the statement's text shows.
pub fn bind_statement(statement: &str, parameters: &Vec<String>) -> (r: Result<
    Vec<Binding>,
    QueryError,
>)
    ensures
        parameters.len() != placeholder_count(statement@) ==> r == Err::<Vec<Binding>, QueryError>(
            QueryError::BindCountMismatch {
                placeholders: placeholder_count(statement@) as usize,
                parameters: parameters.len(),
            },
        ),
        parameters.len() == placeholder_count(statement@) ==> r is Ok && binding_views(
            r.unwrap()@,
        ) == bindings_of(parameters@),
{
    bind_parameters(count_placeholders(statement), parameters)
}

impl Query {
    /// The request to run the statement and read its rows.
    pub fn execute(self) -> (r: Request)
        ensures
            r.text == inline_text(self.text),
            r.executor.wf(),
            r.executor.spec_phase() == Phase::Idle,
            !r.executor.spec_schema_only(),
            r.executor.spec_parameters() == views(self.parameters@),
    {
        let text = match self.text {
            Some(t) => minus_none(t),
            None => None,
        };
        Request { text, executor: Executor::new(false, self.parameters) }
    }

    /// The request to describe the statement's columns. No row is read for it,
    /// and no parameter is bound.
    pub fn schema(self) -> (r: Request)
        ensures
            r.text == inline_text(self.text),
            r.executor.wf(),
            r.executor.spec_phase() == Phase::Idle,
            r.executor.spec_schema_only(),
            r.executor.spec_parameters() == views(self.parameters@),
    {
        let text = match self.text {
            Some(t) => minus_none(t),
            None => None,
        };
        Request { text, executor: Executor::new(true, self.parameters) }
    }
}

} // verus!

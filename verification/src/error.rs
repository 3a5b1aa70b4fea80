use vstd::prelude::*;
use crate::executor::QueryError;
use crate::render::RenderError;
use crate::split::SplitError;

verus! {

/// Everything that ends an invocation early. None is recovered from.
#[derive(Clone, Copy, Debug, PartialEq, Eq)]
pub enum Failure {
    /// The driver manager could not be set up or asked for its drivers.
    Initialization,
    /// The data source could not be reached.
    Connection,
    Split(SplitError),
    Query(QueryError),
    Render(RenderError),
    /// The Avro schema could not be derived or the records not be written.
    AvroSerialization,
}

impl Failure {
    /// The text of `message`.
    pub open spec fn spec_message(self) -> Seq<char> {
        match self {
            Failure::Initialization => "failed to list drivers"@,
            Failure::Connection => "failed to connect to database"@,
            Failure::Split(_) => "unterminated quoted literal in script"@,
            Failure::Query(e) => e.spec_message(),
            Failure::Render(_) => "failed to serialize JSON"@,
            Failure::AvroSerialization => "failed to write query result set as Avro data"@,
        }
    }

    /// A short description of what was attempted, for the error stream.
    pub fn message(&self) -> (s: String)
        ensures
            s@ == self.spec_message(),
    {
        match self {
            Failure::Initialization => String::from_str("failed to list drivers"),
            Failure::Connection => String::from_str("failed to connect to database"),
            Failure::Split(e) => e.message(),
            Failure::Query(e) => e.message(),
            Failure::Render(e) => e.message(),
            Failure::AvroSerialization => String::from_str(
                "failed to write query result set as Avro data",
            ),
        }
    }

    /// The status with which the process ends: never that of success.
    pub fn exit_status(&self) -> (status: u8)
        ensures
            status == 1,
    {
        1
    }
}

} // verus!

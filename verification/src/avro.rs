use vstd::prelude::*;

verus! {

/// How the text of a JSON column is rewritten before it is stored.
#[derive(Clone, Copy, Debug, PartialEq, Eq, Structural)]
pub enum ReformatJson {
    /// Without spaces and line breaks.
    Compact,
    /// Indented.
    Pretty,
}

/// How a timestamp column is stored.
#[derive(Clone, Copy, Debug, PartialEq, Eq, Structural)]
pub enum TimestampFormat {
    /// As text.
    DefaultString,
    /// As the number of milliseconds since the epoch.
    MillisecondsSinceEpoch,
}

/// How the record stream is compressed.
#[derive(Clone, Copy, Debug, PartialEq, Eq, Structural)]
pub enum Codec {
    Null,
    Deflate,
}

/// The options of the Avro output.
#[derive(Clone, Debug, PartialEq, Eq)]
pub struct AvroConfiguration {
    /// `None` leaves the text of a JSON column as it is.
    pub reformat_json: Option<ReformatJson>,
    pub timestamp_format: TimestampFormat,
    pub schema_name: String,
    pub codec: Codec,
}

/// The JSON rewriting chosen by the two flags: the pretty flag alone already
/// asks for indented text.
pub open spec fn reformat_choice(reformat_json: bool, reformat_json_pretty: bool) -> Option<
    ReformatJson,
> {
    if reformat_json_pretty {
        Some(ReformatJson::Pretty)
    } else if reformat_json {
        Some(ReformatJson::Compact)
    } else {
        None
    }
}

/// The timestamp representation that the milliseconds flag selects.
pub open spec fn timestamp_choice(timestamp_millis: bool) -> TimestampFormat {
    if timestamp_millis {
        TimestampFormat::MillisecondsSinceEpoch
    } else {
        TimestampFormat::DefaultString
    }
}

/// The codec that the deflate flag selects.
pub open spec fn codec_choice(deflate: bool) -> Codec {
    if deflate {
        Codec::Deflate
    } else {
        Codec::Null
    }
}

/// The codec that the deflate flag selects.
pub fn make_codec(deflate: bool) -> (c: Codec)
    ensures
        c == codec_choice(deflate),
{
    if deflate {
        Codec::Deflate
    } else {
        Codec::Null
    }
}

/// Builds the options of the Avro output from the command's flags. The codec is
/// not chosen here: the result is uncompressed until `with_codec` says otherwise.
pub fn make_avro_configuration(
    reformat_json: bool,
    reformat_json_pretty: bool,
    timestamp_millis: bool,
    schema_name: String,
) -> (c: AvroConfiguration)
    ensures
        c.reformat_json == reformat_choice(reformat_json, reformat_json_pretty),
        c.timestamp_format == timestamp_choice(timestamp_millis),
        c.schema_name == schema_name,
        c.codec == Codec::Null,
{
    let reformat = if reformat_json_pretty {
        Some(ReformatJson::Pretty)
    } else if reformat_json {
        Some(ReformatJson::Compact)
    } else {
        None
    };
    let timestamp_format = if timestamp_millis {
        TimestampFormat::MillisecondsSinceEpoch
    } else {
        TimestampFormat::DefaultString
    };
    AvroConfiguration { reformat_json: reformat, timestamp_format, schema_name, codec: Codec::Null }
}

impl AvroConfiguration {
    /// The same options with the given codec.
    pub fn with_codec(self, codec: Codec) -> (c: AvroConfiguration)
        ensures
            c.reformat_json == self.reformat_json,
            c.timestamp_format == self.timestamp_format,
            c.schema_name == self.schema_name,
            c.codec == codec,
    {
        AvroConfiguration {
            reformat_json: self.reformat_json,
            timestamp_format: self.timestamp_format,
            schema_name: self.schema_name,
            codec,
        }
    }
}

} // verus!

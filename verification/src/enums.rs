//! The enumerated fields of the file header: each a closed set of variants
//! with a total mapping from the stored number.

use vstd::prelude::*;
use crate::parser::ParserError;

verus! {

/// How the text in the database is encoded.
#[derive(Debug, Clone, Copy, PartialEq, Eq, Structural)]
pub enum TextEncoding {
    UTF8,
    UTF16le,
    UTF16be,
}

impl TextEncoding {
    /// The variant that the stored number `raw` stands for.
    pub open spec fn of(raw: u32) -> Option<TextEncoding> {
        if raw == 1 {
            Some(TextEncoding::UTF8)
        } else if raw == 2 {
            Some(TextEncoding::UTF16le)
        } else if raw == 3 {
            Some(TextEncoding::UTF16be)
        } else {
            None
        }
    }

    /// The number that is stored for the variant.
    pub open spec fn code(self) -> u32 {
        match self {
            TextEncoding::UTF8 => 1,
            TextEncoding::UTF16le => 2,
            TextEncoding::UTF16be => 3,
        }
    }

    /// What mapping the stored number `raw` comes to: its variant, or the
    /// number itself reported as unknown.
    pub open spec fn spec_from_raw(raw: u32) -> Result<TextEncoding, ParserError> {
        match TextEncoding::of(raw) {
            Some(v) => Ok(v),
            None => Err(ParserError::UnknownValueU32(raw)),
        }
    }

    /// The variant's canonical name.
    pub open spec fn name(self) -> Seq<char> {
        match self {
            TextEncoding::UTF8 => "UTF-8"@,
            TextEncoding::UTF16le => "UTF-16le"@,
            TextEncoding::UTF16be => "UTF-16be"@,
        }
    }

    /// Maps a stored number to its variant; a number outside 1..=3 is
    /// reported with its width.
    #[verifier::when_used_as_spec(spec_from_raw)]
    pub fn from_raw(raw: u32) -> (r: Result<TextEncoding, ParserError>)
        ensures
            r == TextEncoding::spec_from_raw(raw),
    {
        match raw {
            1 => Ok(TextEncoding::UTF8),
            2 => Ok(TextEncoding::UTF16le),
            3 => Ok(TextEncoding::UTF16be),
            x => Err(ParserError::UnknownValueU32(x)),
        }
    }

    /// The variant's canonical name as a string.
    pub fn to_string(&self) -> (s: String)
        ensures
            s@ == self.name(),
    {
        match self {
            TextEncoding::UTF8 => "UTF-8".to_string(),
            TextEncoding::UTF16le => "UTF-16le".to_string(),
            TextEncoding::UTF16be => "UTF-16be".to_string(),
        }
    }
}

/// The schema format number.
#[derive(Debug, Clone, Copy, PartialEq, Eq, Structural)]
pub enum SchemaFormat {
    Format1,
    Format2,
    Format3,
    Format4,
}

impl SchemaFormat {
    /// The variant that the stored number `raw` stands for.
    pub open spec fn of(raw: u32) -> Option<SchemaFormat> {
        if raw == 1 {
            Some(SchemaFormat::Format1)
        } else if raw == 2 {
            Some(SchemaFormat::Format2)
        } else if raw == 3 {
            Some(SchemaFormat::Format3)
        } else if raw == 4 {
            Some(SchemaFormat::Format4)
        } else {
            None
        }
    }

    /// The number that is stored for the variant.
    pub open spec fn code(self) -> u32 {
        match self {
            SchemaFormat::Format1 => 1,
            SchemaFormat::Format2 => 2,
            SchemaFormat::Format3 => 3,
            SchemaFormat::Format4 => 4,
        }
    }

    /// What mapping the stored number `raw` comes to: its variant, or the
    /// number itself reported as unknown.
    pub open spec fn spec_from_raw(raw: u32) -> Result<SchemaFormat, ParserError> {
        match SchemaFormat::of(raw) {
            Some(v) => Ok(v),
            None => Err(ParserError::UnknownValueU32(raw)),
        }
    }

    /// The variant's canonical name.
    pub open spec fn name(self) -> Seq<char> {
        match self {
            SchemaFormat::Format1 => "1"@,
            SchemaFormat::Format2 => "2"@,
            SchemaFormat::Format3 => "3"@,
            SchemaFormat::Format4 => "4"@,
        }
    }

    /// Maps a stored number to its variant; a number outside 1..=4 is
    /// reported with its width.
    #[verifier::when_used_as_spec(spec_from_raw)]
    pub fn from_raw(raw: u32) -> (r: Result<SchemaFormat, ParserError>)
        ensures
            r == SchemaFormat::spec_from_raw(raw),
    {
        match raw {
            1 => Ok(SchemaFormat::Format1),
            2 => Ok(SchemaFormat::Format2),
            3 => Ok(SchemaFormat::Format3),
            4 => Ok(SchemaFormat::Format4),
            x => Err(ParserError::UnknownValueU32(x)),
        }
    }

    /// The variant's canonical name as a string.
    pub fn to_string(&self) -> (s: String)
        ensures
            s@ == self.name(),
    {
        match self {
            SchemaFormat::Format1 => "1".to_string(),
            SchemaFormat::Format2 => "2".to_string(),
            SchemaFormat::Format3 => "3".to_string(),
            SchemaFormat::Format4 => "4".to_string(),
        }
    }
}

/// The file format version needed to write the database.
#[derive(Debug, Clone, Copy, PartialEq, Eq, Structural)]
pub enum WriteVersion {
    Legacy,
    WAL,
}

impl WriteVersion {
    /// The variant that the stored byte `raw` stands for.
    pub open spec fn of(raw: u8) -> Option<WriteVersion> {
        if raw == 1 {
            Some(WriteVersion::Legacy)
        } else if raw == 2 {
            Some(WriteVersion::WAL)
        } else {
            None
        }
    }

    /// The byte that is stored for the variant.
    pub open spec fn code(self) -> u8 {
        match self {
            WriteVersion::Legacy => 1,
            WriteVersion::WAL => 2,
        }
    }

    /// What mapping the stored number `raw` comes to: its variant, or the
    /// number itself reported as unknown.
    pub open spec fn spec_from_raw(raw: u8) -> Result<WriteVersion, ParserError> {
        match WriteVersion::of(raw) {
            Some(v) => Ok(v),
            None => Err(ParserError::UnknownValueU8(raw)),
        }
    }

    /// The variant's canonical name.
    pub open spec fn name(self) -> Seq<char> {
        match self {
            WriteVersion::Legacy => "Legacy"@,
            WriteVersion::WAL => "WAL"@,
        }
    }

    /// Maps a stored byte to its variant; a byte other than 1 and 2 is
    /// reported with its width.
    #[verifier::when_used_as_spec(spec_from_raw)]
    pub fn from_raw(raw: u8) -> (r: Result<WriteVersion, ParserError>)
        ensures
            r == WriteVersion::spec_from_raw(raw),
    {
        match raw {
            1 => Ok(WriteVersion::Legacy),
            2 => Ok(WriteVersion::WAL),
            x => Err(ParserError::UnknownValueU8(x)),
        }
    }

    /// The variant's canonical name as a string.
    pub fn to_string(&self) -> (s: String)
        ensures
            s@ == self.name(),
    {
        match self {
            WriteVersion::Legacy => "Legacy".to_string(),
            WriteVersion::WAL => "WAL".to_string(),
        }
    }
}

/// The file format version needed to read the database.
#[derive(Debug, Clone, Copy, PartialEq, Eq, Structural)]
pub enum ReadVersion {
    Legacy,
    WAL,
}

impl ReadVersion {
    /// The variant that the stored byte `raw` stands for.
    pub open spec fn of(raw: u8) -> Option<ReadVersion> {
        if raw == 1 {
            Some(ReadVersion::Legacy)
        } else if raw == 2 {
            Some(ReadVersion::WAL)
        } else {
            None
        }
    }

    /// The byte that is stored for the variant.
    pub open spec fn code(self) -> u8 {
        match self {
            ReadVersion::Legacy => 1,
            ReadVersion::WAL => 2,
        }
    }

    /// What mapping the stored number `raw` comes to: its variant, or the
    /// number itself reported as unknown.
    pub open spec fn spec_from_raw(raw: u8) -> Result<ReadVersion, ParserError> {
        match ReadVersion::of(raw) {
            Some(v) => Ok(v),
            None => Err(ParserError::UnknownValueU8(raw)),
        }
    }

    /// The variant's canonical name.
    pub open spec fn name(self) -> Seq<char> {
        match self {
            ReadVersion::Legacy => "Legacy"@,
            ReadVersion::WAL => "WAL"@,
        }
    }

    /// Maps a stored byte to its variant; a byte other than 1 and 2 is
    /// reported with its width.
    #[verifier::when_used_as_spec(spec_from_raw)]
    pub fn from_raw(raw: u8) -> (r: Result<ReadVersion, ParserError>)
        ensures
            r == ReadVersion::spec_from_raw(raw),
    {
        match raw {
            1 => Ok(ReadVersion::Legacy),
            2 => Ok(ReadVersion::WAL),
            x => Err(ParserError::UnknownValueU8(x)),
        }
    }

    /// The variant's canonical name as a string.
    pub fn to_string(&self) -> (s: String)
        ensures
            s@ == self.name(),
    {
        match self {
            ReadVersion::Legacy => "Legacy".to_string(),
            ReadVersion::WAL => "WAL".to_string(),
        }
    }
}

/// The text encoding number and its variant stand for each other, and a
/// number outside 1..=3 stands for no variant.
pub proof fn lemma_text_encoding_round_trip(raw: u32, encoding: TextEncoding)
    ensures
        !(1 <= raw <= 3) ==> TextEncoding::from_raw(raw) == Err::<TextEncoding, ParserError>(
            ParserError::UnknownValueU32(raw),
        ),
        TextEncoding::from_raw(encoding.code()) == Ok::<TextEncoding, ParserError>(encoding),
        TextEncoding::from_raw(raw) == Ok::<TextEncoding, ParserError>(encoding)
            ==> encoding.code() == raw,
{
}

/// The schema format number and its variant stand for each other, and a
/// number outside 1..=4 stands for no variant.
pub proof fn lemma_schema_format_round_trip(raw: u32, format: SchemaFormat)
    ensures
        !(1 <= raw <= 4) ==> SchemaFormat::from_raw(raw) == Err::<SchemaFormat, ParserError>(
            ParserError::UnknownValueU32(raw),
        ),
        SchemaFormat::from_raw(format.code()) == Ok::<SchemaFormat, ParserError>(format),
        SchemaFormat::from_raw(raw) == Ok::<SchemaFormat, ParserError>(format) ==> format.code()
            == raw,
{
}

/// The read version byte and its variant stand for each other: 1 for
/// `Legacy`, 2 for `WAL`, and no other byte for any variant.
pub proof fn lemma_read_version_round_trip(raw: u8, version: ReadVersion)
    ensures
        ReadVersion::from_raw(1) == Ok::<ReadVersion, ParserError>(ReadVersion::Legacy),
        ReadVersion::from_raw(2) == Ok::<ReadVersion, ParserError>(ReadVersion::WAL),
        raw != 1 && raw != 2 ==> ReadVersion::from_raw(raw) == Err::<ReadVersion, ParserError>(
            ParserError::UnknownValueU8(raw),
        ),
        ReadVersion::from_raw(version.code()) == Ok::<ReadVersion, ParserError>(version),
        ReadVersion::from_raw(raw) == Ok::<ReadVersion, ParserError>(version) ==> version.code()
            == raw,
{
}

/// The write version byte and its variant stand for each other: 1 for
/// `Legacy`, 2 for `WAL`, and no other byte for any variant.
pub proof fn lemma_write_version_round_trip(raw: u8, version: WriteVersion)
    ensures
        WriteVersion::from_raw(1) == Ok::<WriteVersion, ParserError>(WriteVersion::Legacy),
        WriteVersion::from_raw(2) == Ok::<WriteVersion, ParserError>(WriteVersion::WAL),
        raw != 1 && raw != 2 ==> WriteVersion::from_raw(raw) == Err::<WriteVersion, ParserError>(
            ParserError::UnknownValueU8(raw),
        ),
        WriteVersion::from_raw(version.code()) == Ok::<WriteVersion, ParserError>(version),
        WriteVersion::from_raw(raw) == Ok::<WriteVersion, ParserError>(version) ==> version.code()
            == raw,
{
}

} // verus!

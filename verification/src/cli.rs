//! The command line: its options, and how a failed command is reported —
//! the error's message, the tips printed under it, and the exit code.

use vstd::prelude::*;
use crate::datasources::views;
use crate::search::append_str;
use crate::text::{decimal, push_char, push_decimal};

verus! {

// ---------------------------------------------------------------------
// Options
// ---------------------------------------------------------------------

/// The build profile of the configuration.
#[derive(Debug, Clone, Copy, PartialEq, Eq, Structural)]
pub enum Profile {
    Dev,
    Prod,
}

/// How the documents are listed.
#[derive(Debug, Clone, Copy, PartialEq, Eq, Structural)]
pub enum Format {
    Json,
    Pretty,
}

/// Which search tables a sync fills.
#[derive(Debug, Clone, Copy, PartialEq, Eq, Structural)]
pub enum SyncStrategy {
    Fts,
    Vector,
    All,
}

/// Whether the embedding cache is used.
#[derive(Debug, Clone, Copy, PartialEq, Eq, Structural)]
pub enum Cache {
    Enabled,
    Disabled,
}

impl SyncStrategy {
    /// Whether the full-text tables are filled.
    pub fn syncs_fts(&self) -> (b: bool)
        ensures
            b <==> (*self == SyncStrategy::Fts || *self == SyncStrategy::All),
    {
        match self {
            SyncStrategy::Fts | SyncStrategy::All => true,
            SyncStrategy::Vector => false,
        }
    }

    /// Whether the embedding tables are filled.
    pub fn syncs_vectors(&self) -> (b: bool)
        ensures
            b <==> (*self == SyncStrategy::Vector || *self == SyncStrategy::All),
    {
        match self {
            SyncStrategy::Vector | SyncStrategy::All => true,
            SyncStrategy::Fts => false,
        }
    }
}

// ---------------------------------------------------------------------
// Errors of a command
// ---------------------------------------------------------------------

/// How a JSON text failed to be read.
#[derive(Debug, Clone, Copy, PartialEq, Eq, Structural)]
pub enum JsonErrorKind {
    Syntax { line: usize, column: usize },
    Data,
    Eof,
    Io,
}

/// How a file failed to be opened.
#[derive(Debug, Clone, Copy, PartialEq, Eq, Structural)]
pub enum IoErrorKind {
    NotFound,
    PermissionDenied,
    AlreadyExists,
    WouldBlock,
    InvalidInput,
    InvalidData,
    TimedOut,
    Interrupted,
    OutOfMemory,
    Other,
    /// Any kind not listed above.
    Unlisted,
}

/// The result code of a failed SQLite call.
#[derive(Debug, Clone, Copy, PartialEq, Eq, Structural)]
pub enum SqliteCode {
    DatabaseBusy,
    DatabaseLocked,
    ReadOnly,
    DatabaseCorrupt,
    ConstraintViolation,
    NotADatabase,
    CannotOpen,
    /// Any code not listed above, with its number.
    Unlisted(u32),
}

/// How a database call failed.
#[derive(Debug, Clone, PartialEq, Eq)]
pub enum SqliteErrorKind {
    Failure { code: SqliteCode, message: Option<String> },
    InvalidColumnName(String),
    InvalidColumnIndex(usize),
    InvalidColumnType { index: usize, name: String, value_type: String },
    StatementChangedRows(usize),
    InvalidPath(String),
    SqlInput(String),
    /// Any error not listed above.
    Unlisted,
}

/// Why a command failed. Each kind keeps the text of the error that
/// caused it.
#[derive(Debug, Clone, PartialEq, Eq)]
pub enum CliError {
    MetaParseError { kind: JsonErrorKind, text: String },
    MetaOpenError { kind: IoErrorKind, text: String },
    SqliteError { kind: SqliteErrorKind, text: String },
    ConfigError { text: String },
    Other { text: String },
    HashingError { kind: HashErrorKind, text: String },
}

/// The kind of a failed password hashing (`password_hash::Error`).
#[derive(Debug, Clone, PartialEq, Eq)]
pub enum HashErrorKind {
    Algorithm,
    B64Encoding,
    Crypto,
    OutputSize,
    ParamNameDuplicated,
    ParamNameInvalid,
    ParamValueInvalid,
    Password,
    PhcStringField,
    PhcStringTrailingData,
    SaltInvalid,
    Version,
    /// Any other kind, with the error's `Debug` text.
    Unlisted { debug: String },
}

/// The tip printed under a failed password hashing.
pub open spec fn hash_tip(kind: HashErrorKind) -> Seq<char> {
    match kind {
        HashErrorKind::Algorithm => "   • Unsupported or invalid algorithm"@,
        HashErrorKind::B64Encoding => "   • Hash or salt contains invalid base64 characters"@,
        HashErrorKind::Crypto => "   • Cryptographic operation failed"@,
        HashErrorKind::OutputSize => "   • Invalid output size specified"@,
        HashErrorKind::ParamNameDuplicated => "   • Duplicate parameter name in hash string"@,
        HashErrorKind::ParamNameInvalid => "   • Invalid parameter name"@,
        HashErrorKind::ParamValueInvalid => "   • Invalid parameter value"@,
        HashErrorKind::Password => "   • Password format is invalid"@,
        HashErrorKind::PhcStringField => "   • Invalid PHC string field"@,
        HashErrorKind::PhcStringTrailingData => "   • Unexpected trailing data in hash string"@,
        HashErrorKind::SaltInvalid => "   • Invalid salt format or length"@,
        HashErrorKind::Version => "   • Unsupported algorithm version"@,
        HashErrorKind::Unlisted { debug } => "   • Password hashing error: "@ + debug@,
    }
}

/// Appends the tip of a failed password hashing.
fn put_hash_tip(lines: &mut Vec<String>, kind: &HashErrorKind)
    ensures
        views(final(lines)@) == views(old(lines)@).push(hash_tip(*kind)),
{
    match kind {
        HashErrorKind::Algorithm => put(lines, "   • Unsupported or invalid algorithm"),
        HashErrorKind::B64Encoding => put(lines, "   • Hash or salt contains invalid base64 characters"),
        HashErrorKind::Crypto => put(lines, "   • Cryptographic operation failed"),
        HashErrorKind::OutputSize => put(lines, "   • Invalid output size specified"),
        HashErrorKind::ParamNameDuplicated => put(lines, "   • Duplicate parameter name in hash string"),
        HashErrorKind::ParamNameInvalid => put(lines, "   • Invalid parameter name"),
        HashErrorKind::ParamValueInvalid => put(lines, "   • Invalid parameter value"),
        HashErrorKind::Password => put(lines, "   • Password format is invalid"),
        HashErrorKind::PhcStringField => put(lines, "   • Invalid PHC string field"),
        HashErrorKind::PhcStringTrailingData => put(lines, "   • Unexpected trailing data in hash string"),
        HashErrorKind::SaltInvalid => put(lines, "   • Invalid salt format or length"),
        HashErrorKind::Version => put(lines, "   • Unsupported algorithm version"),
        HashErrorKind::Unlisted { debug } => put2(lines, "   • Password hashing error: ", debug.as_str()),
    }
}

/// A tip line: a bullet before `s`.
pub open spec fn bullet(s: Seq<char>) -> Seq<char> {
    "   • "@ + s
}

/// The tips printed under an unreadable metadata file.
pub open spec fn json_tips(kind: JsonErrorKind, text: Seq<char>) -> Seq<Seq<char>> {
    match kind {
        JsonErrorKind::Syntax { line, column } => seq![
            "   • JSON syntax error at line "@ + decimal(line as nat) + ", column "@ + decimal(
                column as nat,
            ),
            "   • Check for missing commas, brackets, or quotes near this location"@,
            "   • Look for trailing commas or unclosed strings"@,
        ],
        JsonErrorKind::Data => seq![
            "   • Data format error: "@ + text,
            "   • JSON structure doesn't match expected format"@,
            "   • Check if all required fields are present"@,
            "   • Verify field names and types are correct"@,
        ],
        JsonErrorKind::Eof => seq![
            "   • Unexpected end of file"@,
            "   • meta.json appears to be incomplete"@,
            "   • Check if the file was truncated during save"@,
            "   • Ensure all brackets and braces are properly closed"@,
        ],
        JsonErrorKind::Io => seq![
            "   • I/O error while reading JSON: "@ + text,
            "   • Check file permissions and disk space"@,
            "   • Ensure the file is not locked by another process"@,
        ],
    }
}

/// The tips printed under a metadata file that cannot be opened.
pub open spec fn io_tips(kind: IoErrorKind, text: Seq<char>) -> Seq<Seq<char>> {
    match kind {
        IoErrorKind::NotFound => seq![
            "   • meta.json file not found"@,
            "   • Make sure you're in the correct directory"@,
            "   • Create meta.json if it doesn't exist"@,
            "   • Check if the file name is spelled correctly"@,
        ],
        IoErrorKind::PermissionDenied => seq![
            "   • Permission denied - check file permissions"@,
            "   • Try: chmod 644 meta.json"@,
            "   • Ensure you have read access to the file"@,
            "   • Check if the file is owned by another user"@,
        ],
        IoErrorKind::AlreadyExists => seq![
            "   • File already exists (unexpected in this context)"@,
            "   • This might indicate a logic error in the application"@,
        ],
        IoErrorKind::WouldBlock => seq![
            "   • File operation would block"@,
            "   • The file might be locked by another process"@,
            "   • Try closing other applications and retry"@,
        ],
        IoErrorKind::InvalidInput => seq![
            "   • Invalid file path or name"@,
            "   • Check for invalid characters in the path"@,
            "   • Ensure the path format is correct for your OS"@,
        ],
        IoErrorKind::InvalidData => seq![
            "   • File contains invalid data"@,
            "   • The file might be corrupted"@,
            "   • Try recreating meta.json"@,
        ],
        IoErrorKind::TimedOut => seq![
            "   • File operation timed out"@,
            "   • Network drive or slow storage device"@,
            "   • Try again or check storage performance"@,
        ],
        IoErrorKind::Interrupted => seq![
            "   • File operation was interrupted"@,
            "   • Try the operation again"@,
        ],
        IoErrorKind::OutOfMemory => seq![
            "   • Out of memory"@,
            "   • Close other applications to free memory"@,
            "   • Check if the file is unusually large"@,
        ],
        IoErrorKind::Other => seq![
            "   • Other I/O error: "@ + text,
            "   • Check disk space and file system integrity"@,
            "   • Ensure the storage device is functioning properly"@,
        ],
        IoErrorKind::Unlisted => seq![
            "   • File system error: "@ + text,
            "   • Check disk space and file system integrity"@,
            "   • Ensure the file is not locked by another process"@,
        ],
    }
}

/// The tips printed under a failed database call.
pub open spec fn sqlite_tips(kind: SqliteErrorKind, text: Seq<char>) -> Seq<Seq<char>> {
    match kind {
        SqliteErrorKind::Failure { code, message } => match code {
            SqliteCode::DatabaseBusy => seq![
                "   • Database is locked by another process"@,
                "   • Close any other instances of the application"@,
                "   • Wait a moment and try again"@,
            ],
            SqliteCode::DatabaseLocked => seq![
                "   • Database is locked"@,
                "   • Another transaction may be in progress"@,
                "   • Close other database connections and retry"@,
            ],
            SqliteCode::ReadOnly => seq![
                "   • Database is read-only"@,
                "   • Check file permissions: chmod 644 database.db"@,
                "   • Ensure the directory is writable"@,
            ],
            SqliteCode::DatabaseCorrupt => seq![
                "   • Database file is corrupted"@,
                "   • Consider restoring from backup"@,
                "   • You may need to recreate the database"@,
            ],
            SqliteCode::ConstraintViolation => seq![
                "   • Database constraint violation"@,
                "   • Check for duplicate or invalid data"@,
                "   • Verify required fields are provided"@,
            ],
            SqliteCode::NotADatabase => seq![
                "   • File is not a valid SQLite database"@,
                "   • Check if the file was corrupted during transfer"@,
                "   • You may need to recreate the database"@,
            ],
            SqliteCode::CannotOpen => seq![
                "   • Cannot open database file"@,
                "   • Check file permissions and path"@,
                "   • Ensure directory exists and is writable"@,
            ],
            SqliteCode::Unlisted(n) => seq![
                "   • SQLite error ("@ + decimal(n as nat) + "): "@ + match message {
                    Some(m) => m@,
                    None => "No additional details"@,
                },
                "   • Check database file integrity"@,
                "   • Ensure sufficient disk space"@,
            ],
        },
        SqliteErrorKind::InvalidColumnName(name) => seq![
            "   • Invalid column name: '"@ + name@ + "'"@,
            "   • Check your SQL query for typos"@,
            "   • Verify the database schema matches expectations"@,
        ],
        SqliteErrorKind::InvalidColumnIndex(index) => seq![
            "   • Invalid column index: "@ + decimal(index as nat),
            "   • Column index is out of bounds"@,
            "   • Check your query result handling"@,
        ],
        SqliteErrorKind::InvalidColumnType { index, name, value_type } => seq![
            "   • Type mismatch for column "@ + decimal(index as nat) + " ('"@ + name@
                + "'): expected different type than "@ + value_type@,
            "   • Check data types in your query"@,
            "   • Verify column contains expected data type"@,
        ],
        SqliteErrorKind::StatementChangedRows(expected) => seq![
            "   • Expected to change "@ + decimal(expected as nat)
                + " row(s), but operation affected different number"@,
            "   • This might indicate data inconsistency"@,
            "   • Check your WHERE clauses and data"@,
        ],
        SqliteErrorKind::InvalidPath(path) => seq![
            "   • Invalid database path: "@ + path@,
            "   • Check if the path exists and is accessible"@,
            "   • Verify file permissions"@,
        ],
        SqliteErrorKind::SqlInput(error) => seq![
            "   • SQL syntax error: "@ + error@,
            "   • Check your SQL query for syntax issues"@,
            "   • Verify table and column names"@,
        ],
        SqliteErrorKind::Unlisted => seq![
            "   • Database error: "@ + text,
            "   • Check database file integrity"@,
            "   • Ensure sufficient disk space"@,
            "   • Try recreating the database if issue persists"@,
        ],
    }
}

/// The lines printed under a failed command: a heading, then its tips.
pub open spec fn spec_tip_lines(e: CliError) -> Seq<Seq<char>> {
    match e {
        CliError::MetaParseError { kind, text } => seq!["💡 Failed to parse meta.json:"@]
            + json_tips(kind, text@),
        CliError::MetaOpenError { kind, text } => seq!["💡 Cannot open meta.json file:"@] + io_tips(
            kind,
            text@,
        ),
        CliError::SqliteError { kind, text } => seq!["💡 SQLite database error:"@] + sqlite_tips(
            kind,
            text@,
        ),
        CliError::ConfigError { text } => seq![
            "⚙️  Configuration error occurred:"@,
            "   • Error details: "@ + text@,
            "   • Check if your config.yml file exists and is valid"@,
        ],
        CliError::HashingError { kind, .. } => seq!["💡 Password hashing failed:"@, hash_tip(kind)],
        CliError::Other { text } => seq![
            "💡 Unexpected error occurred:"@,
            "   • Error details: "@ + text@,
            "   • This may be a bug in the application"@,
            "   • Try running the command again"@,
            "   • Check if all required dependencies are installed"@,
            "   • Report this issue if it persists:"@,
            "     - Include the full error message"@,
            "     - Describe what you were trying to do"@,
            "     - Mention your operating system and version"@,
        ],
    }
}

/// Appends the line `s` to `lines`.
fn put(lines: &mut Vec<String>, s: &str)
    ensures
        views(final(lines)@) == views(old(lines)@).push(s@),
{
    lines.push(String::from_str(s));
    assert(views(lines@) =~= views(old(lines)@).push(s@));
}

/// Appends the line `a` then `b` to `lines`.
fn put2(lines: &mut Vec<String>, a: &str, b: &str)
    ensures
        views(final(lines)@) == views(old(lines)@).push(a@ + b@),
{
    let mut s = String::from_str(a);
    append_str(&mut s, b);
    lines.push(s);
    assert(views(lines@) =~= views(old(lines)@).push(a@ + b@));
}

impl CliError {
    /// The message printed first, after `❌ `.
    pub open spec fn spec_message(&self) -> Seq<char> {
        match self {
            CliError::MetaParseError { text, .. } => "Could not parse `meta.json`: "@ + text@,
            CliError::MetaOpenError { text, .. } => "Failed to open `meta.json`: "@ + text@,
            CliError::SqliteError { text, .. } => "SQLite error: "@ + text@,
            CliError::ConfigError { text } => "Config error: "@ + text@,
            CliError::HashingError { text, .. } => "Password hashing failed: "@ + text@,
            CliError::Other { text } => "Other: "@ + text@,
        }
    }

    /// The message of the error.
    pub fn message(&self) -> (r: String)
        ensures
            r@ == self.spec_message(),
    {
        let mut r = String::new();
        match self {
            CliError::MetaParseError { text, .. } => {
                append_str(&mut r, "Could not parse `meta.json`: ");
                append_str(&mut r, text.as_str());
            },
            CliError::MetaOpenError { text, .. } => {
                append_str(&mut r, "Failed to open `meta.json`: ");
                append_str(&mut r, text.as_str());
            },
            CliError::SqliteError { text, .. } => {
                append_str(&mut r, "SQLite error: ");
                append_str(&mut r, text.as_str());
            },
            CliError::ConfigError { text } => {
                append_str(&mut r, "Config error: ");
                append_str(&mut r, text.as_str());
            },
            CliError::HashingError { text, .. } => {
                append_str(&mut r, "Password hashing failed: ");
                append_str(&mut r, text.as_str());
            },
            CliError::Other { text } => {
                append_str(&mut r, "Other: ");
                append_str(&mut r, text.as_str());
            },
        }
        r
    }

    /// The exit code of the command: 10 for an unreadable metadata file,
    /// a configuration error or a failed password hashing, 11 for a
    /// metadata file that cannot be opened, 12 for a database error, 99
    /// otherwise.
    pub fn exit_code(&self) -> (c: i32)
        ensures
            c == match self {
                CliError::MetaParseError { .. } => 10i32,
                CliError::ConfigError { .. } => 10i32,
                CliError::HashingError { .. } => 10i32,
                CliError::MetaOpenError { .. } => 11i32,
                CliError::SqliteError { .. } => 12i32,
                CliError::Other { .. } => 99i32,
            },
    {
        match self {
            CliError::MetaParseError { .. } => 10,
            CliError::ConfigError { .. } => 10,
            CliError::HashingError { .. } => 10,
            CliError::MetaOpenError { .. } => 11,
            CliError::SqliteError { .. } => 12,
            CliError::Other { .. } => 99,
        }
    }
}

/// Appends the tips of an unreadable metadata file.
fn put_json_tips(lines: &mut Vec<String>, kind: JsonErrorKind, text: &String)
    ensures
        views(final(lines)@) == views(old(lines)@) + json_tips(kind, text@),
{
    match kind {
        JsonErrorKind::Syntax { line, column } => {
            let mut s = String::from_str("   • JSON syntax error at line ");
            push_decimal(&mut s, line as u64);
            append_str(&mut s, ", column ");
            push_decimal(&mut s, column as u64);
            lines.push(s);
            put(lines, "   • Check for missing commas, brackets, or quotes near this location");
            put(lines, "   • Look for trailing commas or unclosed strings");
        },
        JsonErrorKind::Data => {
            put2(lines, "   • Data format error: ", text.as_str());
            put(lines, "   • JSON structure doesn't match expected format");
            put(lines, "   • Check if all required fields are present");
            put(lines, "   • Verify field names and types are correct");
        },
        JsonErrorKind::Eof => {
            put(lines, "   • Unexpected end of file");
            put(lines, "   • meta.json appears to be incomplete");
            put(lines, "   • Check if the file was truncated during save");
            put(lines, "   • Ensure all brackets and braces are properly closed");
        },
        JsonErrorKind::Io => {
            put2(lines, "   • I/O error while reading JSON: ", text.as_str());
            put(lines, "   • Check file permissions and disk space");
            put(lines, "   • Ensure the file is not locked by another process");
        },
    }
    assert(views(lines@) =~= views(old(lines)@) + json_tips(kind, text@));
}

/// Appends the tips of a metadata file that cannot be opened.
fn put_io_tips(lines: &mut Vec<String>, kind: IoErrorKind, text: &String)
    ensures
        views(final(lines)@) == views(old(lines)@) + io_tips(kind, text@),
{
    match kind {
        IoErrorKind::NotFound => {
            put(lines, "   • meta.json file not found");
            put(lines, "   • Make sure you're in the correct directory");
            put(lines, "   • Create meta.json if it doesn't exist");
            put(lines, "   • Check if the file name is spelled correctly");
        },
        IoErrorKind::PermissionDenied => {
            put(lines, "   • Permission denied - check file permissions");
            put(lines, "   • Try: chmod 644 meta.json");
            put(lines, "   • Ensure you have read access to the file");
            put(lines, "   • Check if the file is owned by another user");
        },
        IoErrorKind::AlreadyExists => {
            put(lines, "   • File already exists (unexpected in this context)");
            put(lines, "   • This might indicate a logic error in the application");
        },
        IoErrorKind::WouldBlock => {
            put(lines, "   • File operation would block");
            put(lines, "   • The file might be locked by another process");
            put(lines, "   • Try closing other applications and retry");
        },
        IoErrorKind::InvalidInput => {
            put(lines, "   • Invalid file path or name");
            put(lines, "   • Check for invalid characters in the path");
            put(lines, "   • Ensure the path format is correct for your OS");
        },
        IoErrorKind::InvalidData => {
            put(lines, "   • File contains invalid data");
            put(lines, "   • The file might be corrupted");
            put(lines, "   • Try recreating meta.json");
        },
        IoErrorKind::TimedOut => {
            put(lines, "   • File operation timed out");
            put(lines, "   • Network drive or slow storage device");
            put(lines, "   • Try again or check storage performance");
        },
        IoErrorKind::Interrupted => {
            put(lines, "   • File operation was interrupted");
            put(lines, "   • Try the operation again");
        },
        IoErrorKind::OutOfMemory => {
            put(lines, "   • Out of memory");
            put(lines, "   • Close other applications to free memory");
            put(lines, "   • Check if the file is unusually large");
        },
        IoErrorKind::Other => {
            put2(lines, "   • Other I/O error: ", text.as_str());
            put(lines, "   • Check disk space and file system integrity");
            put(lines, "   • Ensure the storage device is functioning properly");
        },
        IoErrorKind::Unlisted => {
            put2(lines, "   • File system error: ", text.as_str());
            put(lines, "   • Check disk space and file system integrity");
            put(lines, "   • Ensure the file is not locked by another process");
        },
    }
    assert(views(lines@) =~= views(old(lines)@) + io_tips(kind, text@));
}

/// Appends the tips of a failed SQLite call with result `code`.
fn put_failure_tips(lines: &mut Vec<String>, code: SqliteCode, message: &Option<String>)
    ensures
        views(final(lines)@) == views(old(lines)@) + sqlite_tips(
            SqliteErrorKind::Failure { code, message: *message },
            Seq::empty(),
        ),
{
    match code {
        SqliteCode::DatabaseBusy => {
            put(lines, "   • Database is locked by another process");
            put(lines, "   • Close any other instances of the application");
            put(lines, "   • Wait a moment and try again");
        },
        SqliteCode::DatabaseLocked => {
            put(lines, "   • Database is locked");
            put(lines, "   • Another transaction may be in progress");
            put(lines, "   • Close other database connections and retry");
        },
        SqliteCode::ReadOnly => {
            put(lines, "   • Database is read-only");
            put(lines, "   • Check file permissions: chmod 644 database.db");
            put(lines, "   • Ensure the directory is writable");
        },
        SqliteCode::DatabaseCorrupt => {
            put(lines, "   • Database file is corrupted");
            put(lines, "   • Consider restoring from backup");
            put(lines, "   • You may need to recreate the database");
        },
        SqliteCode::ConstraintViolation => {
            put(lines, "   • Database constraint violation");
            put(lines, "   • Check for duplicate or invalid data");
            put(lines, "   • Verify required fields are provided");
        },
        SqliteCode::NotADatabase => {
            put(lines, "   • File is not a valid SQLite database");
            put(lines, "   • Check if the file was corrupted during transfer");
            put(lines, "   • You may need to recreate the database");
        },
        SqliteCode::CannotOpen => {
            put(lines, "   • Cannot open database file");
            put(lines, "   • Check file permissions and path");
            put(lines, "   • Ensure directory exists and is writable");
        },
        SqliteCode::Unlisted(n) => {
            let mut s = String::from_str("   • SQLite error (");
            push_decimal(&mut s, n as u64);
            append_str(&mut s, "): ");
            match message {
                Some(m) => append_str(&mut s, m.as_str()),
                None => append_str(&mut s, "No additional details"),
            }
            lines.push(s);
            put(lines, "   • Check database file integrity");
            put(lines, "   • Ensure sufficient disk space");
        },
    }
    assert(views(lines@) =~= views(old(lines)@) + sqlite_tips(
        SqliteErrorKind::Failure { code, message: *message },
        Seq::empty(),
    ));
}

/// Appends the tips of a failed database call.
fn put_sqlite_tips(lines: &mut Vec<String>, kind: &SqliteErrorKind, text: &String)
    ensures
        views(final(lines)@) == views(old(lines)@) + sqlite_tips(*kind, text@),
{
    match kind {
        SqliteErrorKind::Failure { code, message } => {
            put_failure_tips(lines, *code, message);
        },
        SqliteErrorKind::InvalidColumnName(name) => {
            let mut s = String::from_str("   • Invalid column name: '");
            append_str(&mut s, name.as_str());
            append_str(&mut s, "'");
            lines.push(s);
            put(lines, "   • Check your SQL query for typos");
            put(lines, "   • Verify the database schema matches expectations");
        },
        SqliteErrorKind::InvalidColumnIndex(index) => {
            let mut s = String::from_str("   • Invalid column index: ");
            push_decimal(&mut s, *index as u64);
            lines.push(s);
            put(lines, "   • Column index is out of bounds");
            put(lines, "   • Check your query result handling");
        },
        SqliteErrorKind::InvalidColumnType { index, name, value_type } => {
            let mut s = String::from_str("   • Type mismatch for column ");
            push_decimal(&mut s, *index as u64);
            append_str(&mut s, " ('");
            append_str(&mut s, name.as_str());
            append_str(&mut s, "'): expected different type than ");
            append_str(&mut s, value_type.as_str());
            lines.push(s);
            put(lines, "   • Check data types in your query");
            put(lines, "   • Verify column contains expected data type");
        },
        SqliteErrorKind::StatementChangedRows(expected) => {
            let mut s = String::from_str("   • Expected to change ");
            push_decimal(&mut s, *expected as u64);
            append_str(&mut s, " row(s), but operation affected different number");
            lines.push(s);
            put(lines, "   • This might indicate data inconsistency");
            put(lines, "   • Check your WHERE clauses and data");
        },
        SqliteErrorKind::InvalidPath(path) => {
            put2(lines, "   • Invalid database path: ", path.as_str());
            put(lines, "   • Check if the path exists and is accessible");
            put(lines, "   • Verify file permissions");
        },
        SqliteErrorKind::SqlInput(error) => {
            put2(lines, "   • SQL syntax error: ", error.as_str());
            put(lines, "   • Check your SQL query for syntax issues");
            put(lines, "   • Verify table and column names");
        },
        SqliteErrorKind::Unlisted => {
            put2(lines, "   • Database error: ", text.as_str());
            put(lines, "   • Check database file integrity");
            put(lines, "   • Ensure sufficient disk space");
            put(lines, "   • Try recreating the database if issue persists");
        },
    }
    assert(views(lines@) =~= views(old(lines)@) + sqlite_tips(*kind, text@));
}

impl CliError {
    /// The lines printed under the error's message: a heading and the tips
    /// for that kind of failure.
    pub fn tip_lines(&self) -> (r: Vec<String>)
        ensures
            views(r@) == spec_tip_lines(*self),
    {
        let mut lines: Vec<String> = Vec::new();
        match self {
            CliError::MetaParseError { kind, text } => {
                put(&mut lines, "💡 Failed to parse meta.json:");
                put_json_tips(&mut lines, *kind, text);
            },
            CliError::MetaOpenError { kind, text } => {
                put(&mut lines, "💡 Cannot open meta.json file:");
                put_io_tips(&mut lines, *kind, text);
            },
            CliError::SqliteError { kind, text } => {
                put(&mut lines, "💡 SQLite database error:");
                put_sqlite_tips(&mut lines, kind, text);
            },
            CliError::ConfigError { text } => {
                put(&mut lines, "⚙️  Configuration error occurred:");
                put2(&mut lines, "   • Error details: ", text.as_str());
                put(&mut lines, "   • Check if your config.yml file exists and is valid");
            },
            CliError::HashingError { kind, .. } => {
                put(&mut lines, "💡 Password hashing failed:");
                put_hash_tip(&mut lines, kind);
            },
            CliError::Other { text } => {
                put(&mut lines, "💡 Unexpected error occurred:");
                put2(&mut lines, "   • Error details: ", text.as_str());
                put(&mut lines, "   • This may be a bug in the application");
                put(&mut lines, "   • Try running the command again");
                put(&mut lines, "   • Check if all required dependencies are installed");
                put(&mut lines, "   • Report this issue if it persists:");
                put(&mut lines, "     - Include the full error message");
                put(&mut lines, "     - Describe what you were trying to do");
                put(&mut lines, "     - Mention your operating system and version");
            },
        }
        assert(views(lines@) =~= spec_tip_lines(*self));
        lines
    }
}

// ---------------------------------------------------------------------
// Build information
// ---------------------------------------------------------------------

/// What is known of the binary: its version, where and how it was built.
#[derive(Debug, Clone)]
pub struct BuildInfo {
    pub version: String,
    pub target: String,
    pub profile: String,
    pub build_date: String,
    pub git_commit: Option<String>,
    pub git_branch: Option<String>,
    pub rustc_version: String,
}

/// The lines that describe a build, without their colours: a blank line, a
/// title, one line per known field, and the Git lines only where known.
pub open spec fn spec_build_lines(
    version: Seq<char>,
    target: Seq<char>,
    profile: Seq<char>,
    build_date: Seq<char>,
    git_commit: Option<Seq<char>>,
    git_branch: Option<Seq<char>>,
    rustc_version: Seq<char>,
) -> Seq<Seq<char>> {
    let head = seq![
        ""@,
        "Binary Information:"@,
        "  Version:  "@ + version,
        "  Built:  "@ + build_date,
        "  Target:  "@ + target,
        "  Profile: "@ + profile,
        "  Rustc:  "@ + rustc_version,
    ];
    let with_commit = match git_commit {
        Some(c) => head.push("  Git commit: "@ + c),
        None => head,
    };
    match git_branch {
        Some(b) => with_commit.push("  Git branch: "@ + b),
        None => with_commit,
    }
}

/// The view of an optional string.
pub open spec fn opt_view(o: Option<String>) -> Option<Seq<char>> {
    match o {
        Some(s) => Some(s@),
        None => None,
    }
}

impl BuildInfo {
    /// The lines printed for this build.
    pub open spec fn spec_lines(&self) -> Seq<Seq<char>> {
        spec_build_lines(
            self.version@,
            self.target@,
            self.profile@,
            self.build_date@,
            opt_view(self.git_commit),
            opt_view(self.git_branch),
            self.rustc_version@,
        )
    }

    /// The lines printed for this build, in order.
    pub fn lines(&self) -> (r: Vec<String>)
        ensures
            views(r@) == self.spec_lines(),
    {
        let mut lines: Vec<String> = Vec::new();
        put(&mut lines, "");
        put(&mut lines, "Binary Information:");
        put2(&mut lines, "  Version:  ", self.version.as_str());
        put2(&mut lines, "  Built:  ", self.build_date.as_str());
        put2(&mut lines, "  Target:  ", self.target.as_str());
        put2(&mut lines, "  Profile: ", self.profile.as_str());
        put2(&mut lines, "  Rustc:  ", self.rustc_version.as_str());
        let ghost head = seq![
            ""@,
            "Binary Information:"@,
            "  Version:  "@ + self.version@,
            "  Built:  "@ + self.build_date@,
            "  Target:  "@ + self.target@,
            "  Profile: "@ + self.profile@,
            "  Rustc:  "@ + self.rustc_version@,
        ];
        assert(views(lines@) =~= head);
        match &self.git_commit {
            Some(c) => put2(&mut lines, "  Git commit: ", c.as_str()),
            None => {},
        }
        match &self.git_branch {
            Some(b) => put2(&mut lines, "  Git branch: ", b.as_str()),
            None => {},
        }
        assert(views(lines@) =~= self.spec_lines());
        lines
    }
}

// ---------------------------------------------------------------------
// Database information
// ---------------------------------------------------------------------

/// The decimal text of `n`, with `-` before it when it is negative.
pub open spec fn signed_decimal(n: int) -> Seq<char> {
    if n < 0 {
        seq!['-'] + decimal((-n) as nat)
    } else {
        decimal(n as nat)
    }
}

/// Appends the line `s` to `lines`.
fn put_string(lines: &mut Vec<String>, s: String)
    ensures
        views(final(lines)@) == views(old(lines)@).push(s@),
{
    lines.push(s);
    assert(views(lines@) =~= views(old(lines)@).push(s@));
}

/// Appends the decimal text of `n` to `s`.
fn push_signed_decimal(s: &mut String, n: i64)
    ensures
        final(s)@ == old(s)@ + signed_decimal(n as int),
{
    if n < 0 {
        push_char(s, '-');
        let m: u64 = (-(n as i128)) as u64;
        push_decimal(s, m);
        assert(s@ =~= old(s)@ + signed_decimal(n as int));
    } else {
        push_decimal(s, n as u64);
    }
}

/// What is shown of a database: where it is, the versions of SQLite and
/// of its vector extension, its pages, schema version, encoding, journal
/// mode and tables. Its size is written by the caller.
#[derive(Debug, Clone)]
pub struct DatabaseInfo {
    pub path: String,
    pub sqlite_version: String,
    pub sqlite_vec_version: String,
    pub page_count: i64,
    pub page_size: i64,
    pub schema_version: i64,
    pub tables: Vec<String>,
    pub encoding: String,
    pub journal_mode: String,
}

/// The line that counts the tables: `table` for one, `tables` otherwise.
pub open spec fn tables_count_line(n: nat) -> Seq<char> {
    "  Tables:       "@ + decimal(n) + (if n == 1 {
        " table"@
    } else {
        " tables"@
    })
}

/// The line of each table, or the one line saying there is none.
pub open spec fn table_lines(tables: Seq<Seq<char>>) -> Seq<Seq<char>> {
    if tables.len() == 0 {
        seq!["    (no tables)"@]
    } else {
        tables.map_values(|t: Seq<char>| "    • "@ + t)
    }
}

impl DatabaseInfo {
    /// The lines printed for this database, without their colours, with
    /// `size_text` written after `Size:`.
    pub open spec fn spec_lines(&self, size_text: Seq<char>) -> Seq<Seq<char>> {
        seq![
            ""@,
            "Database Information:"@,
            "  Path: "@ + self.path@,
            "  sqlite_version: v"@ + self.sqlite_version@,
            "  sqlite-vec_version: "@ + self.sqlite_vec_version@,
            "  Size:         "@ + size_text,
            "  Page count:   "@ + signed_decimal(self.page_count as int),
            "  Page size:    "@ + signed_decimal(self.page_size as int) + " bytes"@,
            "  Schema ver:   "@ + signed_decimal(self.schema_version as int),
            "  Encoding:     "@ + self.encoding@,
            "  Journal mode: "@ + self.journal_mode@,
            tables_count_line(self.tables@.len()),
        ] + table_lines(views(self.tables@))
    }

    /// The lines printed for this database, in order.
    pub fn lines(&self, size_text: &str) -> (r: Vec<String>)
        ensures
            views(r@) == self.spec_lines(size_text@),
    {
        let mut lines: Vec<String> = Vec::new();
        put(&mut lines, "");
        put(&mut lines, "Database Information:");
        put2(&mut lines, "  Path: ", self.path.as_str());
        put2(&mut lines, "  sqlite_version: v", self.sqlite_version.as_str());
        put2(&mut lines, "  sqlite-vec_version: ", self.sqlite_vec_version.as_str());
        put2(&mut lines, "  Size:         ", size_text);
        let mut l = String::from_str("  Page count:   ");
        push_signed_decimal(&mut l, self.page_count);
        put_string(&mut lines, l);
        let mut l = String::from_str("  Page size:    ");
        push_signed_decimal(&mut l, self.page_size);
        append_str(&mut l, " bytes");
        put_string(&mut lines, l);
        let mut l = String::from_str("  Schema ver:   ");
        push_signed_decimal(&mut l, self.schema_version);
        put_string(&mut lines, l);
        put2(&mut lines, "  Encoding:     ", self.encoding.as_str());
        put2(&mut lines, "  Journal mode: ", self.journal_mode.as_str());
        let n = self.tables.len();
        let mut l = String::from_str("  Tables:       ");
        push_decimal(&mut l, n as u64);
        if n == 1 {
            append_str(&mut l, " table");
        } else {
            append_str(&mut l, " tables");
        }
        put_string(&mut lines, l);
        let ghost head = views(lines@);
        assert(head =~= seq![
            ""@,
            "Database Information:"@,
            "  Path: "@ + self.path@,
            "  sqlite_version: v"@ + self.sqlite_version@,
            "  sqlite-vec_version: "@ + self.sqlite_vec_version@,
            "  Size:         "@ + size_text@,
            "  Page count:   "@ + signed_decimal(self.page_count as int),
            "  Page size:    "@ + signed_decimal(self.page_size as int) + " bytes"@,
            "  Schema ver:   "@ + signed_decimal(self.schema_version as int),
            "  Encoding:     "@ + self.encoding@,
            "  Journal mode: "@ + self.journal_mode@,
            tables_count_line(self.tables@.len()),
        ]);
        if n == 0 {
            put(&mut lines, "    (no tables)");
        } else {
            let mut i: usize = 0;
            while i < n
                invariant
                    n == self.tables@.len(),
                    i <= n,
                    views(lines@) == head + views(self.tables@).take(i as int).map_values(
                        |t: Seq<char>| "    • "@ + t,
                    ),
                decreases n - i,
            {
                let ghost before = views(lines@);
                put2(&mut lines, "    • ", self.tables[i].as_str());
                assert(views(self.tables@).take(i + 1) =~= views(self.tables@).take(i as int).push(
                    self.tables@[i as int]@,
                ));
                assert(views(lines@) =~= head + views(self.tables@).take(i + 1).map_values(
                    |t: Seq<char>| "    • "@ + t,
                ));
                i = i + 1;
            }
            assert(views(self.tables@).take(n as int) =~= views(self.tables@));
        }
        assert(views(lines@) =~= self.spec_lines(size_text@));
        lines
    }
}

} // verus!

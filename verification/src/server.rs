//! What the search server hands around: the views of the search history
//! and of favourite searches, the table of results, the environment it
//! runs in, its database settings, and the answer of the embedding cache.

use vstd::prelude::*;
use crate::common::{lowercase, to_lowercase};
use crate::datasources::{str_eq_literal, views};
use crate::embeddings::{all_digits, digits_value, is_digit, parse_u64, spec_parse_u64, without_plus};
use crate::ingest::JsonValue;
use crate::search::SearchStrategy;
use crate::text::chars_of;

verus! {

// ---------------------------------------------------------------------
// Environment and settings
// ---------------------------------------------------------------------

/// Where the server runs.
#[derive(Debug, Clone, Copy, PartialEq, Eq, Structural)]
pub enum Environment {
    Local,
    Production,
}

/// A name that is neither `local` nor `production` (kept in lower case).
#[derive(Debug)]
pub struct UnsupportedEnvironment {
    pub name: String,
}

impl Environment {
    /// The name of the environment: `local` or `production`.
    pub fn as_str(&self) -> (r: &'static str)
        ensures
            r@ == match self {
                Environment::Local => "local"@,
                Environment::Production => "production"@,
            },
    {
        match self {
            Environment::Local => "local",
            Environment::Production => "production",
        }
    }

    /// The environment named `value`, ignoring case.
    pub fn try_from(value: String) -> (r: Result<Self, UnsupportedEnvironment>)
        ensures
            ({
                let l = lowercase(value@);
                match r {
                    Ok(Environment::Local) => l == "local"@,
                    Ok(Environment::Production) => l == "production"@ && l != "local"@,
                    Err(e) => l != "local"@ && l != "production"@ && e.name@ == l,
                }
            }),
    {
        let lower = to_lowercase(value.as_str());
        if str_eq_literal(lower.as_str(), "local") {
            Ok(Environment::Local)
        } else if str_eq_literal(lower.as_str(), "production") {
            Ok(Environment::Production)
        } else {
            Err(UnsupportedEnvironment { name: lower })
        }
    }
}

impl UnsupportedEnvironment {
    /// The message that explains the error.
    pub fn message(&self) -> (r: String)
        ensures
            r@ == self.name@ + " is not a supported environment. Use either 'local' or 'production'"@,
    {
        let mut r = String::from_str(self.name.as_str());
        r.append(" is not a supported environment. Use either 'local' or 'production'");
        r
    }
}

/// Where the database is and how many connections the server keeps open
/// to it.
#[derive(Debug, Clone)]
pub struct DatabaseSettings {
    pub pool_size: usize,
    pub db_path: String,
}

// ---------------------------------------------------------------------
// Search history
// ---------------------------------------------------------------------

/// One past search of a document, as the history lists it.
#[derive(Debug, Clone)]
pub struct HistorialView {
    pub id: u64,
    pub query: String,
}

impl HistorialView {
    /// The entry with this id and query.
    pub fn new(id: u64, query: String) -> (r: Self)
        ensures
            r.id == id,
            r.query == query,
    {
        HistorialView { id, query }
    }
}

/// One past search, as the user interface shows it.
#[derive(Debug, Clone)]
pub struct Historial {
    pub id: u64,
    pub query: String,
}

impl Historial {
    /// The entry with this id and query.
    pub fn new(id: u64, query: String) -> (r: Self)
        ensures
            r.id == id,
            r.query == query,
    {
        Historial { id, query }
    }
}

// ---------------------------------------------------------------------
// Tables of results
// ---------------------------------------------------------------------

/// A table of results with a message above it.
#[derive(Debug, Clone)]
pub struct Table {
    pub msg: String,
    pub columns: Vec<String>,
    pub rows: Vec<Vec<String>>,
}

impl Table {
    /// The table shown when nothing was found.
    pub fn empty_result() -> (t: Self)
        ensures
            t.msg@ == "No se encontraron ningun registro."@,
            t.columns@.len() == 0,
            t.rows@.len() == 0,
    {
        Table {
            msg: String::from_str("No se encontraron ningun registro."),
            columns: Vec::new(),
            rows: Vec::new(),
        }
    }
}

impl Default for Table {
    fn default() -> (t: Self)
        ensures
            t.msg@ == "No se encontraron ningun registro."@,
            t.columns@.len() == 0,
            t.rows@.len() == 0,
    {
        Table::empty_result()
    }
}

/// A table of results as the server sends it.
#[derive(Debug, Clone)]
pub struct TableView {
    pub msg: String,
    pub columns: Vec<String>,
    pub rows: Vec<Vec<String>>,
}

// ---------------------------------------------------------------------
// The embedding cache
// ---------------------------------------------------------------------

/// Where a search's embedding came from: the cache, a fresh request, or
/// nowhere because the strategy needs none.
#[derive(Debug, Clone, PartialEq, Eq)]
pub enum CacheResult<T> {
    Hit(T),
    Miss(T),
    Skip,
}

impl<T> CacheResult<T> {
    /// The embedding, if there is one.
    pub fn into_inner(self) -> (r: Option<T>)
        ensures
            r == match self {
                CacheResult::Hit(v) => Some(v),
                CacheResult::Miss(v) => Some(v),
                CacheResult::Skip => None::<T>,
            },
    {
        match self {
            CacheResult::Hit(value) => Some(value),
            CacheResult::Miss(value) => Some(value),
            CacheResult::Skip => None,
        }
    }

    /// Whether the embedding came from the cache.
    pub fn is_hit(&self) -> (b: bool)
        ensures
            b == (self is Hit),
    {
        match self {
            CacheResult::Hit(_) => true,
            _ => false,
        }
    }
}

/// Why an embedding could not be had.
#[derive(Debug, Clone, PartialEq, Eq)]
pub enum CacheError {
    EmbeddingError(String),
    CacheError(String),
}

impl CacheError {
    /// The message that explains the error.
    pub fn message(&self) -> (r: String)
        ensures
            r@ == match self {
                CacheError::EmbeddingError(s) => "Embedding generation failed: "@ + s@,
                CacheError::CacheError(s) => "Cache operation failed: "@ + s@,
            },
    {
        match self {
            CacheError::EmbeddingError(s) => {
                let mut r = String::from_str("Embedding generation failed: ");
                r.append(s.as_str());
                r
            },
            CacheError::CacheError(s) => {
                let mut r = String::from_str("Cache operation failed: ");
                r.append(s.as_str());
                r
            },
        }
    }
}

/// Whether a search with this strategy needs the embedding of its query
/// (the full-text search does not).
pub fn needs_embedding(strategy: SearchStrategy) -> (b: bool)
    ensures
        b <==> strategy != SearchStrategy::Fts,
{
    match strategy {
        SearchStrategy::Fts => false,
        _ => true,
    }
}

/// What the cache lookup decides for a search: `Some(Skip)` for a
/// strategy that needs no embedding, `Some(Hit)` with the cached embedding
/// when there is one, and `None` when a fresh embedding must be requested.
pub fn cache_lookup<T>(strategy: SearchStrategy, cached: Option<T>) -> (r: Option<CacheResult<T>>)
    ensures
        strategy == SearchStrategy::Fts ==> r == Some(CacheResult::<T>::Skip),
        strategy != SearchStrategy::Fts ==> r == match cached {
            Some(v) => Some(CacheResult::Hit(v)),
            None => None::<CacheResult<T>>,
        },
{
    if !needs_embedding(strategy) {
        return Some(CacheResult::Skip);
    }
    match cached {
        Some(v) => Some(CacheResult::Hit(v)),
        None => None,
    }
}

/// The answer once a fresh embedding was requested: `Miss` with it, or
/// `EmbeddingError` with the request's error message.
pub fn cache_fill<T>(requested: Result<T, String>) -> (r: Result<CacheResult<T>, CacheError>)
    ensures
        r == match requested {
            Ok(v) => Ok::<CacheResult<T>, CacheError>(CacheResult::Miss(v)),
            Err(e) => Err(CacheError::EmbeddingError(e)),
        },
{
    match requested {
        Ok(v) => Ok(CacheResult::Miss(v)),
        Err(e) => Err(CacheError::EmbeddingError(e)),
    }
}

// ---------------------------------------------------------------------
// Timers
// ---------------------------------------------------------------------

/// The timer that writes the time of day in the server's log lines.
#[derive(Debug, Clone, Copy, PartialEq, Eq, Structural)]
pub struct GulfiTimer;

impl GulfiTimer {
    /// The timer.
    pub fn new() -> (t: Self)
        ensures
            t == GulfiTimer,
    {
        GulfiTimer
    }
}

impl Default for GulfiTimer {
    fn default() -> (t: Self)
        ensures
            t == GulfiTimer,
    {
        GulfiTimer::new()
    }
}

// ---------------------------------------------------------------------
// Records of the people searched
// ---------------------------------------------------------------------

/// A person as the records being searched describe them.
#[derive(Debug, Clone, Default)]
pub struct TneaData {
    pub email: String,
    pub nombre: String,
    pub sexo: String,
    pub fecha_nacimiento: String,
    pub edad: usize,
    pub provincia: String,
    pub ciudad: String,
    pub descripcion: String,
    pub estudios: String,
    pub experiencia: String,
    pub estudios_mas_recientes: String,
}

/// A text field that may be missing or `null` reads as the empty text.
pub fn text_or_empty(v: Option<String>) -> (r: String)
    ensures
        r@ == match v {
            Some(s) => s@,
            None => Seq::<char>::empty(),
        },
{
    match v {
        Some(s) => s,
        None => String::new(),
    }
}

/// Why an age could not be read.
#[derive(Debug, Clone, Copy, PartialEq, Eq, Structural)]
pub enum AgeError {
    /// A text holding something else than digits.
    InvalidDigit,
    /// A text holding a number too large for `usize`.
    TooLarge,
    /// A number that is not a non-negative integer.
    InvalidNumberFormat,
    /// Neither a text nor a number.
    ExpectedStringOrNumber,
}

impl AgeError {
    /// The message that explains the error.
    pub fn message(&self) -> (r: &'static str)
        ensures
            r@ == match self {
                AgeError::InvalidDigit => "invalid digit found in string"@,
                AgeError::TooLarge => "number too large to fit in target type"@,
                AgeError::InvalidNumberFormat => "Invalid number format"@,
                AgeError::ExpectedStringOrNumber => "Expected string or number"@,
            },
    {
        match self {
            AgeError::InvalidDigit => "invalid digit found in string",
            AgeError::TooLarge => "number too large to fit in target type",
            AgeError::InvalidNumberFormat => "Invalid number format",
            AgeError::ExpectedStringOrNumber => "Expected string or number",
        }
    }
}

/// How the age of a record is read from its JSON value: the empty text
/// and `null` are 0; a text is read as a decimal number (an optional `+`
/// then digits, as `str::parse::<usize>`); a number must be a
/// non-negative integer (its JSON text is then plain digits); anything
/// else is refused.
pub open spec fn spec_age(v: JsonValue) -> Result<usize, AgeError> {
    match v {
        JsonValue::Null => Ok(0),
        JsonValue::Text(t) => if t@.len() == 0 {
            Ok(0)
        } else {
            let d = without_plus(t@);
            if d.len() == 0 || !all_digits(d) {
                Err(AgeError::InvalidDigit)
            } else if digits_value(d) > usize::MAX {
                Err(AgeError::TooLarge)
            } else {
                Ok(digits_value(d) as usize)
            }
        },
        JsonValue::Number(n) => match spec_parse_u64(n@) {
            Some(x) => Ok(x as usize),
            None => Err(AgeError::InvalidNumberFormat),
        },
        _ => Err(AgeError::ExpectedStringOrNumber),
    }
}

/// Whether every character of `s` is a digit.
fn only_digits(s: &Vec<char>, from: usize) -> (b: bool)
    requires
        from <= s.len(),
    ensures
        b == all_digits(s@.subrange(from as int, s@.len() as int)),
{
    let mut i = from;
    while i < s.len()
        invariant
            from <= i <= s.len(),
            forall|k: int| from <= k < i ==> is_digit(s@[k]),
        decreases s.len() - i,
    {
        let code = s[i] as u32;
        if !(48 <= code && code <= 57) {
            assert(s@.subrange(from as int, s@.len() as int)[i - from] == s@[i as int]);
            return false;
        }
        i = i + 1;
    }
    assert forall|k: int| 0 <= k < s@.len() - from implies is_digit(
        #[trigger] s@.subrange(from as int, s@.len() as int)[k],
    ) by {
        assert(s@.subrange(from as int, s@.len() as int)[k] == s@[from + k]);
    }
    true
}

/// Reads the age of a record from its JSON value.
pub fn age_from_json(v: &JsonValue) -> (r: Result<usize, AgeError>)
    ensures
        r == spec_age(*v),
{
    match v {
        JsonValue::Null => Ok(0),
        JsonValue::Text(t) => {
            let c = chars_of(t.as_str());
            if c.len() == 0 {
                return Ok(0);
            }
            let start: usize = if c[0] == '+' { 1 } else { 0 };
            assert(without_plus(c@) =~= c@.subrange(start as int, c@.len() as int));
            if start >= c.len() || !only_digits(&c, start) {
                return Err(AgeError::InvalidDigit);
            }
            match parse_u64(t.as_str()) {
                Some(x) => {
                    if x as u128 > usize::MAX as u128 {
                        Err(AgeError::TooLarge)
                    } else {
                        Ok(x as usize)
                    }
                },
                None => Err(AgeError::TooLarge),
            }
        },
        JsonValue::Number(n) => match parse_u64(n.as_str()) {
            Some(x) => Ok(x as usize),
            None => Err(AgeError::InvalidNumberFormat),
        },
        _ => Err(AgeError::ExpectedStringOrNumber),
    }
}

// ---------------------------------------------------------------------
// Search parameters in a URI
// ---------------------------------------------------------------------

/// The parameters of a search, read from the query of its URI.
#[derive(Debug, Clone)]
pub struct SearchExtractor<T>(pub T);

/// The query part of a URI that is read: the empty text when it has none.
pub fn uri_query_text(query: Option<&str>) -> (r: &str)
    ensures
        query matches Some(q) ==> r@ == q@,
        query is None ==> r@ == Seq::<char>::empty(),
{
    match query {
        Some(q) => q,
        None => {
            proof {
                reveal_strlit("");
            }
            ""
        },
    }
}

// ---------------------------------------------------------------------
// Settings of the application
// ---------------------------------------------------------------------

/// The name of the application, where it listens and where its metadata
/// file is.
#[derive(Debug, Clone)]
pub struct ApplicationSettings {
    pub name: String,
    pub port: u16,
    pub host: String,
    pub meta_file_path: String,
}

impl ApplicationSettings {
    /// The settings given.
    pub fn new(name: String, port: u16, host: String, meta_file_path: String) -> (s: Self)
        ensures
            s.name == name,
            s.port == port,
            s.host == host,
            s.meta_file_path == meta_file_path,
    {
        ApplicationSettings { name, port, host, meta_file_path }
    }
}

/// A path given on the command line, or else the one of the
/// configuration.
pub fn path_or_configured(given: Option<String>, configured: String) -> (r: String)
    ensures
        r == match given {
            Some(p) => p,
            None => configured,
        },
{
    match given {
        Some(p) => p,
        None => configured,
    }
}

// ---------------------------------------------------------------------
// Streaming rows
// ---------------------------------------------------------------------

/// Rows gathered into batches before they are sent: a batch is sent once
/// it holds `batch_size` rows, and what is left when the rows end is sent
/// last.
pub struct RowBatcher {
    pub batch_size: usize,
    pub batch: Vec<Vec<String>>,
}

/// The rows of a batch, if there is one.
pub open spec fn opt_seq<T>(o: Option<Vec<T>>) -> Option<Seq<T>> {
    match o {
        Some(v) => Some(v@),
        None => None,
    }
}

/// One row added to the rows `pending` of batches of `size` rows: the
/// batch sent, if it is then full, and the rows left pending.
pub open spec fn batch_step<T>(size: nat, pending: Seq<T>, row: T) -> (Option<Seq<T>>, Seq<T>) {
    let grown = pending.push(row);
    if grown.len() >= size {
        (Some(grown), Seq::empty())
    } else {
        (None, grown)
    }
}

/// The rows `rows` added one by one to the rows `pending`: the batches
/// sent, in order, and the rows left pending at the end.
pub open spec fn batch_run<T>(size: nat, pending: Seq<T>, rows: Seq<T>) -> (Seq<Seq<T>>, Seq<T>)
    decreases rows.len(),
{
    if rows.len() == 0 {
        (Seq::empty(), pending)
    } else {
        let step = batch_step(size, pending, rows[0]);
        let rest = batch_run(size, step.1, rows.drop_first());
        match step.0 {
            Some(b) => (seq![b] + rest.0, rest.1),
            None => (rest.0, rest.1),
        }
    }
}

/// Streaming rows through a batcher loses, repeats and reorders none: the
/// batches sent, followed by the rows left pending, are the rows pending
/// before followed by the rows added. With fewer rows pending than the
/// batch size, every batch sent holds exactly that many rows and fewer
/// are left pending.
pub proof fn lemma_batches_keep_rows<T>(size: nat, pending: Seq<T>, rows: Seq<T>)
    ensures
        batch_run(size, pending, rows).0.flatten() + batch_run(size, pending, rows).1 == pending
            + rows,
        pending.len() < size ==> {
            &&& batch_run(size, pending, rows).1.len() < size
            &&& forall|i: int|
                0 <= i < batch_run(size, pending, rows).0.len() ==> (#[trigger] batch_run(
                    size,
                    pending,
                    rows,
                ).0[i]).len() == size
        },
    decreases rows.len(),
{
    if rows.len() > 0 {
        let step = batch_step(size, pending, rows[0]);
        lemma_batches_keep_rows(size, step.1, rows.drop_first());
        let rest = batch_run(size, step.1, rows.drop_first());
        assert(pending + rows =~= pending.push(rows[0]) + rows.drop_first());
        match step.0 {
            Some(b) => {
                let sent = seq![b] + rest.0;
                assert(sent.first() == b);
                assert(sent.drop_first() =~= rest.0);
                assert(sent.flatten() == b + rest.0.flatten());
                assert(sent.flatten() + rest.1 =~= b + (rest.0.flatten() + rest.1));
                assert(step.1 =~= Seq::<T>::empty());
                assert(Seq::<T>::empty() + rows.drop_first() =~= rows.drop_first());
                if pending.len() < size {
                    assert forall|i: int| 0 <= i < sent.len() implies (#[trigger] sent[i]).len() == size by {
                        if i > 0 {
                            assert(sent[i] == rest.0[i - 1]);
                        }
                    }
                }
            },
            None => {},
        }
    } else {
        assert(pending + rows =~= pending);
        assert(Seq::<Seq<T>>::empty().flatten() =~= Seq::<T>::empty());
        assert(Seq::<T>::empty() + pending =~= pending);
    }
}

impl RowBatcher {
    /// A batcher that sends batches of `batch_size` rows.
    pub fn new(batch_size: usize) -> (b: Self)
        ensures
            b.batch_size == batch_size,
            b.batch@.len() == 0,
    {
        RowBatcher { batch_size, batch: Vec::new() }
    }

    /// Adds a row; when the batch is then full it is handed back to be
    /// sent, and a new one starts.
    pub fn push(&mut self, row: Vec<String>) -> (sent: Option<Vec<Vec<String>>>)
        ensures
            final(self).batch_size == old(self).batch_size,
            (opt_seq(sent), final(self).batch@) == batch_step(
                old(self).batch_size as nat,
                old(self).batch@,
                row,
            ),
    {
        self.batch.push(row);
        if self.batch.len() >= self.batch_size {
            let mut full: Vec<Vec<String>> = Vec::new();
            std::mem::swap(&mut full, &mut self.batch);
            Some(full)
        } else {
            None
        }
    }

    /// The rows left when the rows end, if there are any.
    pub fn finish(self) -> (rest: Option<Vec<Vec<String>>>)
        ensures
            self.batch@.len() == 0 ==> rest is None,
            self.batch@.len() > 0 ==> rest == Some(self.batch),
    {
        if self.batch.len() == 0 {
            None
        } else {
            Some(self.batch)
        }
    }
}

// ---------------------------------------------------------------------
// Files of the user interface
// ---------------------------------------------------------------------

/// The file served for a request path: what follows `/assets` under
/// `assets`, and `index.html` for any other path.
pub open spec fn spec_ui_file(path: Seq<char>) -> Seq<char> {
    let prefix = seq!['/', 'a', 's', 's', 'e', 't', 's', '/'];
    if path.len() >= 8 && path.subrange(0, 8) == prefix {
        seq!['a', 's', 's', 'e', 't', 's'] + path.subrange(7, path.len() as int)
    } else {
        seq!['i', 'n', 'd', 'e', 'x', '.', 'h', 't', 'm', 'l']
    }
}

/// The file of the interface served for the request path `path`.
pub fn ui_file(path: &str) -> (r: String)
    ensures
        r@ == spec_ui_file(path@),
{
    let v = chars_of(path);
    let prefix: Vec<char> = vec!['/', 'a', 's', 's', 'e', 't', 's', '/'];
    if v.len() >= 8 && crate::text::matches_at(&v, &prefix, 0) {
        let mut r: Vec<char> = vec!['a', 's', 's', 'e', 't', 's'];
        let mut i: usize = 7;
        let ghost start = r@;
        while i < v.len()
            invariant
                7 <= i <= v@.len(),
                start == seq!['a', 's', 's', 'e', 't', 's'],
                r@ == start + v@.subrange(7, i as int),
            decreases v@.len() - i,
        {
            r.push(v[i]);
            assert(r@ =~= start + v@.subrange(7, i + 1));
            i = i + 1;
        }
        assert(v@.subrange(0, prefix@.len() as int) == prefix@);
        crate::text::string_from_chars(&r)
    } else {
        let r: Vec<char> = vec!['i', 'n', 'd', 'e', 'x', '.', 'h', 't', 'm', 'l'];
        crate::text::string_from_chars(&r)
    }
}

/// The caching asked of the browser for a served file: assets never
/// change, the page is always asked again.
pub fn cache_control_for(file: &str) -> (r: &'static str)
    ensures
        ({
            let f = file@;
            if f.len() >= 7 && f.subrange(0, 7) == seq!['a', 's', 's', 'e', 't', 's', '/'] {
                r@ == "public, max-age=31536000, immutable"@
            } else {
                r@ == "no-cache"@
            }
        }),
{
    let v = chars_of(file);
    let prefix: Vec<char> = vec!['a', 's', 's', 'e', 't', 's', '/'];
    if v.len() >= 7 && crate::text::matches_at(&v, &prefix, 0) {
        "public, max-age=31536000, immutable"
    } else {
        "no-cache"
    }
}

} // verus!

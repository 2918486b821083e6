//! The decisions taken by the commands of the command line: answers to
//! the interactive prompts, the document a deletion removes, the settings
//! a server run overrides, the configuration file and `.gitignore`
//! entries it writes, and the statistics of the connection pool.

use vstd::prelude::*;
use crate::common::{lowercase, to_lowercase};
use crate::datasources::{chars_eq, views, Document};
use crate::favorites::joined;
use crate::search::append_str;
use crate::text::{
    all_ascii, ascii_upper, chars_of, is_ascii_alphabetic, is_trimmed, lemma_lines_concat, lemma_lines_empty,
    lemma_trim_contains, lemma_trim_trimmed, lines, lines_of, push_char, strip_cr, trim, trim_range,
};
use crate::datasources::to_ascii_uppercase_char;

verus! {

// ---------------------------------------------------------------------
// Prompts
// ---------------------------------------------------------------------

/// The complaint about a name that is not plain ASCII.
pub open spec fn field_name_error() -> Seq<char> {
    "El nombre debe pertenecer a la regex [_a-zA-Z0-9]+"@
}

/// Accepts a field or document name when it is all ASCII.
pub fn validate_field_name(name: &str) -> (r: Result<(), String>)
    ensures
        match r {
            Ok(()) => all_ascii(name@),
            Err(msg) => !all_ascii(name@) && msg@ == field_name_error(),
        },
{
    let v = chars_of(name);
    let mut i: usize = 0;
    while i < v.len()
        invariant
            i <= v@.len(),
            v@ == name@,
            forall|k: int| 0 <= k < i ==> (v@[k] as u32) < 0x80,
        decreases v@.len() - i,
    {
        if (v[i] as u32) >= 0x80 {
            return Err(String::from_str("El nombre debe pertenecer a la regex [_a-zA-Z0-9]+"));
        }
        i = i + 1;
    }
    Ok(())
}

/// The options of a prompt as shown: each option, separated by `/`.
pub open spec fn spec_options_text(opts: Seq<char>) -> Seq<char>
    decreases opts.len(),
{
    if opts.len() == 0 {
        seq![]
    } else if opts.len() == 1 {
        seq![opts[0]]
    } else {
        spec_options_text(opts.drop_last()) + seq!['/', opts.last()]
    }
}

/// The options of a prompt as shown, e.g. `Y/N`.
pub fn options_text(opts: &Vec<char>) -> (r: String)
    ensures
        r@ == spec_options_text(opts@),
{
    let mut r = String::new();
    let mut i: usize = 0;
    while i < opts.len()
        invariant
            i <= opts@.len(),
            r@ == spec_options_text(opts@.take(i as int)),
        decreases opts@.len() - i,
    {
        assert(opts@.take(i + 1).drop_last() =~= opts@.take(i as int));
        if i > 0 {
            push_char(&mut r, '/');
        }
        push_char(&mut r, opts[i]);
        assert(r@ =~= spec_options_text(opts@.take(i + 1)));
        i = i + 1;
    }
    assert(opts@.take(opts@.len() as int) =~= opts@);
    r
}

/// The complaint about an answer that is not one of the options.
pub open spec fn option_error(opts: Seq<char>) -> Seq<char> {
    "Input invalida. Las opciones son ("@ + spec_options_text(opts) + ")"@
}

/// The option an answer picks: an answer of exactly one byte (a single
/// ASCII character), taken in upper case, that is one of the options.
pub open spec fn spec_pick_option(entry: Seq<char>, opts: Seq<char>) -> Option<char> {
    if entry.len() == 1 && (entry[0] as u32) < 0x80 && opts.contains(ascii_upper(entry[0])) {
        Some(ascii_upper(entry[0]))
    } else {
        None
    }
}

/// Reads an answer to a prompt with options: `Ok` with the option picked,
/// or the complaint listing the options.
pub fn pick_option(entry: &str, opts: &Vec<char>) -> (r: Result<char, String>)
    ensures
        match r {
            Ok(c) => spec_pick_option(entry@, opts@) == Some(c),
            Err(msg) => spec_pick_option(entry@, opts@) is None && msg@ == option_error(opts@),
        },
{
    let v = chars_of(entry);
    let mut complaint = String::from_str("Input invalida. Las opciones son (");
    append_str(&mut complaint, options_text(opts).as_str());
    append_str(&mut complaint, ")");
    if v.len() != 1 {
        return Err(complaint);
    }
    let code = v[0] as u32;
    if code >= 0x80 {
        return Err(complaint);
    }
    let c = to_ascii_uppercase_char(v[0]);
    let mut i: usize = 0;
    while i < opts.len()
        invariant
            i <= opts@.len(),
            v@ == entry@,
            v@.len() == 1,
            (v@[0] as u32) < 0x80,
            c == ascii_upper(v@[0]),
            complaint@ == option_error(opts@),
            forall|k: int| 0 <= k < i ==> opts@[k] != c,
        decreases opts@.len() - i,
    {
        if opts[i] == c {
            assert(opts@.contains(c));
            return Ok(c);
        }
        i = i + 1;
    }
    Err(complaint)
}

/// Whether an answer to a yes/no prompt is yes.
pub fn is_yes(answer: char) -> (b: bool)
    ensures
        b <==> answer == 'Y',
{
    answer == 'Y'
}

// ---------------------------------------------------------------------
// Documents in the metadata file
// ---------------------------------------------------------------------

/// The first document whose name is `name`, ignoring case as
/// `str::to_lowercase` does.
pub open spec fn spec_document_position(names: Seq<Seq<char>>, name: Seq<char>) -> Option<int> {
    if exists|i: int| 0 <= i < names.len() && lowercase(#[trigger] names[i]) == lowercase(name) {
        Some(
            choose|i: int|
                0 <= i < names.len() && lowercase(#[trigger] names[i]) == lowercase(name) && forall|j: int|
                    0 <= j < i ==> lowercase(names[j]) != lowercase(name),
        )
    } else {
        None
    }
}

/// The names of documents.
pub open spec fn document_names(docs: Seq<Document>) -> Seq<Seq<char>> {
    docs.map_values(|d: Document| d.name@)
}

/// The position of the document a deletion removes: the first one whose
/// name equals `name` once both are lower-cased.
pub fn document_position(docs: &Vec<Document>, name: &str) -> (r: Option<usize>)
    ensures
        match r {
            Some(i) => i < docs@.len() && lowercase(docs@[i as int].name@) == lowercase(name@)
                && forall|j: int| 0 <= j < i ==> lowercase(docs@[j].name@) != lowercase(name@),
            None => forall|j: int| 0 <= j < docs@.len() ==> lowercase(docs@[j].name@) != lowercase(name@),
        },
{
    let target = chars_of(to_lowercase(name).as_str());
    let mut i: usize = 0;
    while i < docs.len()
        invariant
            i <= docs@.len(),
            target@ == lowercase(name@),
            forall|j: int| 0 <= j < i ==> lowercase(docs@[j].name@) != lowercase(name@),
        decreases docs@.len() - i,
    {
        let here = chars_of(to_lowercase(docs[i].name.as_str()).as_str());
        if chars_eq(&here, &target) {
            return Some(i);
        }
        i = i + 1;
    }
    None
}

// ---------------------------------------------------------------------
// The document a sync updates
// ---------------------------------------------------------------------

/// Why a sync cannot start.
#[derive(Debug, Clone, PartialEq, Eq)]
pub enum SyncTargetError {
    /// The database is `:memory:`, which disappears once the command ends.
    TransientDatabase,
    /// No document has the name asked for; the names there are, joined by
    /// `, `.
    UnknownDocument { name: String, available: String },
}

impl SyncTargetError {
    /// The message printed for the error.
    pub open spec fn spec_message(&self) -> Seq<char> {
        match self {
            SyncTargetError::TransientDatabase =>
                "You should not sync on a transient database, it will dissapear immediately after"@,
            SyncTargetError::UnknownDocument { name, available } => name@
                + " is not one of the available documents: ["@ + available@ + "]"@,
        }
    }

    /// The message printed for the error.
    pub fn message(&self) -> (r: String)
        ensures
            r@ == self.spec_message(),
    {
        match self {
            SyncTargetError::TransientDatabase => String::from_str(
                "You should not sync on a transient database, it will dissapear immediately after",
            ),
            SyncTargetError::UnknownDocument { name, available } => {
                let mut r = String::from_str(name.as_str());
                append_str(&mut r, " is not one of the available documents: [");
                append_str(&mut r, available.as_str());
                append_str(&mut r, "]");
                r
            },
        }
    }
}

/// The document a sync updates: none on the transient database
/// `:memory:` (surrounding whitespace ignored); else the first document
/// named exactly `name`, or the error that lists the names there are.
pub fn sync_target(db_path: &str, docs: &Vec<Document>, name: &str) -> (r: Result<
    usize,
    SyncTargetError,
>)
    ensures
        trim(db_path@) == ":memory:"@ ==> r == Err::<usize, _>(SyncTargetError::TransientDatabase),
        trim(db_path@) != ":memory:"@ ==> match r {
            Ok(i) => i < docs@.len() && docs@[i as int].name@ == name@ && forall|j: int|
                0 <= j < i ==> docs@[j].name@ != name@,
            Err(SyncTargetError::UnknownDocument { name: n, available }) => {
                &&& forall|j: int| 0 <= j < docs@.len() ==> docs@[j].name@ != name@
                &&& n@ == name@
                &&& available@ == joined(document_names(docs@), ", "@)
            },
            Err(SyncTargetError::TransientDatabase) => false,
        },
{
    let path = chars_of(db_path);
    let (a, b) = trim_range(&path, 0, path.len());
    assert(path@.subrange(0, path@.len() as int) =~= path@);
    let mut trimmed: Vec<char> = Vec::new();
    let mut k = a;
    while k < b
        invariant
            a <= k <= b <= path@.len(),
            trimmed@ == path@.subrange(a as int, k as int),
        decreases b - k,
    {
        trimmed.push(path[k]);
        assert(trimmed@ =~= path@.subrange(a as int, k + 1));
        k = k + 1;
    }
    assert(trimmed@ == trim(db_path@));
    if chars_eq(&trimmed, &chars_of(":memory:")) {
        return Err(SyncTargetError::TransientDatabase);
    }
    let mut i: usize = 0;
    while i < docs.len()
        invariant
            i <= docs@.len(),
            trim(db_path@) != ":memory:"@,
            forall|j: int| 0 <= j < i ==> docs@[j].name@ != name@,
        decreases docs@.len() - i,
    {
        if chars_eq(&chars_of(docs[i].name.as_str()), &chars_of(name)) {
            return Ok(i);
        }
        i = i + 1;
    }
    let mut names: Vec<String> = Vec::new();
    let mut j: usize = 0;
    while j < docs.len()
        invariant
            j <= docs@.len(),
            trim(db_path@) != ":memory:"@,
            forall|k: int| 0 <= k < docs@.len() ==> docs@[k].name@ != name@,
            views(names@) == document_names(docs@.take(j as int)),
        decreases docs@.len() - j,
    {
        let ghost before = names@;
        names.push(String::from_str(docs[j].name.as_str()));
        assert(views(names@) =~= views(before).push(docs@[j as int].name@));
        assert(docs@.take(j + 1) =~= docs@.take(j as int).push(docs@[j as int]));
        assert(document_names(docs@.take(j + 1)) =~= document_names(docs@.take(j as int)).push(
            docs@[j as int].name@,
        ));
        j = j + 1;
    }
    assert(docs@.take(docs@.len() as int) =~= docs@);
    let available = crate::favorites::join_comma(&names);
    Err(SyncTargetError::UnknownDocument { name: String::from_str(name), available })
}

// ---------------------------------------------------------------------
// Settings of a server run
// ---------------------------------------------------------------------

/// The settings a server run may override: where it listens and which
/// database it opens with how many connections.
#[derive(Debug, Clone)]
pub struct ServerSettings {
    pub host: String,
    pub port: u16,
    pub db_path: String,
    pub pool_size: usize,
}

/// The values given on the command line for a server run.
#[derive(Debug, Clone)]
pub struct ServerOverrides {
    pub interface: Option<String>,
    pub port: Option<u16>,
    pub db_path: Option<String>,
    pub pool_size: Option<usize>,
}

impl ServerOverrides {
    /// The overrides given.
    pub fn new(
        interface: Option<String>,
        port: Option<u16>,
        db_path: Option<String>,
        pool_size: Option<usize>,
    ) -> (o: Self)
        ensures
            o.interface == interface,
            o.port == port,
            o.db_path == db_path,
            o.pool_size == pool_size,
    {
        ServerOverrides { interface, port, db_path, pool_size }
    }

    /// Replaces each setting that was given on the command line, and keeps
    /// the others.
    pub fn apply_to_config(self, config: &mut ServerSettings)
        ensures
            final(config).host == match self.interface {
                Some(h) => h,
                None => old(config).host,
            },
            final(config).port == match self.port {
                Some(p) => p,
                None => old(config).port,
            },
            final(config).db_path == match self.db_path {
                Some(p) => p,
                None => old(config).db_path,
            },
            final(config).pool_size == match self.pool_size {
                Some(n) => n,
                None => old(config).pool_size,
            },
    {
        if let Some(pool_size) = self.pool_size {
            config.pool_size = pool_size;
        }
        if let Some(db_path) = self.db_path {
            config.db_path = db_path;
        }
        if let Some(interface) = self.interface {
            config.host = interface;
        }
        if let Some(port) = self.port {
            config.port = port;
        }
    }
}

// ---------------------------------------------------------------------
// The configuration file
// ---------------------------------------------------------------------

/// Whether a configuration file may be written over the existing one
/// (`None` when there is none): only when the existing one is blank.
pub fn may_write_config(existing: Option<&str>) -> (b: bool)
    ensures
        b <==> match existing {
            Some(c) => trim(c@).len() == 0,
            None => true,
        },
{
    match existing {
        Some(c) => {
            let v = chars_of(c);
            let (a, b) = trim_range(&v, 0, v.len());
            assert(v@.subrange(0, v@.len() as int) =~= v@);
            a == b
        },
        None => true,
    }
}

/// The complaint when a configuration file already has content.
pub fn config_exists_message() -> (r: &'static str)
    ensures
        r@
            == "Config file already exists and is not empty. Please remove or rename the existing config.yml file."@,
{
    "Config file already exists and is not empty. Please remove or rename the existing config.yml file."
}

/// What is done with `.gitignore` so that it lists `/configuration`.
#[derive(Debug, Clone, Copy, PartialEq, Eq, Structural)]
pub enum GitignorePlan {
    /// There is no `.gitignore`: create it with the entry.
    Create,
    /// The entry is already listed.
    AlreadyListed,
    /// Append the entry, after a line break when the file does not end
    /// with one.
    Append { newline_first: bool },
}

/// What is done with a `.gitignore` of content `contents` (`None` when
/// there is none): a line that is `/configuration` once trimmed lists the
/// entry already.
pub open spec fn spec_gitignore_plan(contents: Option<Seq<char>>) -> GitignorePlan {
    match contents {
        None => GitignorePlan::Create,
        Some(c) => if exists|i: int|
            0 <= i < lines(c).len() && trim(#[trigger] lines(c)[i]) == "/configuration"@ {
            GitignorePlan::AlreadyListed
        } else {
            GitignorePlan::Append { newline_first: c.len() > 0 && c.last() != '\n' }
        },
    }
}

/// Decides what is done with `.gitignore`.
pub fn gitignore_plan(contents: Option<&str>) -> (p: GitignorePlan)
    ensures
        contents is None ==> p == GitignorePlan::Create,
        contents matches Some(c) ==> p == spec_gitignore_plan(Some(c@)),
{
    match contents {
        None => GitignorePlan::Create,
        Some(c) => {
            let v = chars_of(c);
            let ls = lines_of(&v);
            let entry = chars_of("/configuration");
            let mut i: usize = 0;
            while i < ls.len()
                invariant
                    i <= ls@.len(),
                    contents == Some(c),
                    v@ == c@,
                    entry@ == "/configuration"@,
                    ls@.map_values(|l: Vec<char>| l@) == lines(c@),
                    forall|k: int| 0 <= k < i ==> trim(#[trigger] lines(c@)[k]) != "/configuration"@,
                decreases ls@.len() - i,
            {
                let line = &ls[i];
                let (a, b) = trim_range(line, 0, line.len());
                assert(line@.subrange(0, line@.len() as int) =~= line@);
                let mut t: Vec<char> = Vec::new();
                let mut k = a;
                while k < b
                    invariant
                        a <= k <= b <= line@.len(),
                        t@ == line@.subrange(a as int, k as int),
                    decreases b - k,
                {
                    t.push(line[k]);
                    assert(t@ =~= line@.subrange(a as int, k + 1));
                    k = k + 1;
                }
                assert(lines(c@)[i as int] == line@);
                assert(t@ == trim(line@));
                if chars_eq(&t, &entry) {
                    assert(ls@.map_values(|l: Vec<char>| l@).len() == ls@.len());
                    assert(0 <= i < lines(c@).len());
                    assert(trim(lines(c@)[i as int]) == "/configuration"@);
                    assert(exists|j: int|
                        0 <= j < lines(c@).len() && trim(#[trigger] lines(c@)[j]) == "/configuration"@);
                    assert(spec_gitignore_plan(Some(c@)) == GitignorePlan::AlreadyListed);
                    return GitignorePlan::AlreadyListed;
                }
                i = i + 1;
            }
            let newline_first = v.len() > 0 && v[v.len() - 1] != '\n';
            GitignorePlan::Append { newline_first }
        },
    }
}

/// The configuration written by default.
pub open spec fn spec_config_template() -> Seq<char> {
    "# Application Configuration\napp_settings:\n  name: \"MyApp\"\n  port: \"3000\"\n  host: \"127.0.0.1\"\n  meta_file_path: \"./meta.json\"\nembedding_provider:\n  endpoint_url: \"https://api.openai.com/v1/embeddings\"\n  auth_token: \"your-secret-token-here\"\ndb_settings:\n  pool_size: \"10\"\n  db_path: \"./gulfi.db\"\n"@
}

/// The configuration written by default.
pub fn config_template() -> (r: &'static str)
    ensures
        r@ == spec_config_template(),
{
    "# Application Configuration\napp_settings:\n  name: \"MyApp\"\n  port: \"3000\"\n  host: \"127.0.0.1\"\n  meta_file_path: \"./meta.json\"\nembedding_provider:\n  endpoint_url: \"https://api.openai.com/v1/embeddings\"\n  auth_token: \"your-secret-token-here\"\ndb_settings:\n  pool_size: \"10\"\n  db_path: \"./gulfi.db\"\n"
}

/// What `.gitignore` holds once the plan `p` was carried out on `contents`
/// (`None` when there was none).
pub open spec fn gitignore_after(contents: Option<Seq<char>>, p: GitignorePlan) -> Seq<char> {
    let c = match contents {
        Some(c) => c,
        None => Seq::empty(),
    };
    match p {
        GitignorePlan::Create => "/configuration\n"@,
        GitignorePlan::AlreadyListed => c,
        GitignorePlan::Append { newline_first } => (if newline_first {
            c.push('\n')
        } else {
            c
        }) + "/configuration\n"@,
    }
}

/// The lines of the entry written to `.gitignore`.
proof fn lemma_entry_lines()
    ensures
        lines("/configuration\n"@) == seq!["/configuration"@],
        trim("/configuration"@) == "/configuration"@,
{
    reveal_strlit("/configuration\n");
    reveal_strlit("/configuration");
    let e = "/configuration\n"@;
    e.index_of_first_ensures('\n');
    assert(e[14] == '\n');
    assert(e.contains('\n'));
    let i = e.index_of_first('\n')->Some_0;
    assert(i == 14);
    assert(e.subrange(0, 14) =~= "/configuration"@);
    assert(strip_cr(e.subrange(0, 14)) == "/configuration"@);
    lemma_lines_empty();
    assert(e.subrange(15, 15) =~= Seq::<char>::empty());
    assert(lines(e) =~= seq!["/configuration"@]);
    assert(is_trimmed("/configuration"@));
    lemma_trim_trimmed("/configuration"@);
}

/// Writing the configuration a second time changes nothing: the template
/// written the first time is not blank, so it is not written over, and
/// once the plan for `.gitignore` was carried out the entry is listed, so
/// the second plan leaves the file as it is.
pub proof fn lemma_config_twice_changes_nothing(contents: Option<Seq<char>>)
    ensures
        trim(spec_config_template()).len() > 0,
        spec_gitignore_plan(Some(gitignore_after(contents, spec_gitignore_plan(contents))))
            == GitignorePlan::AlreadyListed,
        gitignore_after(
            Some(gitignore_after(contents, spec_gitignore_plan(contents))),
            GitignorePlan::AlreadyListed,
        ) == gitignore_after(contents, spec_gitignore_plan(contents)),
{
    reveal_strlit("# Application Configuration\napp_settings:\n  name: \"MyApp\"\n  port: \"3000\"\n  host: \"127.0.0.1\"\n  meta_file_path: \"./meta.json\"\nembedding_provider:\n  endpoint_url: \"https://api.openai.com/v1/embeddings\"\n  auth_token: \"your-secret-token-here\"\ndb_settings:\n  pool_size: \"10\"\n  db_path: \"./gulfi.db\"\n");
    let t = spec_config_template();
    assert(t[0] == '#');
    assert(t.contains('#'));
    lemma_trim_contains(t, '#');
    lemma_entry_lines();
    let p = spec_gitignore_plan(contents);
    let after = gitignore_after(contents, p);
    let entry = "/configuration\n"@;
    match p {
        GitignorePlan::Create => {
            assert(after == entry);
            assert(trim(lines(after)[0]) == "/configuration"@);
        },
        GitignorePlan::AlreadyListed => {
            assert(contents is Some);
        },
        GitignorePlan::Append { newline_first } => {
            let c = contents->Some_0;
            let prefix = if newline_first {
                c.push('\n')
            } else {
                c
            };
            assert(prefix.len() == 0 || prefix.last() == '\n');
            lemma_lines_concat(prefix, entry);
            let k = lines(prefix).len() as int;
            assert(lines(after)[k] == "/configuration"@);
            assert(trim(lines(after)[k]) == "/configuration"@);
        },
    }
}

// ---------------------------------------------------------------------
// Connection pool statistics
// ---------------------------------------------------------------------

/// How many connections a pool holds, how many are free and how many are
/// in use.
#[derive(Debug, Clone, Copy, PartialEq, Eq, Structural)]
pub struct PoolStats {
    pub capacity: usize,
    pub available: usize,
    pub in_use: usize,
}

/// How many connections a pool lacks.
#[derive(Debug, Clone, Copy, PartialEq, Eq, Structural)]
pub struct CorruptionInfo {
    pub expected_connections: usize,
    pub actual_connections: usize,
    pub missing_connections: usize,
}

impl PoolStats {
    /// The statistics of a pool of `capacity` connections of which
    /// `available` are free.
    pub fn new(capacity: usize, available: usize) -> (s: Self)
        requires
            available <= capacity,
        ensures
            s.capacity == capacity,
            s.available == available,
            s.in_use == capacity - available,
    {
        PoolStats { capacity, available, in_use: capacity - available }
    }
}

/// What is counted of a pool's connections: how many it was made with,
/// how many are free, how many are checked out, and how many were closed
/// with the pool. A connection that is none of these was lost: it was not
/// given back when its handle went away.
#[derive(Debug, Clone, Copy, PartialEq, Eq, Structural)]
pub struct PoolCounts {
    pub capacity: usize,
    pub available: usize,
    pub checked_out: usize,
    pub closed: usize,
}

impl PoolCounts {
    /// The connections lost.
    pub open spec fn lost(self) -> int {
        self.capacity - self.available - self.checked_out - self.closed
    }
}

/// The count of a pool's connections, kept as they are taken, given back
/// and closed. No more are free, out or closed than the pool was made
/// with.
#[derive(Debug)]
pub struct PoolLedger {
    counts: PoolCounts,
}

impl View for PoolLedger {
    type V = PoolCounts;

    closed spec fn view(&self) -> PoolCounts {
        self.counts
    }
}

impl PoolLedger {
    #[verifier::type_invariant]
    spec fn inv(self) -> bool {
        self.counts.available + self.counts.checked_out + self.counts.closed
            <= self.counts.capacity
    }

    /// A pool of `capacity` connections, all free; none for a capacity of
    /// 0.
    pub fn new(capacity: usize) -> (r: Option<Self>)
        ensures
            capacity == 0 ==> r is None,
            capacity > 0 ==> (r matches Some(l) && l@ == (PoolCounts {
                capacity,
                available: capacity,
                checked_out: 0,
                closed: 0,
            })),
    {
        if valid_pool_capacity(capacity) {
            Some(
                PoolLedger {
                    counts: PoolCounts { capacity, available: capacity, checked_out: 0, closed: 0 },
                },
            )
        } else {
            None
        }
    }

    /// The capacity.
    pub fn capacity(&self) -> (n: usize)
        ensures
            n == self@.capacity,
    {
        self.counts.capacity
    }

    /// The connections free.
    pub fn available(&self) -> (n: usize)
        ensures
            n == self@.available,
    {
        self.counts.available
    }

    /// The connections checked out.
    pub fn checked_out(&self) -> (n: usize)
        ensures
            n == self@.checked_out,
    {
        self.counts.checked_out
    }

    /// A connection is taken, when one is free.
    pub fn take(&mut self) -> (taken: bool)
        ensures
            taken == (old(self)@.available > 0),
            taken ==> final(self)@ == (PoolCounts {
                available: (old(self)@.available - 1) as usize,
                checked_out: (old(self)@.checked_out + 1) as usize,
                ..old(self)@
            }),
            !taken ==> final(self)@ == old(self)@,
    {
        proof {
            use_type_invariant(&*self);
        }
        if self.counts.available > 0 {
            self.counts = PoolCounts {
                available: self.counts.available - 1,
                checked_out: self.counts.checked_out + 1,
                ..self.counts
            };
            true
        } else {
            false
        }
    }

    /// A checked-out connection's handle goes away: the connection is free
    /// again when `returned`, and lost otherwise.
    pub fn give_back(&mut self, returned: bool)
        requires
            old(self)@.checked_out > 0,
        ensures
            returned ==> final(self)@ == (PoolCounts {
                available: (old(self)@.available + 1) as usize,
                checked_out: (old(self)@.checked_out - 1) as usize,
                ..old(self)@
            }),
            !returned ==> final(self)@ == (PoolCounts {
                checked_out: (old(self)@.checked_out - 1) as usize,
                ..old(self)@
            }),
    {
        proof {
            use_type_invariant(&*self);
        }
        if returned {
            self.counts = PoolCounts {
                available: self.counts.available + 1,
                checked_out: self.counts.checked_out - 1,
                ..self.counts
            };
        } else {
            self.counts = PoolCounts { checked_out: self.counts.checked_out - 1, ..self.counts };
        }
    }

    /// The pool is closed: every free connection is closed, and their
    /// number is returned.
    pub fn close(&mut self) -> (n: usize)
        ensures
            n == old(self)@.available,
            final(self)@ == (PoolCounts {
                available: 0,
                closed: (old(self)@.closed + old(self)@.available) as usize,
                ..old(self)@
            }),
    {
        proof {
            use_type_invariant(&*self);
        }
        let n = self.counts.available;
        self.counts = PoolCounts { available: 0, closed: self.counts.closed + n, ..self.counts };
        n
    }

    /// The statistics: every connection that is not free is in use.
    pub fn stats(&self) -> (s: PoolStats)
        ensures
            s.capacity == self@.capacity,
            s.available == self@.available,
            s.in_use == self@.capacity - self@.available,
            s.available + s.in_use == s.capacity,
            self@.available + self@.checked_out + self@.closed <= self@.capacity,
    {
        proof {
            use_type_invariant(self);
        }
        PoolStats::new(self.counts.capacity, self.counts.available)
    }

    /// Whether connections were lost.
    pub fn is_corrupted(&self) -> (b: bool)
        ensures
            b <==> self@.lost() > 0,
    {
        proof {
            use_type_invariant(self);
        }
        self.counts.available + self.counts.checked_out + self.counts.closed < self.counts.capacity
    }

    /// What was lost, when connections were: the capacity expected, the
    /// connections still accounted for, and the number missing.
    pub fn corruption_info(&self) -> (r: Option<CorruptionInfo>)
        ensures
            self@.lost() > 0 ==> r == Some(
                CorruptionInfo {
                    expected_connections: self@.capacity,
                    actual_connections: (self@.capacity - self@.lost()) as usize,
                    missing_connections: self@.lost() as usize,
                },
            ),
            self@.lost() == 0 ==> r is None,
    {
        proof {
            use_type_invariant(self);
        }
        let accounted = self.counts.available + self.counts.checked_out + self.counts.closed;
        if accounted < self.counts.capacity {
            Some(
                CorruptionInfo {
                    expected_connections: self.counts.capacity,
                    actual_connections: accounted,
                    missing_connections: self.counts.capacity - accounted,
                },
            )
        } else {
            None
        }
    }
}

/// Taking a connection and giving it back leaves the counts as they were,
/// and no pool reports a loss until a connection is not given back.
pub proof fn lemma_take_give_back(before: PoolCounts, taken: PoolCounts, after: PoolCounts)
    requires
        before.available + before.checked_out + before.closed <= before.capacity,
        before.available > 0,
        taken == (PoolCounts {
            available: (before.available - 1) as usize,
            checked_out: (before.checked_out + 1) as usize,
            ..before
        }),
        after == (PoolCounts {
            available: (taken.available + 1) as usize,
            checked_out: (taken.checked_out - 1) as usize,
            ..taken
        }),
    ensures
        after == before,
        taken.lost() == before.lost(),
{
}

/// Whether a pool may be made with `capacity` connections: it needs at
/// least one.
pub fn valid_pool_capacity(capacity: usize) -> (b: bool)
    ensures
        b <==> capacity > 0,
{
    capacity > 0
}

} // verus!

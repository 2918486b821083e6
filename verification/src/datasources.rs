//! Documents: the user-defined tables that gulfi indexes, their fields,
//! the files they are loaded from, and the checks made on names and on
//! the columns of those files.

use vstd::prelude::*;
use vstd::string::StringSliceAdditionalSpecFns;
use crate::text::{
    all_ascii, ascii_upper, chars_of, contains_seq, is_ascii_alpha, lemma_lex_total, lemma_lex_transitive,
    lex_lt, occurs_at, push_char, str_lt,
};

verus! {

// ---------------------------------------------------------------------
// Documents and fields
// ---------------------------------------------------------------------

/// A field of a document. `vec_input` fields make up the text that is
/// searched; `unique` fields are declared unique in the database.
#[derive(Debug, Clone)]
pub struct Field {
    pub name: String,
    pub vec_input: bool,
    pub unique: bool,
}

/// A document: a named table and its fields.
#[derive(Debug, Clone)]
pub struct Document {
    pub name: String,
    pub fields: Vec<Field>,
}

/// The names of the searchable (`vec_input`) fields of `fields`, in order.
pub open spec fn vec_input_names(fields: Seq<Field>) -> Seq<Seq<char>>
    decreases fields.len(),
{
    if fields.len() == 0 {
        seq![]
    } else {
        let rest = vec_input_names(fields.drop_last());
        if fields.last().vec_input {
            rest.push(fields.last().name@)
        } else {
            rest
        }
    }
}

/// The names of the fields that are not searchable, in order.
pub open spec fn plain_field_names(fields: Seq<Field>) -> Seq<Seq<char>>
    decreases fields.len(),
{
    if fields.len() == 0 {
        seq![]
    } else {
        let rest = plain_field_names(fields.drop_last());
        if !fields.last().vec_input {
            rest.push(fields.last().name@)
        } else {
            rest
        }
    }
}

/// The blank separator `'  '` of the SQL expression that builds the
/// searched text.
pub open spec fn vec_input_separator() -> Seq<char> {
    seq!['\'', ' ', ' ', '\'']
}

/// The SQL expression that joins the searchable fields: `'  '` followed by
/// ` || <name> || '  '` for each searchable field.
pub open spec fn spec_vec_input_expr(names: Seq<Seq<char>>) -> Seq<char>
    decreases names.len(),
{
    if names.len() == 0 {
        vec_input_separator()
    } else {
        spec_vec_input_expr(names.drop_last()) + seq![' ', '|', '|', ' '] + names.last() + seq![
            ' ',
            '|',
            '|',
            ' ',
        ] + vec_input_separator()
    }
}

/// A field's name between the ` || ` joins of the searched text.
pub open spec fn joined_field(name: Seq<char>) -> Seq<char> {
    seq![' ', '|', '|', ' '] + name + seq![' ', '|', '|', ' ']
}

/// `a` is a prefix of `b`.
pub open spec fn is_prefix(a: Seq<char>, b: Seq<char>) -> bool {
    a.len() <= b.len() && b.subrange(0, a.len() as int) == a
}

/// The expression of the first `n` searchable names is a prefix of that
/// of all of them.
proof fn lemma_expr_prefix(names: Seq<Seq<char>>, n: int)
    requires
        0 <= n <= names.len(),
    ensures
        is_prefix(spec_vec_input_expr(names.take(n)), spec_vec_input_expr(names)),
    decreases names.len(),
{
    if n == names.len() {
        assert(names.take(n) =~= names);
        let c = spec_vec_input_expr(names);
        assert(c.subrange(0, c.len() as int) =~= c);
    } else {
        let init = names.drop_last();
        assert(init.take(n) =~= names.take(n));
        lemma_expr_prefix(init, n);
        let a = spec_vec_input_expr(names.take(n));
        let b = spec_vec_input_expr(init);
        let c = spec_vec_input_expr(names);
        assert(c.subrange(0, b.len() as int) =~= b);
        assert(c.subrange(0, a.len() as int) =~= b.subrange(0, a.len() as int));
    }
}

/// Each searchable name occurs between joins, where the expression of the
/// names before it ends.
proof fn lemma_name_occurs(names: Seq<Seq<char>>, i: int)
    requires
        0 <= i < names.len(),
    ensures
        occurs_at(
            spec_vec_input_expr(names),
            joined_field(names[i]),
            spec_vec_input_expr(names.take(i)).len() as int,
        ),
{
    let upto = names.take(i + 1);
    assert(upto.drop_last() =~= names.take(i));
    assert(upto.last() == names[i]);
    let a = spec_vec_input_expr(names.take(i));
    let e = spec_vec_input_expr(upto);
    let p = joined_field(names[i]);
    assert(e.subrange(a.len() as int, (a.len() + p.len()) as int) =~= p);
    lemma_expr_prefix(names, i + 1);
    let full = spec_vec_input_expr(names);
    assert(full.subrange(a.len() as int, (a.len() + p.len()) as int) =~= e.subrange(
        a.len() as int,
        (a.len() + p.len()) as int,
    ));
}

/// The searchable names of the first `a` fields come first among those of
/// the first `b`.
proof fn lemma_names_prefix(fields: Seq<Field>, a: int, b: int)
    requires
        0 <= a <= b <= fields.len(),
    ensures
        vec_input_names(fields.take(a)).len() <= vec_input_names(fields.take(b)).len(),
        vec_input_names(fields.take(b)).take(vec_input_names(fields.take(a)).len() as int)
            == vec_input_names(fields.take(a)),
    decreases b - a,
{
    if a == b {
        let n = vec_input_names(fields.take(a));
        assert(n.take(n.len() as int) =~= n);
    } else {
        lemma_names_prefix(fields, a, b - 1);
        assert(fields.take(b).drop_last() =~= fields.take(b - 1));
        let x = vec_input_names(fields.take(a));
        let y = vec_input_names(fields.take(b - 1));
        let z = vec_input_names(fields.take(b));
        assert(z.take(x.len() as int) =~= y.take(x.len() as int));
    }
}

/// The position, among the searchable names, of the searchable field `j`.
proof fn lemma_field_name_index(fields: Seq<Field>, j: int)
    requires
        0 <= j < fields.len(),
        fields[j].vec_input,
    ensures
        vec_input_names(fields.take(j)).len() < vec_input_names(fields).len(),
        vec_input_names(fields)[vec_input_names(fields.take(j)).len() as int] == fields[j].name@,
        vec_input_names(fields.take(j + 1)).len() == vec_input_names(fields.take(j)).len() + 1,
{
    assert(fields.take(j + 1).drop_last() =~= fields.take(j));
    assert(fields.take(j + 1).last() == fields[j]);
    lemma_names_prefix(fields, j + 1, fields.len() as int);
    assert(fields.take(fields.len() as int) =~= fields);
    let k = vec_input_names(fields.take(j)).len() as int;
    assert(vec_input_names(fields.take(j + 1))[k] == fields[j].name@);
    assert(vec_input_names(fields).take(k + 1)[k] == vec_input_names(fields)[k]);
}

/// The searched text of a document mentions every searchable field, between
/// ` || ` joins, and in the order of the fields: the field `j1` before the
/// field `j2` when `j1 < j2`.
pub proof fn lemma_searched_text_lists_searchable_fields(fields: Seq<Field>, j1: int, j2: int)
    requires
        0 <= j1 < j2 < fields.len(),
        fields[j1].vec_input,
        fields[j2].vec_input,
    ensures
        exists|i1: int, i2: int|
            #![trigger occurs_at(spec_vec_input_expr(vec_input_names(fields)), joined_field(fields[j1].name@), i1), occurs_at(spec_vec_input_expr(vec_input_names(fields)), joined_field(fields[j2].name@), i2)]
            i1 < i2 && occurs_at(
                spec_vec_input_expr(vec_input_names(fields)),
                joined_field(fields[j1].name@),
                i1,
            ) && occurs_at(
                spec_vec_input_expr(vec_input_names(fields)),
                joined_field(fields[j2].name@),
                i2,
            ),
{
    let names = vec_input_names(fields);
    lemma_field_name_index(fields, j1);
    lemma_field_name_index(fields, j2);
    let k1 = vec_input_names(fields.take(j1)).len() as int;
    let k2 = vec_input_names(fields.take(j2)).len() as int;
    lemma_names_prefix(fields, j1 + 1, j2);
    assert(k1 < k2);
    lemma_name_occurs(names, k1);
    lemma_name_occurs(names, k2);
    let i1 = spec_vec_input_expr(names.take(k1)).len() as int;
    let i2 = spec_vec_input_expr(names.take(k2)).len() as int;
    // The expression of the first `k2` names holds that of the first
    // `k1 + 1`, which is longer than that of the first `k1`.
    let upto = names.take(k2);
    assert(upto.take(k1 + 1) =~= names.take(k1 + 1));
    lemma_expr_prefix(upto, k1 + 1);
    assert(names.take(k1 + 1).drop_last() =~= names.take(k1));
    assert(i1 < i2);
}

/// The searched text of a document mentions each searchable field between
/// ` || ` joins.
pub proof fn lemma_searched_text_has_searchable_field(fields: Seq<Field>, j: int)
    requires
        0 <= j < fields.len(),
        fields[j].vec_input,
    ensures
        contains_seq(spec_vec_input_expr(vec_input_names(fields)), joined_field(fields[j].name@)),
{
    lemma_field_name_index(fields, j);
    let k = vec_input_names(fields.take(j)).len() as int;
    lemma_name_occurs(vec_input_names(fields), k);
}

/// Appends the characters of `s` to `r`.
pub(crate) fn append_chars(r: &mut String, s: &Vec<char>)
    ensures
        final(r)@ == old(r)@ + s@,
{
    let mut i: usize = 0;
    while i < s.len()
        invariant
            i <= s@.len(),
            r@ == old(r)@ + s@.subrange(0, i as int),
        decreases s@.len() - i,
    {
        push_char(r, s[i]);
        assert(r@ =~= old(r)@ + s@.subrange(0, i + 1));
        i = i + 1;
    }
    assert(s@.subrange(0, s@.len() as int) =~= s@);
}

impl Field {
    /// A copy of the field.
    pub fn duplicate(&self) -> (r: Self)
        ensures
            r == *self,
    {
        Field { name: self.name.clone(), vec_input: self.vec_input, unique: self.unique }
    }
}

impl Document {
    /// A copy of the document.
    pub fn duplicate(&self) -> (r: Self)
        ensures
            r.name == self.name,
            r.fields@ == self.fields@,
    {
        let mut fields: Vec<Field> = Vec::new();
        let mut i: usize = 0;
        while i < self.fields.len()
            invariant
                i <= self.fields@.len(),
                fields@ == self.fields@.subrange(0, i as int),
            decreases self.fields@.len() - i,
        {
            fields.push(self.fields[i].duplicate());
            assert(fields@ =~= self.fields@.subrange(0, i + 1));
            i = i + 1;
        }
        assert(self.fields@.subrange(0, self.fields@.len() as int) =~= self.fields@);
        Document { name: self.name.clone(), fields }
    }

    /// The SQL expression that builds a row's searched text from its
    /// searchable fields.
    pub fn generate_vec_input(&self) -> (r: String)
        ensures
            r@ == spec_vec_input_expr(vec_input_names(self.fields@)),
    {
        let mut result = String::new();
        let sep = vec!['\'', ' ', ' ', '\''];
        let bars = vec![' ', '|', '|', ' '];
        append_chars(&mut result, &sep);
        let mut i: usize = 0;
        assert(self.fields@.subrange(0, 0) =~= Seq::<Field>::empty());
        while i < self.fields.len()
            invariant
                i <= self.fields@.len(),
                sep@ == vec_input_separator(),
                bars@ == seq![' ', '|', '|', ' '],
                result@ == spec_vec_input_expr(
                    vec_input_names(self.fields@.subrange(0, i as int)),
                ),
            decreases self.fields@.len() - i,
        {
            let field = &self.fields[i];
            assert(self.fields@.subrange(0, i + 1).drop_last() =~= self.fields@.subrange(
                0,
                i as int,
            ));
            let ghost names_i = vec_input_names(self.fields@.subrange(0, i as int));
            if field.vec_input {
                let name = chars_of(field.name.as_str());
                append_chars(&mut result, &bars);
                append_chars(&mut result, &name);
                append_chars(&mut result, &bars);
                append_chars(&mut result, &sep);
                proof {
                    let pushed = names_i.push(field.name@);
                    assert(pushed.drop_last() =~= names_i);
                    assert(pushed.last() == field.name@);
                    assert(vec_input_names(self.fields@.subrange(0, i + 1)) == pushed);
                    assert(result@ =~= spec_vec_input_expr(pushed));
                }
            } else {
                assert(vec_input_names(self.fields@.subrange(0, i + 1)) == names_i);
            }
            i = i + 1;
        }
        assert(self.fields@.subrange(0, self.fields@.len() as int) =~= self.fields@);
        result
    }
}

// ---------------------------------------------------------------------
// Data sources
// ---------------------------------------------------------------------

/// The kinds of file a document is loaded from.
#[derive(Debug, PartialEq, Eq)]
pub enum DataSources {
    Csv,
    Json,
}

/// A file extension that no data source has.
#[derive(Debug)]
pub struct UnknownExtension {
    pub extension: String,
}

/// `c` and `d` are the same sequence of characters.
pub fn chars_eq(c: &Vec<char>, d: &Vec<char>) -> (b: bool)
    ensures
        b == (c@ == d@),
{
    if c.len() != d.len() {
        return false;
    }
    let mut i: usize = 0;
    while i < c.len()
        invariant
            i <= c@.len() == d@.len(),
            forall|j: int| 0 <= j < i ==> c@[j] == d@[j],
        decreases c@.len() - i,
    {
        if c[i] != d[i] {
            return false;
        }
        i = i + 1;
    }
    assert(c@ =~= d@);
    true
}

/// Whether `s` spells the literal `lit`.
pub fn str_eq_literal(s: &str, lit: &str) -> (b: bool)
    ensures
        b == (s@ == lit@),
{
    let a = chars_of(s);
    let l = chars_of(lit);
    chars_eq(&a, &l)
}

impl DataSources {
    /// The data source of a file with extension `ext`: `csv` or `json`.
    pub fn from_extension(ext: &str) -> (r: Result<Self, UnknownExtension>)
        ensures
            match r {
                Ok(DataSources::Csv) => ext@ == "csv"@,
                Ok(DataSources::Json) => ext@ == "json"@ && ext@ != "csv"@,
                Err(e) => ext@ != "csv"@ && ext@ != "json"@ && e.extension@ == ext@,
            },
    {
        if str_eq_literal(ext, "csv") {
            Ok(DataSources::Csv)
        } else if str_eq_literal(ext, "json") {
            Ok(DataSources::Json)
        } else {
            Err(UnknownExtension { extension: ext.to_owned() })
        }
    }
}

// ---------------------------------------------------------------------
// SQL identifiers
// ---------------------------------------------------------------------

/// What `char::is_alphabetic` answers: the Unicode `Alphabetic` property.
pub uninterp spec fn alphabetic(c: char) -> bool;

/// What `char::is_alphanumeric` answers: `Alphabetic` or `Numeric`.
pub uninterp spec fn alphanumeric(c: char) -> bool;

/// Calls `char::is_alphabetic`; the Unicode tables are not restated. Of
/// an ASCII character it answers whether it is a letter `[A-Za-z]`.
#[verifier::external_body]
fn char_is_alphabetic(c: char) -> (b: bool)
    ensures
        b == alphabetic(c),
        (c as u32) < 0x80 ==> (b <==> is_ascii_alpha(c)),
{
    c.is_alphabetic()
}

/// Calls `char::is_alphanumeric`; the Unicode tables are not restated.
/// Of an ASCII character it answers whether it is a letter or a digit
/// `[A-Za-z0-9]`.
#[verifier::external_body]
fn char_is_alphanumeric(c: char) -> (b: bool)
    ensures
        b == alphanumeric(c),
        (c as u32) < 0x80 ==> (b <==> (is_ascii_alpha(c) || (0x30 <= (c as u32) && (c as u32)
            <= 0x39))),
{
    c.is_alphanumeric()
}

/// Why a name cannot be used as an SQL identifier.
#[derive(Debug, PartialEq, Eq)]
pub enum IdentifierError {
    InvalidLength,
    MustStartWithLetter,
    InvalidCharacters,
    Keyword,
}

/// The SQL words that names may not be.
pub open spec fn sql_keywords() -> Seq<Seq<char>> {
    seq!["SELECT"@, "DROP"@, "DELETE"@, "UPDATE"@, "INSERT"@, "TABLE"@]
}

/// `s` with its ASCII letters in upper case.
pub open spec fn ascii_uppercase(s: Seq<char>) -> Seq<char> {
    s.map_values(|c: char| ascii_upper(c))
}

/// What `validate_sql_identifier` decides for a name of `byte_len` UTF-8
/// bytes and characters `name`.
pub open spec fn spec_validate_sql_identifier(byte_len: int, name: Seq<char>) -> Result<
    (),
    IdentifierError,
> {
    if name.len() == 0 || byte_len > 64 {
        Err(IdentifierError::InvalidLength)
    } else if !alphabetic(name[0]) {
        Err(IdentifierError::MustStartWithLetter)
    } else if exists|i: int| 0 <= i < name.len() && !(alphanumeric(#[trigger] name[i]) || name[i] == '_') {
        Err(IdentifierError::InvalidCharacters)
    } else if sql_keywords().contains(ascii_uppercase(name)) {
        Err(IdentifierError::Keyword)
    } else {
        Ok(())
    }
}

/// ASCII letters and digits, `[A-Za-z0-9]`.
pub open spec fn is_ascii_alnum(c: char) -> bool {
    is_ascii_alpha(c) || (0x30 <= (c as u32) && (c as u32) <= 0x39)
}

/// What `validate_sql_identifier` decides for an ASCII name, whose letters
/// are `[A-Za-z]` and whose letters and digits are `[A-Za-z0-9]`.
pub open spec fn spec_validate_ascii_identifier(byte_len: int, name: Seq<char>) -> Result<
    (),
    IdentifierError,
> {
    if name.len() == 0 || byte_len > 64 {
        Err(IdentifierError::InvalidLength)
    } else if !is_ascii_alpha(name[0]) {
        Err(IdentifierError::MustStartWithLetter)
    } else if exists|i: int|
        0 <= i < name.len() && !(is_ascii_alnum(#[trigger] name[i]) || name[i] == '_') {
        Err(IdentifierError::InvalidCharacters)
    } else if sql_keywords().contains(ascii_uppercase(name)) {
        Err(IdentifierError::Keyword)
    } else {
        Ok(())
    }
}

/// The character `c` in upper case if it is an ASCII letter.
pub fn to_ascii_uppercase_char(c: char) -> (r: char)
    ensures
        r == ascii_upper(c),
{
    let u = c as u32;
    if 0x61 <= u && u <= 0x7A {
        let up: u32 = u - 32;
        proof {
            assert(up == (u - 32) as u32);
        }
        char_from_ascii(up)
    } else {
        c
    }
}

/// The character with ASCII code `u`.
fn char_from_ascii(u: u32) -> (c: char)
    requires
        u < 0x80,
    ensures
        c == u as char,
{
    let b = u as u8;
    b as char
}

/// `s` with its ASCII letters in upper case (`str::to_ascii_uppercase`).
pub fn chars_to_ascii_uppercase(s: &Vec<char>) -> (r: Vec<char>)
    ensures
        r@ == ascii_uppercase(s@),
{
    let mut r: Vec<char> = Vec::new();
    let mut i: usize = 0;
    while i < s.len()
        invariant
            i <= s@.len(),
            r@ == ascii_uppercase(s@.subrange(0, i as int)),
        decreases s@.len() - i,
    {
        r.push(to_ascii_uppercase_char(s[i]));
        assert(ascii_uppercase(s@.subrange(0, i + 1)) =~= ascii_uppercase(
            s@.subrange(0, i as int),
        ).push(ascii_upper(s@[i as int])));
        i = i + 1;
    }
    assert(s@.subrange(0, s@.len() as int) =~= s@);
    r
}

/// Checks that `name` can be spliced into SQL text as a table or column
/// name: 1 to 64 bytes, starting with a letter, made of letters, digits
/// and `_`, and not one of a few SQL words.
pub fn validate_sql_identifier(name: &str) -> (r: Result<(), IdentifierError>)
    ensures
        r == spec_validate_sql_identifier(name.len() as int, name@),
        all_ascii(name@) ==> r == spec_validate_ascii_identifier(name.len() as int, name@),
{
    let v = chars_of(name);
    if v.len() == 0 || name.len() > 64 {
        return Err(IdentifierError::InvalidLength);
    }
    if !char_is_alphabetic(v[0]) {
        return Err(IdentifierError::MustStartWithLetter);
    }
    let mut i: usize = 0;
    while i < v.len()
        invariant
            i <= v@.len(),
            v@ == name@,
            v@.len() > 0,
            name.len() <= 64,
            alphabetic(v@[0]),
            all_ascii(name@) ==> is_ascii_alpha(v@[0]),
            forall|j: int| 0 <= j < i ==> alphanumeric(#[trigger] v@[j]) || v@[j] == '_',
            all_ascii(name@) ==> forall|j: int|
                0 <= j < i ==> is_ascii_alnum(#[trigger] v@[j]) || v@[j] == '_',
        decreases v@.len() - i,
    {
        let c = v[i];
        if !(char_is_alphanumeric(c) || c == '_') {
            assert(!(alphanumeric(name@[i as int]) || name@[i as int] == '_'));
            proof {
                if all_ascii(name@) {
                    assert((name@[i as int] as u32) < 0x80);
                    assert(!(is_ascii_alnum(name@[i as int]) || name@[i as int] == '_'));
                }
            }
            return Err(IdentifierError::InvalidCharacters);
        }
        proof {
            if all_ascii(name@) {
                assert((name@[i as int] as u32) < 0x80);
            }
        }
        i = i + 1;
    }
    let upper = chars_to_ascii_uppercase(&v);
    let keywords = vec![
        chars_of("SELECT"),
        chars_of("DROP"),
        chars_of("DELETE"),
        chars_of("UPDATE"),
        chars_of("INSERT"),
        chars_of("TABLE"),
    ];
    let mut k: usize = 0;
    while k < keywords.len()
        invariant
            k <= keywords@.len() == 6,
            upper@ == ascii_uppercase(name@),
            v@ == name@,
            v@.len() > 0,
            name.len() <= 64,
            alphabetic(v@[0]),
            forall|j: int| 0 <= j < v@.len() ==> alphanumeric(#[trigger] v@[j]) || v@[j] == '_',
            all_ascii(name@) ==> is_ascii_alpha(v@[0]),
            all_ascii(name@) ==> forall|j: int|
                0 <= j < v@.len() ==> is_ascii_alnum(#[trigger] v@[j]) || v@[j] == '_',
            forall|j: int| 0 <= j < 6 ==> #[trigger] keywords@[j]@ == sql_keywords()[j],
            forall|j: int| 0 <= j < k ==> sql_keywords()[j] != upper@,
        decreases keywords@.len() - k,
    {
        if chars_eq(&keywords[k], &upper) {
            assert(sql_keywords()[k as int] == upper@);
            assert(sql_keywords().contains(upper@));
            return Err(IdentifierError::Keyword);
        }
        k = k + 1;
    }
    assert(!sql_keywords().contains(upper@));
    Ok(())
}

// ---------------------------------------------------------------------
// Columns of a data file
// ---------------------------------------------------------------------

/// Whether `name` is one of `names`.
pub fn contains_name(names: &Vec<String>, name: &String) -> (b: bool)
    ensures
        b == names@.map_values(|s: String| s@).contains(name@),
{
    let ghost views = names@.map_values(|s: String| s@);
    let mut i: usize = 0;
    while i < names.len()
        invariant
            i <= names@.len(),
            views == names@.map_values(|s: String| s@),
            forall|j: int| 0 <= j < i ==> names@[j]@ != name@,
        decreases names@.len() - i,
    {
        if names[i] == *name {
            assert(views[i as int] == name@);
            return true;
        }
        i = i + 1;
    }
    assert(!views.contains(name@)) by {
        if views.contains(name@) {
            let j = choose|j: int| 0 <= j < views.len() && views[j] == name@;
            assert(names@[j]@ == name@);
        }
    }
    false
}

/// The names in `a` that are not in `b`, in the order of `a`.
pub open spec fn names_not_in(a: Seq<Seq<char>>, b: Seq<Seq<char>>) -> Seq<Seq<char>> {
    a.filter(|x: Seq<char>| !b.contains(x))
}

/// The text of each string.
pub open spec fn views(ss: Seq<String>) -> Seq<Seq<char>> {
    ss.map_values(|s: String| s@)
}

/// The names of `a` that are not in `b`, in order.
pub fn names_missing_from(a: &Vec<String>, b: &Vec<String>) -> (r: Vec<String>)
    ensures
        views(r@) == names_not_in(views(a@), views(b@)),
{
    let mut r: Vec<String> = Vec::new();
    let mut i: usize = 0;
    while i < a.len()
        invariant
            i <= a@.len(),
            views(r@) == names_not_in(views(a@).subrange(0, i as int), views(b@)),
        decreases a@.len() - i,
    {
        let ghost pred = |x: Seq<char>| !views(b@).contains(x);
        assert(views(a@).subrange(0, i + 1) =~= views(a@).subrange(0, i as int).push(
            a@[i as int]@,
        ));
        assert(views(a@).subrange(0, i + 1).filter(pred) == {
            let f = views(a@).subrange(0, i as int).filter(pred);
            if pred(a@[i as int]@) { f.push(a@[i as int]@) } else { f }
        }) by {
            reveal_with_fuel(Seq::filter, 1);
            assert(views(a@).subrange(0, i + 1).drop_last() =~= views(a@).subrange(0, i as int));
        }
        if !contains_name(b, &a[i]) {
            r.push(a[i].clone());
            assert(views(r@) =~= names_not_in(views(a@).subrange(0, i as int), views(b@)).push(
                a@[i as int]@,
            ));
        }
        i = i + 1;
    }
    assert(views(a@).subrange(0, a@.len() as int) =~= views(a@));
    r
}

/// How the columns of a data file differ from a document's fields.
#[derive(Debug)]
pub enum HeaderMismatch {
    /// Columns that are not fields of the document.
    Unsupported(Vec<String>),
    /// Fields that have no column.
    Missing(Vec<String>),
    /// Both at once.
    MissingAndUnsupported { missing: Vec<String>, unsupported: Vec<String> },
}

/// The columns `actual` are exactly the fields `expected`, in any order.
pub open spec fn headers_match(actual: Seq<Seq<char>>, expected: Seq<Seq<char>>) -> bool {
    names_not_in(actual, expected).len() == 0 && names_not_in(expected, actual).len() == 0
}

/// `r` is what checking the columns `actual` against the fields
/// `expected` gives: `Ok` when they match, else the columns that are no
/// field and the fields that have no column, in their order.
pub open spec fn spec_headers_result(
    actual: Seq<Seq<char>>,
    expected: Seq<Seq<char>>,
    r: Result<(), HeaderMismatch>,
) -> bool {
    let extra = names_not_in(actual, expected);
    let missing = names_not_in(expected, actual);
    match r {
        Ok(()) => extra.len() == 0 && missing.len() == 0,
        Err(HeaderMismatch::Unsupported(e)) => missing.len() == 0 && extra.len() > 0 && views(e@)
            == extra,
        Err(HeaderMismatch::Missing(m)) => extra.len() == 0 && missing.len() > 0 && views(m@)
            == missing,
        Err(HeaderMismatch::MissingAndUnsupported { missing: m, unsupported: e }) => extra.len() > 0
            && missing.len() > 0 && views(m@) == missing && views(e@) == extra,
    }
}

/// Checks that the columns `actual` of a data file are exactly the fields
/// `expected`, in any order, and says which differ when they are not.
pub fn check_headers(actual: &Vec<String>, expected: &Vec<String>) -> (r: Result<(), HeaderMismatch>)
    ensures
        spec_headers_result(views(actual@), views(expected@), r),
{
    let extra = names_missing_from(actual, expected);
    let missing = names_missing_from(expected, actual);
    let has_extra = extra.len() > 0;
    let has_missing = missing.len() > 0;
    if !has_missing && !has_extra {
        Ok(())
    } else if !has_missing {
        Err(HeaderMismatch::Unsupported(extra))
    } else if !has_extra {
        Err(HeaderMismatch::Missing(missing))
    } else {
        Err(HeaderMismatch::MissingAndUnsupported { missing, unsupported: extra })
    }
}

/// What `format!("{:?}", ..)` writes for a list of strings.
pub uninterp spec fn debug_list_text(items: Seq<Seq<char>>) -> Seq<char>;

/// Calls `format!("{:?}", items)`: the list in brackets, each string
/// quoted and escaped as `Debug` does. The text is named, not restated.
#[verifier::external_body]
fn debug_list(items: &Vec<String>) -> (r: String)
    ensures
        r@ == debug_list_text(views(items@)),
{
    format!("{:?}", items)
}

impl HeaderMismatch {
    /// The message that explains the mismatch.
    pub open spec fn spec_message(&self) -> Seq<char> {
        match self {
            HeaderMismatch::Unsupported(e) => "File has unsupported fields: "@ + debug_list_text(
                views(e@),
            ),
            HeaderMismatch::Missing(m) => "File has missing fields: "@ + debug_list_text(views(m@)),
            HeaderMismatch::MissingAndUnsupported { missing, unsupported } => "File doesn't have fields: "@
                + debug_list_text(views(missing@)) + " but has unsupported fields: "@
                + debug_list_text(views(unsupported@)),
        }
    }

    /// The message that explains the mismatch.
    pub fn message(&self) -> (r: String)
        ensures
            r@ == self.spec_message(),
    {
        match self {
            HeaderMismatch::Unsupported(e) => {
                let mut r = String::from_str("File has unsupported fields: ");
                r.append(debug_list(e).as_str());
                r
            },
            HeaderMismatch::Missing(m) => {
                let mut r = String::from_str("File has missing fields: ");
                r.append(debug_list(m).as_str());
                r
            },
            HeaderMismatch::MissingAndUnsupported { missing, unsupported } => {
                let mut r = String::from_str("File doesn't have fields: ");
                r.append(debug_list(missing).as_str());
                r.append(" but has unsupported fields: ");
                r.append(debug_list(unsupported).as_str());
                r
            },
        }
    }
}

impl IdentifierError {
    /// The message that explains the error.
    pub fn message(&self) -> (r: &'static str)
        ensures
            r@ == match self {
                IdentifierError::InvalidLength => "Invalid identifier length"@,
                IdentifierError::MustStartWithLetter => "Identifier must start with a letter"@,
                IdentifierError::InvalidCharacters => "Identifier contains invalid characters"@,
                IdentifierError::Keyword => "Identifier cannot be an SQL keyword"@,
            },
    {
        match self {
            IdentifierError::InvalidLength => "Invalid identifier length",
            IdentifierError::MustStartWithLetter => "Identifier must start with a letter",
            IdentifierError::InvalidCharacters => "Identifier contains invalid characters",
            IdentifierError::Keyword => "Identifier cannot be an SQL keyword",
        }
    }
}

// ---------------------------------------------------------------------
// Sorting names
// ---------------------------------------------------------------------

/// Entry `i` (text `a`) comes before entry `j` (text `b`) in a stable
/// sort: its text is smaller, or the texts are equal and it came first.
pub open spec fn name_before(a: Seq<char>, i: int, b: Seq<char>, j: int) -> bool {
    lex_lt(a, b) || (a == b && i < j)
}

/// `r` is `v` sorted in lexicographic order: `v` rearranged by a
/// permutation along which the texts never decrease (equal texts keep
/// their order, which leaves the result the same).
pub open spec fn sorted_names(v: Seq<Seq<char>>, r: Seq<Seq<char>>) -> bool {
    exists|p: Seq<int>|
        #![trigger is_index_permutation(p, v.len() as int)]
        is_index_permutation(p, v.len() as int) && r.len() == v.len() && (forall|k: int|
            0 <= k < r.len() ==> #[trigger] r[k] == v[p[k]]) && (forall|a: int, b: int|
            0 <= a < b < r.len() ==> name_before(v[p[a]], p[a], v[p[b]], p[b]))
}

/// `p` is a permutation of `0..n`.
pub open spec fn is_index_permutation(p: Seq<int>, n: int) -> bool {
    &&& p.len() == n
    &&& forall|k: int| 0 <= k < n ==> 0 <= #[trigger] p[k] < n
    &&& forall|x: int| 0 <= x < n ==> #[trigger] p.contains(x)
}

/// Sorts names in lexicographic order (`sort` on strings).
pub fn sort_names(v: Vec<String>) -> (r: Vec<String>)
    ensures
        sorted_names(views(v@), views(r@)),
{
    let ghost orig = views(v@);
    let n = v.len();
    let mut src = v;
    let mut r: Vec<String> = Vec::new();
    let ghost mut p: Seq<int> = Seq::empty();
    let mut k: usize = 0;
    assert(views(src@) =~= orig.skip(0));
    while k < n
        invariant
            n == orig.len(),
            k <= n,
            views(src@) == orig.skip(k as int),
            r@.len() == k,
            p.len() == k,
            forall|j: int| 0 <= j < k ==> 0 <= #[trigger] p[j] < k,
            forall|x: int| 0 <= x < k ==> #[trigger] p.contains(x),
            forall|j: int| 0 <= j < k ==> #[trigger] r@[j]@ == orig[p[j]],
            forall|a: int, b: int|
                0 <= a < b < k ==> name_before(orig[p[a]], p[a], orig[p[b]], p[b]),
        decreases n - k,
    {
        assert(views(src@).len() == src@.len());
        assert(views(src@)[0] == orig[k as int]);
        let ghost before_src = src@;
        let m = src.remove(0);
        assert(src@ =~= before_src.subrange(1, before_src.len() as int));
        assert forall|j: int| 0 <= j < views(src@).len() implies views(src@)[j] == orig.skip(
            k + 1,
        )[j] by {
            assert(views(src@)[j] == src@[j]@);
            assert(src@[j] == before_src[j + 1]);
            assert(views(before_src)[j + 1] == before_src[j + 1]@);
        }
        assert(views(src@) =~= orig.skip(k + 1));
        let mut pos: usize = 0;
        while pos < r.len() && !str_lt(m.as_str(), r[pos].as_str())
            invariant
                pos <= r@.len(),
                forall|j: int| 0 <= j < pos ==> !lex_lt(m@, #[trigger] r@[j]@),
            decreases r@.len() - pos,
        {
            pos = pos + 1;
        }
        let ghost old_r = r@;
        let ghost old_p = p;
        let ghost mt = m@;
        assert(mt == orig[k as int]);
        r.insert(pos, m);
        proof {
            p = old_p.insert(pos as int, k as int);
            assert(r@ =~= old_r.insert(pos as int, r@[pos as int]));
            assert forall|j: int| 0 <= j < k + 1 implies #[trigger] r@[j]@ == orig[p[j]] by {
                if j < pos {
                    assert(r@[j] == old_r[j]);
                } else if j > pos {
                    assert(r@[j] == old_r[j - 1]);
                }
            }
            assert forall|j: int| 0 <= j < k + 1 implies 0 <= #[trigger] p[j] < k + 1 by {
                if j < pos {
                    assert(p[j] == old_p[j]);
                } else if j > pos {
                    assert(p[j] == old_p[j - 1]);
                }
            }
            assert forall|x: int| 0 <= x < k + 1 implies #[trigger] p.contains(x) by {
                if x == k {
                    assert(p[pos as int] == x);
                } else {
                    assert(old_p.contains(x));
                    let j0 = choose|j: int| 0 <= j < old_p.len() && old_p[j] == x;
                    if j0 < pos {
                        assert(p[j0] == x);
                    } else {
                        assert(p[j0 + 1] == x);
                    }
                }
            }
            assert forall|j: int| pos <= j < k implies lex_lt(mt, #[trigger] orig[old_p[j]]) by {
                assert(lex_lt(mt, old_r[pos as int]@));
                if j > pos {
                    let t0 = orig[old_p[pos as int]];
                    let tj = orig[old_p[j]];
                    assert(name_before(t0, old_p[pos as int], tj, old_p[j]));
                    if lex_lt(t0, tj) {
                        lemma_lex_transitive(mt, t0, tj);
                    }
                }
            }
            assert forall|j: int| 0 <= j < pos implies name_before(
                #[trigger] orig[old_p[j]],
                old_p[j],
                mt,
                k as int,
            ) by {
                let tj = orig[old_p[j]];
                assert(!lex_lt(mt, old_r[j]@));
                if tj != mt {
                    lemma_lex_total(tj, mt);
                }
            }
            assert forall|a: int, b: int| 0 <= a < b < k + 1 implies name_before(
                orig[p[a]],
                p[a],
                orig[p[b]],
                p[b],
            ) by {
                if b < pos {
                    assert(p[a] == old_p[a] && p[b] == old_p[b]);
                } else if b == pos {
                    assert(p[a] == old_p[a]);
                    assert(p[b] == k);
                } else if a < pos {
                    assert(p[a] == old_p[a] && p[b] == old_p[b - 1]);
                } else if a == pos {
                    assert(p[a] == k);
                    assert(p[b] == old_p[b - 1]);
                    assert(lex_lt(mt, orig[old_p[b - 1]]));
                } else {
                    assert(p[a] == old_p[a - 1] && p[b] == old_p[b - 1]);
                }
            }
        }
        k = k + 1;
    }
    assert(is_index_permutation(p, n as int));
    assert forall|j: int| 0 <= j < views(r@).len() implies #[trigger] views(r@)[j] == orig[p[j]] by {}
    r
}

/// Checks the columns `headers` of a data file against the fields
/// `records` of a document, both taken in sorted order: the unsupported
/// columns and the missing fields are listed sorted.
pub fn compare_records(records: Vec<String>, headers: Vec<String>) -> (r: Result<(), HeaderMismatch>)
    ensures
        exists|sh: Seq<Seq<char>>, sr: Seq<Seq<char>>|
            #![trigger sorted_names(views(headers@), sh), sorted_names(views(records@), sr)]
            sorted_names(views(headers@), sh) && sorted_names(views(records@), sr) && {
                let extra = names_not_in(sh, sr);
                let missing = names_not_in(sr, sh);
                match r {
                    Ok(()) => extra.len() == 0 && missing.len() == 0,
                    Err(HeaderMismatch::Unsupported(e)) => missing.len() == 0 && extra.len() > 0
                        && views(e@) == extra,
                    Err(HeaderMismatch::Missing(m)) => extra.len() == 0 && missing.len() > 0
                        && views(m@) == missing,
                    Err(HeaderMismatch::MissingAndUnsupported { missing: m, unsupported: e }) => extra.len()
                        > 0 && missing.len() > 0 && views(m@) == missing && views(e@) == extra,
                }
            },
{
    let h = sort_names(headers);
    let s = sort_names(records);
    check_headers(&h, &s)
}

impl UnknownExtension {
    /// The message that explains the error.
    pub fn message(&self) -> (r: String)
        ensures
            r@ == "unknown file extension: "@ + self.extension@,
    {
        let mut r = String::from_str("unknown file extension: ");
        r.append(self.extension.as_str());
        r
    }
}

// ---------------------------------------------------------------------
// Describing a document
// ---------------------------------------------------------------------

/// How many of `fields` are searchable.
pub open spec fn count_vec_inputs(fields: Seq<Field>) -> nat
    decreases fields.len(),
{
    if fields.len() == 0 {
        0
    } else {
        count_vec_inputs(fields.drop_last()) + if fields.last().vec_input {
            1nat
        } else {
            0nat
        }
    }
}

/// How many of `fields` are unique.
pub open spec fn count_unique(fields: Seq<Field>) -> nat
    decreases fields.len(),
{
    if fields.len() == 0 {
        0
    } else {
        count_unique(fields.drop_last()) + if fields.last().unique {
            1nat
        } else {
            0nat
        }
    }
}

/// `s` padded with spaces on the right to `width` characters
/// (`{:<width}`); a longer `s` is kept whole.
pub open spec fn pad_right(s: Seq<char>, width: nat) -> Seq<char> {
    if s.len() >= width {
        s
    } else {
        s + Seq::new((width - s.len()) as nat, |i: int| ' ')
    }
}

/// The line of field number `i` of `n` in a document's description: the
/// branch (the last one closes the tree), the name padded to 20, a bar,
/// and the badges of a searchable and of a unique field.
pub open spec fn field_line(f: Field, i: int, n: int) -> Seq<char> {
    (if i == n - 1 {
        "╰─"@
    } else {
        "├─"@
    }) + " "@ + pad_right(f.name@, 20) + " │"@ + if f.vec_input || f.unique {
        " "@ + if f.vec_input && f.unique {
            "🔍 vec ⭐ único"@
        } else if f.vec_input {
            "🔍 vec"@
        } else {
            "⭐ único"@
        }
    } else {
        Seq::empty()
    }
}

/// The lines that describe a document: its name in upper case, how many
/// fields it has (searchable and unique ones counted), and a line per
/// field. Names are upper-cased as ASCII.
pub open spec fn spec_describe(d: Document) -> Seq<Seq<char>> {
    seq![
        "╭─ 📄 "@ + ascii_uppercase(d.name@),
        "│  📊 "@ + crate::text::decimal(d.fields@.len()) + " fields • "@ + crate::text::decimal(
            count_vec_inputs(d.fields@),
        ) + " vectorized • "@ + crate::text::decimal(count_unique(d.fields@)) + " unique"@,
        "│"@,
    ] + Seq::new(d.fields@.len(), |i: int| field_line(d.fields@[i], i, d.fields@.len() as int))
}

impl Document {
    /// The lines that describe the document.
    pub fn describe(&self) -> (r: Vec<String>)
        ensures
            views(r@) == spec_describe(*self),
    {
        let n = self.fields.len();
        let mut vec_count: usize = 0;
        let mut unique_count: usize = 0;
        let mut i: usize = 0;
        while i < n
            invariant
                n == self.fields@.len(),
                i <= n,
                vec_count == count_vec_inputs(self.fields@.take(i as int)),
                unique_count == count_unique(self.fields@.take(i as int)),
                vec_count <= i,
                unique_count <= i,
            decreases n - i,
        {
            assert(self.fields@.take(i + 1).drop_last() =~= self.fields@.take(i as int));
            if self.fields[i].vec_input {
                vec_count = vec_count + 1;
            }
            if self.fields[i].unique {
                unique_count = unique_count + 1;
            }
            i = i + 1;
        }
        assert(self.fields@.take(n as int) =~= self.fields@);
        let mut lines: Vec<String> = Vec::new();
        let mut head = String::from_str("╭─ 📄 ");
        let upper = chars_to_ascii_uppercase(&chars_of(self.name.as_str()));
        let mut k: usize = 0;
        while k < upper.len()
            invariant
                k <= upper@.len(),
                head@ == "╭─ 📄 "@ + upper@.take(k as int),
            decreases upper@.len() - k,
        {
            push_char(&mut head, upper[k]);
            assert(upper@.take(k + 1) =~= upper@.take(k as int).push(upper@[k as int]));
            k = k + 1;
        }
        assert(upper@.take(upper@.len() as int) =~= upper@);
        lines.push(head);
        let mut counts = String::from_str("│  📊 ");
        crate::text::push_decimal(&mut counts, n as u64);
        counts.append(" fields • ");
        crate::text::push_decimal(&mut counts, vec_count as u64);
        counts.append(" vectorized • ");
        crate::text::push_decimal(&mut counts, unique_count as u64);
        counts.append(" unique");
        lines.push(counts);
        lines.push(String::from_str("│"));
        let ghost top = views(lines@);
        let mut j: usize = 0;
        while j < n
            invariant
                n == self.fields@.len(),
                j <= n,
                views(lines@) == top + Seq::new(
                    j as nat,
                    |t: int| field_line(self.fields@[t], t, n as int),
                ),
            decreases n - j,
        {
            let f = &self.fields[j];
            let mut line = if j == n - 1 {
                String::from_str("╰─")
            } else {
                String::from_str("├─")
            };
            line.append(" ");
            let name = chars_of(f.name.as_str());
            line.append(f.name.as_str());
            let mut pad = name.len();
            let ghost before_pad = line@;
            while pad < 20
                invariant
                    name@.len() <= pad <= 20 || (pad == name@.len() && pad >= 20),
                    line@ == before_pad + Seq::new((pad - name@.len()) as nat, |t: int| ' '),
                decreases 20 - pad,
            {
                push_char(&mut line, ' ');
                assert(line@ =~= before_pad + Seq::new((pad + 1 - name@.len()) as nat, |t: int| ' '));
                pad = pad + 1;
            }
            line.append(" │");
            if f.vec_input || f.unique {
                line.append(" ");
                if f.vec_input && f.unique {
                    line.append("🔍 vec ⭐ único");
                } else if f.vec_input {
                    line.append("🔍 vec");
                } else {
                    line.append("⭐ único");
                }
            }
            proof {
                assert(name@ == f.name@);
                if name@.len() >= 20 {
                    assert(Seq::new((pad - name@.len()) as nat, |t: int| ' ') =~= Seq::<char>::empty());
                }
                assert(line@ =~= field_line(*f, j as int, n as int));
            }
            let ghost prev = views(lines@);
            lines.push(line);
            assert(views(lines@) =~= prev.push(field_line(self.fields@[j as int], j as int, n as int)));
            assert(views(lines@) =~= top + Seq::new(
                (j + 1) as nat,
                |t: int| field_line(self.fields@[t], t, n as int),
            ));
            j = j + 1;
        }
        assert(views(lines@) =~= spec_describe(*self));
        lines
    }
}

} // verus!

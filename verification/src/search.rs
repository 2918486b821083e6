//! Searching a document: the search strategies, the check of a search's
//! constraints against the document, and the SQL text (with its bound
//! values) that each strategy runs.

use vstd::prelude::*;
use crate::common::{lowercase, to_lowercase};
use crate::datasources::{
    plain_field_names, str_eq_literal, views, Document, Field,
};
use crate::query::{
    spec_parse, QueryView, ParsingErrorView,
    constraint_views, Constraint, ConstraintMap, ConstraintView, ParsingError, Query,
};
use crate::text::{contains_seq, decimal, has_suffix, occurs_at, push_char, push_decimal, str_eq_ignore_ascii_case, eq_ignore_ascii_case};

verus! {

// ---------------------------------------------------------------------
// Strategies
// ---------------------------------------------------------------------

/// How a document is searched: full-text, by embedding distance, or by
/// reciprocal rank fusion of both.
#[derive(Debug, Clone, Copy, PartialEq, Eq, Structural)]
pub enum SearchStrategy {
    Fts,
    Semantic,
    ReciprocalRankFusion,
}

/// A strategy name that is not one of `fts`, `semantic_search`, `rrf`
/// (it is kept in lower case).
#[derive(Debug)]
pub struct UnsupportedSearchStrategy {
    pub name: String,
}

impl SearchStrategy {
    /// The strategy that `fts` is.
    pub fn default_strategy() -> (s: Self)
        ensures
            s == SearchStrategy::Fts,
    {
        SearchStrategy::Fts
    }

    /// The strategy named `value`, ignoring case: `fts`, `semantic_search`
    /// or `rrf`.
    pub fn try_from(value: String) -> (r: Result<Self, UnsupportedSearchStrategy>)
        ensures
            ({
                let l = lowercase(value@);
                match r {
                    Ok(SearchStrategy::Fts) => l == "fts"@,
                    Ok(SearchStrategy::Semantic) => l == "semantic_search"@ && l != "fts"@,
                    Ok(SearchStrategy::ReciprocalRankFusion) => l == "rrf"@ && l != "fts"@ && l
                        != "semantic_search"@,
                    Err(e) => l != "fts"@ && l != "semantic_search"@ && l != "rrf"@ && e.name@
                        == l,
                }
            }),
    {
        let lower = to_lowercase(value.as_str());
        if str_eq_literal(lower.as_str(), "fts") {
            Ok(SearchStrategy::Fts)
        } else if str_eq_literal(lower.as_str(), "semantic_search") {
            Ok(SearchStrategy::Semantic)
        } else if str_eq_literal(lower.as_str(), "rrf") {
            Ok(SearchStrategy::ReciprocalRankFusion)
        } else {
            Err(UnsupportedSearchStrategy { name: lower })
        }
    }

    /// The text under which the strategy is stored in the database.
    pub open spec fn spec_sql_text(self) -> Seq<char> {
        match self {
            SearchStrategy::Fts => "Fts"@,
            SearchStrategy::Semantic => "Semantic"@,
            SearchStrategy::ReciprocalRankFusion => "ReciprocalRankFusion"@,
        }
    }

    /// The strategy stored as `text`, if it is one.
    pub open spec fn spec_from_sql_text(text: Seq<char>) -> Option<SearchStrategy> {
        if text == "Fts"@ {
            Some(SearchStrategy::Fts)
        } else if text == "Semantic"@ {
            Some(SearchStrategy::Semantic)
        } else if text == "ReciprocalRankFusion"@ {
            Some(SearchStrategy::ReciprocalRankFusion)
        } else {
            None
        }
    }

    /// The text under which the strategy is stored in the database.
    pub fn sql_text(&self) -> (r: &'static str)
        ensures
            r@ == self.spec_sql_text(),
    {
        match self {
            SearchStrategy::Fts => "Fts",
            SearchStrategy::Semantic => "Semantic",
            SearchStrategy::ReciprocalRankFusion => "ReciprocalRankFusion",
        }
    }

    /// The strategy stored as `text` in the database, if it is one.
    pub fn from_sql_text(text: &str) -> (r: Option<Self>)
        ensures
            r == Self::spec_from_sql_text(text@),
    {
        if str_eq_literal(text, "Fts") {
            Some(SearchStrategy::Fts)
        } else if str_eq_literal(text, "Semantic") {
            Some(SearchStrategy::Semantic)
        } else if str_eq_literal(text, "ReciprocalRankFusion") {
            Some(SearchStrategy::ReciprocalRankFusion)
        } else {
            None
        }
    }
}

/// A strategy written to the database is read back as itself, and a text
/// read back as a strategy is the text that strategy is written as.
pub proof fn lemma_strategy_sql_round_trip(s: SearchStrategy, text: Seq<char>)
    ensures
        SearchStrategy::spec_from_sql_text(s.spec_sql_text()) == Some(s),
        SearchStrategy::spec_from_sql_text(text) matches Some(t) ==> t.spec_sql_text() == text,
{
    reveal_strlit("Fts");
    reveal_strlit("Semantic");
    reveal_strlit("ReciprocalRankFusion");
    assert("Fts"@.len() != "Semantic"@.len());
    assert("Fts"@.len() != "ReciprocalRankFusion"@.len());
    assert("Semantic"@.len() != "ReciprocalRankFusion"@.len());
}

// ---------------------------------------------------------------------
// Errors answered to a search
// ---------------------------------------------------------------------

/// What a request to the server is answered when it fails.
#[derive(Debug)]
pub enum HttpError {
    AuthError { msg: String, err: String },
    MissingDocument { msg: String },
    Internal { err: String },
    BadRequest { message: String, valid_fields: Vec<String>, invalid_fields: Vec<String> },
    Parsing(ParsingError),
}

impl HttpError {
    /// A request that names fields the document does not have.
    pub fn bad_request(message: String, valid_fields: Vec<String>, invalid_fields: Vec<String>) -> (e: Self)
        ensures
            e == (HttpError::BadRequest { message, valid_fields, invalid_fields }),
    {
        HttpError::BadRequest { message, valid_fields, invalid_fields }
    }

    /// A request for a document that does not exist.
    pub fn missing_document(message: String) -> (e: Self)
        ensures
            e == (HttpError::MissingDocument { msg: message }),
    {
        HttpError::MissingDocument { msg: message }
    }
}

// ---------------------------------------------------------------------
// Checking constraints against a document
// ---------------------------------------------------------------------

/// The names in `keys` that are not in `valid`, in order.
pub open spec fn unknown_fields(keys: Seq<Seq<char>>, valid: Seq<Seq<char>>) -> Seq<Seq<char>> {
    keys.filter(|k: Seq<char>| !valid.contains(k))
}

/// The fields a search may constrain: the document's fields that are not
/// searchable, in order.
pub fn constrainable_fields(document: &Document) -> (r: Vec<String>)
    ensures
        views(r@) == plain_field_names(document.fields@),
{
    let mut r: Vec<String> = Vec::new();
    let mut i: usize = 0;
    while i < document.fields.len()
        invariant
            i <= document.fields@.len(),
            views(r@) == plain_field_names(document.fields@.subrange(0, i as int)),
        decreases document.fields@.len() - i,
    {
        assert(document.fields@.subrange(0, i + 1).drop_last() =~= document.fields@.subrange(
            0,
            i as int,
        ));
        if !document.fields[i].vec_input {
            r.push(document.fields[i].name.clone());
            assert(views(r@) =~= plain_field_names(document.fields@.subrange(0, i as int)).push(
                document.fields@[i as int].name@,
            ));
        }
        i = i + 1;
    }
    assert(document.fields@.subrange(0, document.fields@.len() as int) =~= document.fields@);
    r
}

/// Checks that a search only constrains fields of the document that are
/// not searchable. When it does not, the answer is `BadRequest` with the
/// fields that may be constrained and those that may not.
pub fn validate_query_constraints(document: &Document, query: &Query) -> (r: Result<(), HttpError>)
    requires
        query.wf(),
    ensures
        match query.constraints {
            None => r is Ok,
            Some(m) => {
                let valid = plain_field_names(document.fields@);
                let invalid = unknown_fields(m.keys_view(), valid);
                match r {
                    Ok(()) => invalid.len() == 0,
                    Err(HttpError::BadRequest { message, valid_fields, invalid_fields }) => {
                        &&& invalid.len() > 0
                        &&& message@ == "You are looking for fields that don't exist in the document."@
                        &&& views(valid_fields@) == valid
                        &&& views(invalid_fields@) == invalid
                    },
                    Err(_) => false,
                }
            },
        },
{
    let valid_fields = constrainable_fields(document);
    match &query.constraints {
        None => Ok(()),
        Some(m) => {
            let keys = m.keys();
            let invalid_fields = crate::datasources::names_missing_from(&keys, &valid_fields);
            proof {
                assert(views(keys@) =~= m.keys_view());
            }
            if invalid_fields.len() > 0 {
                Err(
                    HttpError::bad_request(
                        "You are looking for fields that don't exist in the document.".to_owned(),
                        valid_fields,
                        invalid_fields,
                    ),
                )
            } else {
                Ok(())
            }
        },
    }
}

// ---------------------------------------------------------------------
// SQL conditions for constraints
// ---------------------------------------------------------------------

/// The named parameter of the `i`-th constraint of field `k`: `:k_i`.
pub open spec fn param_name(k: Seq<char>, i: nat) -> Seq<char> {
    seq![':'] + k + seq!['_'] + decimal(i)
}

/// The SQL condition of the `i`-th constraint `c` of field `k`.
pub open spec fn condition_text(k: Seq<char>, i: nat, c: ConstraintView) -> Seq<char> {
    match c {
        ConstraintView::Exact(_) => "LOWER("@ + k + ") like LOWER('%' || "@ + param_name(k, i)
            + " || '%')"@,
        ConstraintView::GreaterThan(_) => k + " > "@ + param_name(k, i),
        ConstraintView::LesserThan(_) => k + " < "@ + param_name(k, i),
    }
}

/// The value a constraint compares with.
pub open spec fn constraint_value(c: ConstraintView) -> Seq<char> {
    match c {
        ConstraintView::Exact(v) => v,
        ConstraintView::GreaterThan(v) => v,
        ConstraintView::LesserThan(v) => v,
    }
}

/// The conditions of the fields `entries`, field after field, each
/// field's constraints in order.
pub open spec fn all_conditions(entries: Seq<(Seq<char>, Seq<ConstraintView>)>) -> Seq<Seq<char>>
    decreases entries.len(),
{
    if entries.len() == 0 {
        seq![]
    } else {
        let last = entries.last();
        all_conditions(entries.drop_last()) + Seq::new(
            last.1.len(),
            |i: int| condition_text(last.0, i as nat, last.1[i]),
        )
    }
}

/// The values bound to the conditions of `entries`, in the same order.
pub open spec fn all_bindings(entries: Seq<(Seq<char>, Seq<ConstraintView>)>) -> Seq<Seq<char>>
    decreases entries.len(),
{
    if entries.len() == 0 {
        seq![]
    } else {
        all_bindings(entries.drop_last()) + entries.last().1.map_values(
            |c: ConstraintView| constraint_value(c),
        )
    }
}

impl ConstraintMap {
    /// The fields and their constraints, in order.
    pub open spec fn entry_views(&self) -> Seq<(Seq<char>, Seq<ConstraintView>)> {
        Seq::new(self.entries@.len(), |i: int| (self.key_at(i), self.values_at(i)))
    }

    /// The names of the constrained fields, in order.
    pub open spec fn keys_view(&self) -> Seq<Seq<char>> {
        Seq::new(self.entries@.len(), |i: int| self.key_at(i))
    }
}

/// Appends `t` to `s`.
pub(crate) fn append_str(s: &mut String, t: &str)
    ensures
        final(s)@ == old(s)@ + t@,
{
    s.append(t);
}

/// The condition of the `i`-th constraint `c` of field `k`.
fn condition_for(k: &String, i: usize, c: &Constraint) -> (r: String)
    ensures
        r@ == condition_text(k@, i as nat, c@),
{
    let mut param = String::new();
    push_char(&mut param, ':');
    append_str(&mut param, k.as_str());
    push_char(&mut param, '_');
    push_decimal(&mut param, i as u64);
    assert(param@ =~= param_name(k@, i as nat));
    let mut r = String::new();
    match c {
        Constraint::Exact(_) => {
            append_str(&mut r, "LOWER(");
            append_str(&mut r, k.as_str());
            append_str(&mut r, ") like LOWER('%' || ");
            append_str(&mut r, param.as_str());
            append_str(&mut r, " || '%')");
        },
        Constraint::GreaterThan(_) => {
            append_str(&mut r, k.as_str());
            append_str(&mut r, " > ");
            append_str(&mut r, param.as_str());
        },
        Constraint::LesserThan(_) => {
            append_str(&mut r, k.as_str());
            append_str(&mut r, " < ");
            append_str(&mut r, param.as_str());
        },
    }
    assert(r@ =~= condition_text(k@, i as nat, c@));
    r
}

/// The value of a constraint.
fn value_of(c: &Constraint) -> (r: String)
    ensures
        r@ == constraint_value(c@),
{
    match c {
        Constraint::Exact(v) => v.clone(),
        Constraint::GreaterThan(v) => v.clone(),
        Constraint::LesserThan(v) => v.clone(),
    }
}

/// The SQL conditions of a search's constraints and the values bound to
/// them, field after field in order; the `i`-th constraint of field `k`
/// is bound to the parameter `:k_i`.
pub fn build_conditions_owned(constraints: Option<&ConstraintMap>) -> (r: (Vec<String>, Vec<String>))
    ensures
        match constraints {
            None => r.0@.len() == 0 && r.1@.len() == 0,
            Some(m) => views(r.0@) == all_conditions(m.entry_views()) && views(r.1@)
                == all_bindings(m.entry_views()),
        },
{
    let mut conditions: Vec<String> = Vec::new();
    let mut bindings: Vec<String> = Vec::new();
    match constraints {
        None => {},
        Some(m) => {
            let ghost ev = m.entry_views();
            let mut i: usize = 0;
            assert(ev.subrange(0, 0) =~= Seq::<(Seq<char>, Seq<ConstraintView>)>::empty());
            while i < m.entries.len()
                invariant
                    i <= m.entries@.len(),
                    ev == m.entry_views(),
                    views(conditions@) == all_conditions(ev.subrange(0, i as int)),
                    views(bindings@) == all_bindings(ev.subrange(0, i as int)),
                decreases m.entries@.len() - i,
            {
                let key = &m.entries[i].0;
                let values = &m.entries[i].1;
                let ghost vals = constraint_views(values@);
                let ghost conds0 = views(conditions@);
                let ghost binds0 = views(bindings@);
                let mut j: usize = 0;
                while j < values.len()
                    invariant
                        j <= values@.len(),
                        vals == constraint_views(values@),
                        views(conditions@) == conds0 + Seq::new(
                            j as nat,
                            |t: int| condition_text(key@, t as nat, vals[t]),
                        ),
                        views(bindings@) == binds0 + vals.subrange(0, j as int).map_values(
                            |c: ConstraintView| constraint_value(c),
                        ),
                    decreases values@.len() - j,
                {
                    let cond = condition_for(key, j, &values[j]);
                    let bind = value_of(&values[j]);
                    let ghost prev_c = conditions@;
                    let ghost prev_b = bindings@;
                    conditions.push(cond);
                    bindings.push(bind);
                    assert(views(conditions@) =~= views(prev_c).push(condition_text(key@, j as nat, vals[j as int])));
                    assert(views(bindings@) =~= views(prev_b).push(constraint_value(vals[j as int])));
                    assert(vals.subrange(0, j + 1) =~= vals.subrange(0, j as int).push(vals[j as int]));
                    assert(views(conditions@) =~= conds0 + Seq::new(
                        (j + 1) as nat,
                        |t: int| condition_text(key@, t as nat, vals[t]),
                    ));
                    assert(views(bindings@) =~= binds0 + vals.subrange(0, j + 1).map_values(
                        |c: ConstraintView| constraint_value(c),
                    ));
                    j = j + 1;
                }
                proof {
                    let sub = ev.subrange(0, i + 1);
                    assert(sub.drop_last() =~= ev.subrange(0, i as int));
                    assert(sub.last() == (key@, vals));
                    assert(vals.subrange(0, vals.len() as int) =~= vals);
                    assert(views(conditions@) =~= all_conditions(sub));
                    assert(views(bindings@) =~= all_bindings(sub));
                }
                i = i + 1;
            }
            assert(ev.subrange(0, m.entries@.len() as int) =~= ev);
        },
    }
    (conditions, bindings)
}

/// `xs` joined with `sep` between consecutive elements.
pub open spec fn join(xs: Seq<Seq<char>>, sep: Seq<char>) -> Seq<char>
    decreases xs.len(),
{
    if xs.len() == 0 {
        seq![]
    } else if xs.len() == 1 {
        xs[0]
    } else {
        join(xs.drop_last(), sep) + sep + xs.last()
    }
}

/// The `where` clause of a list of conditions: empty when there is none.
pub open spec fn where_clause(conds: Seq<Seq<char>>) -> Seq<char> {
    if conds.len() == 0 {
        seq![]
    } else {
        "where "@ + join(conds, " and "@)
    }
}

/// The `where` clause of `conditions`.
pub fn build_where_clause(conditions: &Vec<String>) -> (r: String)
    ensures
        r@ == where_clause(views(conditions@)),
{
    let mut r = String::new();
    if conditions.len() == 0 {
        return r;
    }
    append_str(&mut r, "where ");
    let ghost prefix = r@;
    append_str(&mut r, conditions[0].as_str());
    let mut i: usize = 1;
    assert(views(conditions@).subrange(0, 1) =~= seq![conditions@[0]@]);
    while i < conditions.len()
        invariant
            1 <= i <= conditions@.len(),
            prefix == "where "@,
            r@ == prefix + join(views(conditions@).subrange(0, i as int), " and "@),
        decreases conditions@.len() - i,
    {
        append_str(&mut r, " and ");
        append_str(&mut r, conditions[i].as_str());
        proof {
            let sub = views(conditions@).subrange(0, i + 1);
            assert(sub.drop_last() =~= views(conditions@).subrange(0, i as int));
            assert(sub.last() == conditions@[i as int]@);
            assert(r@ =~= prefix + join(sub, " and "@));
        }
        i = i + 1;
    }
    assert(views(conditions@).subrange(0, conditions@.len() as int) =~= views(conditions@));
    r
}

// ---------------------------------------------------------------------
// SQL of each strategy
// ---------------------------------------------------------------------

/// A value bound to a parameter of the SQL text. The two weights are
/// floating-point numbers chosen per request; their slots are marked and
/// the caller binds them.
#[derive(Debug, Clone, PartialEq)]
pub enum SqlValue {
    Text(String),
    Integer(i64),
    Unsigned(u64),
    Blob(Vec<u8>),
    FtsWeight,
    SemanticWeight,
}

/// The mathematical value of an [`SqlValue`].
pub enum SqlValueView {
    Text(Seq<char>),
    Integer(int),
    Unsigned(nat),
    Blob(Seq<u8>),
    FtsWeight,
    SemanticWeight,
}

impl View for SqlValue {
    type V = SqlValueView;

    open spec fn view(&self) -> SqlValueView {
        match self {
            SqlValue::Text(s) => SqlValueView::Text(s@),
            SqlValue::Integer(i) => SqlValueView::Integer(*i as int),
            SqlValue::Unsigned(u) => SqlValueView::Unsigned(*u as nat),
            SqlValue::Blob(b) => SqlValueView::Blob(b@),
            SqlValue::FtsWeight => SqlValueView::FtsWeight,
            SqlValue::SemanticWeight => SqlValueView::SemanticWeight,
        }
    }
}

/// The values of `vs`.
pub open spec fn sql_values(vs: Seq<SqlValue>) -> Seq<SqlValueView> {
    vs.map_values(|v: SqlValue| v@)
}

/// Text values.
pub open spec fn texts(ts: Seq<Seq<char>>) -> Seq<SqlValueView> {
    ts.map_values(|t: Seq<char>| SqlValueView::Text(t))
}

/// A search ready to be run: the document, the query, the strategy and
/// how many neighbours the embedding search returns.
pub struct StreamSearch {
    pub document: Document,
    pub query: Query,
    pub strategy: SearchStrategy,
    pub k_neighbors: u64,
}

/// `f(names[0]) + f(names[1]) + ...`
pub open spec fn concat_map(names: Seq<Seq<char>>, f: spec_fn(Seq<char>) -> Seq<char>) -> Seq<char>
    decreases names.len(),
{
    if names.len() == 0 {
        seq![]
    } else {
        concat_map(names.drop_last(), f) + f(names.last())
    }
}

/// The column list of the full-text search: `<field>,` per field.
pub open spec fn fts_column(name: Seq<char>) -> Seq<char> {
    name + seq![',']
}

/// The column list of the embedding search: ` <doc>.<field>,` per field.
pub open spec fn semantic_column(doc: Seq<char>) -> spec_fn(Seq<char>) -> Seq<char> {
    |name: Seq<char>| seq![' '] + doc + seq!['.'] + name + seq![',']
}

/// The column list of the fused search: `<doc>.<field>,` per field.
pub open spec fn rrf_column(doc: Seq<char>) -> spec_fn(Seq<char>) -> Seq<char> {
    |name: Seq<char>| doc + seq!['.'] + name + seq![',']
}

/// The columns of the non-searchable fields of `fields`, each written by
/// `f`, in order.
fn build_columns(fields: &Vec<Field>, doc: &String, kind: u8) -> (r: String)
    requires
        kind <= 2,
    ensures
        r@ == concat_map(
            plain_field_names(fields@),
            if kind == 0 {
                |n: Seq<char>| fts_column(n)
            } else if kind == 1 {
                semantic_column(doc@)
            } else {
                rrf_column(doc@)
            },
        ),
{
    let ghost f = if kind == 0 {
        |n: Seq<char>| fts_column(n)
    } else if kind == 1 {
        semantic_column(doc@)
    } else {
        rrf_column(doc@)
    };
    let mut r = String::new();
    let mut i: usize = 0;
    assert(fields@.subrange(0, 0) =~= Seq::<Field>::empty());
    while i < fields.len()
        invariant
            i <= fields@.len(),
            kind <= 2,
            f == (if kind == 0 {
                |n: Seq<char>| fts_column(n)
            } else if kind == 1 {
                semantic_column(doc@)
            } else {
                rrf_column(doc@)
            }),
            r@ == concat_map(plain_field_names(fields@.subrange(0, i as int)), f),
        decreases fields@.len() - i,
    {
        let field = &fields[i];
        let ghost names_i = plain_field_names(fields@.subrange(0, i as int));
        assert(fields@.subrange(0, i + 1).drop_last() =~= fields@.subrange(0, i as int));
        if !field.vec_input {
            let ghost before = r@;
            if kind == 1 {
                push_char(&mut r, ' ');
            }
            if kind >= 1 {
                append_str(&mut r, doc.as_str());
                push_char(&mut r, '.');
            }
            append_str(&mut r, field.name.as_str());
            push_char(&mut r, ',');
            proof {
                let pushed = names_i.push(field.name@);
                assert(pushed.drop_last() =~= names_i);
                assert(plain_field_names(fields@.subrange(0, i + 1)) == pushed);
                assert(r@ =~= before + f(field.name@));
            }
        } else {
            assert(plain_field_names(fields@.subrange(0, i + 1)) == names_i);
        }
        i = i + 1;
    }
    assert(fields@.subrange(0, fields@.len() as int) =~= fields@);
    r
}

/// The SQL text of the full-text search.
pub open spec fn fts_sql(doc: Seq<char>, columns: Seq<char>, wc: Seq<char>) -> Seq<char> {
    "select rank as score,"@ + columns
        + "  highlight(fts_"@ + doc
        + ", 0, '<b style=\"color: green;\">', '</b>') as input, 'fts' as match_type from fts_"@
        + doc + " "@ + wc
}

/// The condition of the full-text search on the searched text.
pub open spec fn fts_match_condition() -> Seq<char> {
    "vec_input match '\"' || :query || '\"' "@
}

/// The SQL text of the embedding search.
pub open spec fn semantic_sql(doc: Seq<char>, columns: Seq<char>, wc: Seq<char>) -> Seq<char> {
    "select vec_"@ + doc + ".distance,"@ + " "@ + columns + " "@ + doc
        + ".vec_input as input, 'vec' as match_type from vec_"@ + doc + " left join "@ + doc
        + " on "@ + doc + ".id = vec_"@ + doc + ".row_id"@ + " "@ + wc
}

/// The inner query of the fused search.
pub open spec fn rrf_inner_sql(doc: Seq<char>, columns: Seq<char>) -> Seq<char> {
    "select \n                    "@ + columns + "\n                    "@ + doc
        + ".vec_input as input,\n                    vec_matches.rank_number as vec_rank,\n                    fts_matches.rank_number as fts_rank,\n                    (\n                        coalesce(1.0 / (:rrf_k + fts_matches.rank_number), 0.0) * :weight_fts +\n                        coalesce(1.0 / (:rrf_k + vec_matches.rank_number), 0.0) * :weight_vec\n                    ) as combined_rank,\n                    vec_matches.distance as vec_distance,\n                    fts_matches.score as fts_score\n                from fts_matches\n                full outer join vec_matches on vec_matches.row_id = fts_matches.row_id\n                join "@
        + doc + " on "@ + doc + ".id = coalesce(fts_matches.row_id, vec_matches.row_id)"@
}

/// The SQL text of the fused search.
pub open spec fn rrf_sql(doc: Seq<char>, columns: Seq<char>, wc: Seq<char>) -> Seq<char> {
    "with vec_matches as (\n                    select\n                        row_id,\n                        row_number() over (order by distance) as rank_number,\n                        distance\n                    from vec_"@
        + doc
        + "\n                    where\n                        vec_input_embedding match :embedding\n                        and k = :k\n                ),\n\n                fts_matches as (\n                    select\n                        rowid as row_id,\n                        row_number() over (order by rank) as rank_number,\n                        rank as score\n                    from fts_"@
        + doc
        + "\n                    where vec_input match '\"' || :query || '\"'\n                    ),\n\n                final as ( "@
        + rrf_inner_sql(doc, columns) + " "@ + wc
        + " order by combined_rank desc) select * from final;"@
}

/// Joining one more text ends with that text.
proof fn lemma_join_push(xs: Seq<Seq<char>>, x: Seq<char>, sep: Seq<char>)
    ensures
        join(xs.push(x), sep) == (if xs.len() == 0 {
            Seq::<char>::empty()
        } else {
            join(xs, sep) + sep
        }) + x,
{
    assert(xs.push(x).drop_last() =~= xs);
    if xs.len() == 0 {
        assert(xs.push(x)[0] == x);
        assert(Seq::<char>::empty() + x =~= x);
    }
}

/// A text ending with `x` followed by nothing more ends with `x`.
proof fn lemma_suffix_of_concat(a: Seq<char>, x: Seq<char>)
    ensures
        has_suffix(a + x, x),
{
    assert((a + x).subrange(a.len() as int, (a + x).len() as int) =~= x);
}

/// The full-text search always matches the searched text: its SQL text
/// ends with the match of the index on the query, after the constraints'
/// conditions.
pub proof fn lemma_fts_matches_query(search: StreamSearch, res: (String, Vec<SqlValue>))
    requires
        is_fts_query(search, res),
    ensures
        has_suffix(res.0@, "vec_input match '\"' || :query || '\"' "@),
{
    let entries = search_entries(search.query);
    let conds = all_conditions(entries);
    let m = fts_match_condition();
    lemma_join_push(conds, m, " and "@);
    let j = join(conds.push(m), " and "@);
    let pre = if conds.len() == 0 {
        Seq::<char>::empty()
    } else {
        join(conds, " and "@) + " and "@
    };
    let doc = search.document.name@;
    let cols = concat_map(plain_field_names(search.document.fields@), |n: Seq<char>| fts_column(n));
    let head = "select rank as score,"@ + cols + "  highlight(fts_"@ + doc
        + ", 0, '<b style=\"color: green;\">', '</b>') as input, 'fts' as match_type from fts_"@ + doc
        + " "@;
    assert(res.0@ =~= (head + "where "@ + pre) + m);
    lemma_suffix_of_concat(head + "where "@ + pre, m);
}

/// The embedding search always asks the index for the `k` nearest rows to
/// the embedding: its SQL text ends with those two conditions, after the
/// constraints' conditions.
pub proof fn lemma_semantic_matches_embedding(
    search: StreamSearch,
    emb: Seq<u8>,
    res: (String, Vec<SqlValue>),
)
    requires
        is_semantic_query(search, emb, res),
    ensures
        has_suffix(res.0@, "k = :k and vec_input_embedding match :embedding "@),
{
    let entries = search_entries(search.query);
    let conds = all_conditions(entries);
    let k = "k = :k"@;
    let m = "vec_input_embedding match :embedding "@;
    lemma_join_push(conds.push(k), m, " and "@);
    lemma_join_push(conds, k, " and "@);
    let pre = if conds.len() == 0 {
        Seq::<char>::empty()
    } else {
        join(conds, " and "@) + " and "@
    };
    let doc = search.document.name@;
    let cols = concat_map(plain_field_names(search.document.fields@), semantic_column(doc));
    let head = "select vec_"@ + doc + ".distance,"@ + " "@ + cols + " "@ + doc
        + ".vec_input as input, 'vec' as match_type from vec_"@ + doc + " left join "@ + doc
        + " on "@ + doc + ".id = vec_"@ + doc + ".row_id"@ + " "@;
    let tail = "k = :k and vec_input_embedding match :embedding "@;
    reveal_strlit("k = :k and vec_input_embedding match :embedding ");
    reveal_strlit("k = :k");
    reveal_strlit(" and ");
    reveal_strlit("vec_input_embedding match :embedding ");
    assert(tail =~= k + " and "@ + m);
    assert(res.0@ =~= (head + "where "@ + pre) + tail);
    lemma_suffix_of_concat(head + "where "@ + pre, tail);
}

/// The fused search returns its rows best first: its SQL text ends by
/// ordering them by decreasing combined reciprocal rank, whatever the
/// document, its fields, the search's constraints and the embedding.
pub proof fn lemma_rrf_orders_best_first(
    search: StreamSearch,
    emb: Seq<u8>,
    res: (String, Vec<SqlValue>),
)
    requires
        is_rrf_query(search, emb, res),
    ensures
        has_suffix(res.0@, " order by combined_rank desc) select * from final;"@),
{
    let tail = " order by combined_rank desc) select * from final;"@;
    let s = res.0@;
    assert(s.subrange(s.len() - tail.len(), s.len() as int) =~= tail);
}

/// The fused search ranks a row by the sum of the reciprocal ranks of its
/// full-text and embedding matches, `1 / (k + rank)`, each weighted (a
/// missing match counting 0), whatever the document, fields, constraints
/// and embedding.
pub proof fn lemma_rrf_combines_reciprocal_ranks(
    search: StreamSearch,
    emb: Seq<u8>,
    res: (String, Vec<SqlValue>),
)
    requires
        is_rrf_query(search, emb, res),
    ensures
        contains_seq(res.0@, "coalesce(1.0 / (:rrf_k + fts_matches.rank_number), 0.0) * :weight_fts +\n                        coalesce(1.0 / (:rrf_k + vec_matches.rank_number), 0.0) * :weight_vec\n                    ) as combined_rank"@),
{
    let doc = search.document.name@;
    let cols = concat_map(plain_field_names(search.document.fields@), rrf_column(doc));
    let p = "coalesce(1.0 / (:rrf_k + fts_matches.rank_number), 0.0) * :weight_fts +\n                        coalesce(1.0 / (:rrf_k + vec_matches.rank_number), 0.0) * :weight_vec\n                    ) as combined_rank"@;
    let mid = ".vec_input as input,\n                    vec_matches.rank_number as vec_rank,\n                    fts_matches.rank_number as fts_rank,\n                    (\n                        coalesce(1.0 / (:rrf_k + fts_matches.rank_number), 0.0) * :weight_fts +\n                        coalesce(1.0 / (:rrf_k + vec_matches.rank_number), 0.0) * :weight_vec\n                    ) as combined_rank,\n                    vec_matches.distance as vec_distance,\n                    fts_matches.score as fts_score\n                from fts_matches\n                full outer join vec_matches on vec_matches.row_id = fts_matches.row_id\n                join "@;
    reveal_strlit("coalesce(1.0 / (:rrf_k + fts_matches.rank_number), 0.0) * :weight_fts +\n                        coalesce(1.0 / (:rrf_k + vec_matches.rank_number), 0.0) * :weight_vec\n                    ) as combined_rank");
    reveal_strlit(".vec_input as input,\n                    vec_matches.rank_number as vec_rank,\n                    fts_matches.rank_number as fts_rank,\n                    (\n                        coalesce(1.0 / (:rrf_k + fts_matches.rank_number), 0.0) * :weight_fts +\n                        coalesce(1.0 / (:rrf_k + vec_matches.rank_number), 0.0) * :weight_vec\n                    ) as combined_rank,\n                    vec_matches.distance as vec_distance,\n                    fts_matches.score as fts_score\n                from fts_matches\n                full outer join vec_matches on vec_matches.row_id = fts_matches.row_id\n                join ");
    let l1 = "with vec_matches as (\n                    select\n                        row_id,\n                        row_number() over (order by distance) as rank_number,\n                        distance\n                    from vec_"@;
    let l2 = "\n                    where\n                        vec_input_embedding match :embedding\n                        and k = :k\n                ),\n\n                fts_matches as (\n                    select\n                        rowid as row_id,\n                        row_number() over (order by rank) as rank_number,\n                        rank as score\n                    from fts_"@;
    let l3 = "\n                    where vec_input match '\"' || :query || '\"'\n                    ),\n\n                final as ( "@;
    let i0 = "select \n                    "@;
    let i1 = "\n                    "@;
    let at: int = (l1.len() + doc.len() + l2.len() + doc.len() + l3.len() + i0.len() + cols.len()
        + i1.len() + doc.len() + 181) as int;
    assert(mid.subrange(181, 181 + p.len() as int) =~= p);
    assert(res.0@.subrange(at, at + p.len() as int) =~= p);
    assert(occurs_at(res.0@, p, at));
}

/// The constraints of a search, as field/constraints pairs (none when the
/// search is unconstrained).
pub open spec fn search_entries(q: Query) -> Seq<(Seq<char>, Seq<ConstraintView>)> {
    match q.constraints {
        Some(m) => m.entry_views(),
        None => seq![],
    }
}

/// `res` is the SQL text of a full-text search and the values bound to
/// it: the constraints' conditions and a match on the searched text; the
/// constraints' values, then the searched text.
pub open spec fn is_fts_query(search: StreamSearch, res: (String, Vec<SqlValue>)) -> bool {
    let doc = search.document.name@;
    let entries = search_entries(search.query);
    let conds = all_conditions(entries).push(fts_match_condition());
    &&& res.0@ == fts_sql(
        doc,
        concat_map(plain_field_names(search.document.fields@), |n: Seq<char>| fts_column(n)),
        where_clause(conds),
    )
    &&& sql_values(res.1@) == texts(all_bindings(entries)).push(
        SqlValueView::Text(search.query.query@),
    )
}

/// `res` is the SQL text of an embedding search with embedding `emb` and
/// the values bound to it: the constraints' values, the number of
/// neighbours and the embedding.
pub open spec fn is_semantic_query(search: StreamSearch, emb: Seq<u8>, res: (String, Vec<SqlValue>)) -> bool {
    let doc = search.document.name@;
    let entries = search_entries(search.query);
    let conds = all_conditions(entries).push("k = :k"@).push(
        "vec_input_embedding match :embedding "@,
    );
    &&& res.0@ == semantic_sql(
        doc,
        concat_map(plain_field_names(search.document.fields@), semantic_column(doc)),
        where_clause(conds),
    )
    &&& sql_values(res.1@) == texts(all_bindings(entries)).push(
        SqlValueView::Unsigned(search.k_neighbors as nat),
    ).push(SqlValueView::Blob(emb))
}

/// `res` is the SQL text of a fused search with embedding `emb` and the
/// values bound to it: the embedding, the number of neighbours, the
/// searched text, the constant 60 of the rank fusion, the two weights,
/// then the constraints' values.
pub open spec fn is_rrf_query(search: StreamSearch, emb: Seq<u8>, res: (String, Vec<SqlValue>)) -> bool {
    let doc = search.document.name@;
    let entries = search_entries(search.query);
    &&& res.0@ == rrf_sql(
        doc,
        concat_map(plain_field_names(search.document.fields@), rrf_column(doc)),
        where_clause(all_conditions(entries)),
    )
    &&& sql_values(res.1@) == seq![
        SqlValueView::Blob(emb),
        SqlValueView::Unsigned(search.k_neighbors as nat),
        SqlValueView::Text(search.query.query@),
        SqlValueView::Integer(60),
        SqlValueView::FtsWeight,
        SqlValueView::SemanticWeight,
    ] + texts(all_bindings(entries))
}

/// Turns text bindings into SQL values.
fn text_values(ts: Vec<String>) -> (r: Vec<SqlValue>)
    ensures
        sql_values(r@) == texts(views(ts@)),
{
    let mut r: Vec<SqlValue> = Vec::new();
    let mut i: usize = 0;
    while i < ts.len()
        invariant
            i <= ts@.len(),
            sql_values(r@) == texts(views(ts@.subrange(0, i as int))),
        decreases ts@.len() - i,
    {
        let ghost prev = r@;
        r.push(SqlValue::Text(ts[i].clone()));
        assert(sql_values(r@) =~= sql_values(prev).push(SqlValueView::Text(ts@[i as int]@)));
        assert(views(ts@.subrange(0, i + 1)) =~= views(ts@.subrange(0, i as int)).push(ts@[i as int]@));
        assert(sql_values(r@) =~= texts(views(ts@.subrange(0, i + 1))));
        i = i + 1;
    }
    assert(ts@.subrange(0, ts@.len() as int) =~= ts@);
    r
}

/// The SQL text of a full-text search and the values bound to it: the
/// constraints' values, then the searched text.
pub fn build_fts_query(search: &StreamSearch) -> (r: (String, Vec<SqlValue>))
    ensures
        is_fts_query(*search, r),
{
    let doc = &search.document.name;
    let columns = build_columns(&search.document.fields, doc, 0);
    let (mut conditions, bindings) = build_conditions_owned(search.query.constraints.as_ref());
    conditions.push("vec_input match '\"' || :query || '\"' ".to_owned());
    let mut values = text_values(bindings);
    let ghost prev_values = values@;
    values.push(SqlValue::Text(search.query.query.clone()));
    assert(sql_values(values@) =~= sql_values(prev_values).push(SqlValueView::Text(search.query.query@)));
    let wc = build_where_clause(&conditions);
    let mut sql = String::new();
    append_str(&mut sql, "select rank as score,");
    append_str(&mut sql, columns.as_str());
    append_str(&mut sql, "  highlight(fts_");
    append_str(&mut sql, doc.as_str());
    append_str(
        &mut sql,
        ", 0, '<b style=\"color: green;\">', '</b>') as input, 'fts' as match_type from fts_",
    );
    append_str(&mut sql, doc.as_str());
    append_str(&mut sql, " ");
    append_str(&mut sql, wc.as_str());
    proof {
        let entries = search_entries(search.query);
        if search.query.constraints is None {
            assert(all_conditions(entries) =~= Seq::<Seq<char>>::empty());
            assert(all_bindings(entries) =~= Seq::<Seq<char>>::empty());
        }
        assert(views(conditions@) =~= all_conditions(entries).push(fts_match_condition()));
        assert(sql_values(values@) =~= texts(all_bindings(entries)).push(
            SqlValueView::Text(search.query.query@),
        ));
    }
    (sql, values)
}

/// The error answered when a strategy needs the search's embedding and
/// there is none.
pub open spec fn missing_embedding_error(e: HttpError) -> bool {
    e matches HttpError::Internal { err } && err@ == "failed to create embedding"@
}

/// The SQL text of an embedding search and the values bound to it: the
/// constraints' values, the number of neighbours and the embedding.
pub fn build_semantic_query(search: &StreamSearch, query_emb: Option<Vec<u8>>) -> (r: Result<
    (String, Vec<SqlValue>),
    HttpError,
>)
    ensures
        match query_emb {
            None => r matches Err(e) && missing_embedding_error(e),
            Some(emb) => r matches Ok(res) && is_semantic_query(*search, emb@, res),
        },
{
    if query_emb.is_none() {
        return Err(HttpError::Internal { err: "failed to create embedding".to_owned() });
    }
    let embedding = query_emb.unwrap();
    let doc = &search.document.name;
    let columns = build_columns(&search.document.fields, doc, 1);
    let (mut conditions, bindings) = build_conditions_owned(search.query.constraints.as_ref());
    let mut values = text_values(bindings);
    let ghost v0 = values@;
    conditions.push("k = :k".to_owned());
    values.push(SqlValue::Unsigned(search.k_neighbors));
    conditions.push("vec_input_embedding match :embedding ".to_owned());
    values.push(SqlValue::Blob(embedding));
    assert(sql_values(values@) =~= sql_values(v0).push(SqlValueView::Unsigned(search.k_neighbors as nat)).push(SqlValueView::Blob(embedding@)));
    let wc = build_where_clause(&conditions);
    let mut sql = String::new();
    append_str(&mut sql, "select vec_");
    append_str(&mut sql, doc.as_str());
    append_str(&mut sql, ".distance,");
    append_str(&mut sql, " ");
    append_str(&mut sql, columns.as_str());
    append_str(&mut sql, " ");
    append_str(&mut sql, doc.as_str());
    append_str(&mut sql, ".vec_input as input, 'vec' as match_type from vec_");
    append_str(&mut sql, doc.as_str());
    append_str(&mut sql, " left join ");
    append_str(&mut sql, doc.as_str());
    append_str(&mut sql, " on ");
    append_str(&mut sql, doc.as_str());
    append_str(&mut sql, ".id = vec_");
    append_str(&mut sql, doc.as_str());
    append_str(&mut sql, ".row_id");
    append_str(&mut sql, " ");
    append_str(&mut sql, wc.as_str());
    proof {
        let entries = search_entries(search.query);
        if search.query.constraints is None {
            assert(all_conditions(entries) =~= Seq::<Seq<char>>::empty());
            assert(all_bindings(entries) =~= Seq::<Seq<char>>::empty());
        }
        assert(views(conditions@) =~= all_conditions(entries).push("k = :k"@).push(
            "vec_input_embedding match :embedding "@,
        ));
    }
    proof {
        let doc_v = search.document.name@;
        let entries = search_entries(search.query);
        assert(columns@ == concat_map(plain_field_names(search.document.fields@), semantic_column(doc_v)));
        let conds = all_conditions(entries).push("k = :k"@).push("vec_input_embedding match :embedding "@);
        assert(wc@ == where_clause(conds));
        assert(sql@ =~= semantic_sql(doc_v, columns@, wc@));
        assert(sql_values(values@) == texts(all_bindings(entries)).push(SqlValueView::Unsigned(search.k_neighbors as nat)).push(SqlValueView::Blob(embedding@)));
    }
    Ok((sql, values))
}

/// The SQL text of a fused search and the values bound to it: the
/// embedding, the number of neighbours, the searched text, the constant
/// 60 of the rank fusion, the two weights, then the constraints' values.
pub fn build_rrf_query(search: &StreamSearch, query_emb: Option<Vec<u8>>) -> (r: Result<
    (String, Vec<SqlValue>),
    HttpError,
>)
    ensures
        match query_emb {
            None => r matches Err(e) && missing_embedding_error(e),
            Some(emb) => r matches Ok(res) && is_rrf_query(*search, emb@, res),
        },
{
    if query_emb.is_none() {
        return Err(HttpError::Internal { err: "failed to create embedding".to_owned() });
    }
    let embedding = query_emb.unwrap();
    let doc = &search.document.name;
    let columns = build_columns(&search.document.fields, doc, 2);
    let (conditions, bindings) = build_conditions_owned(search.query.constraints.as_ref());
    let mut values: Vec<SqlValue> = Vec::new();
    values.push(SqlValue::Blob(embedding));
    values.push(SqlValue::Unsigned(search.k_neighbors));
    values.push(SqlValue::Text(search.query.query.clone()));
    values.push(SqlValue::Integer(60));
    values.push(SqlValue::FtsWeight);
    values.push(SqlValue::SemanticWeight);
    let ghost head = values@;
    let mut tail = text_values(bindings);
    let ghost tail0 = tail@;
    values.append(&mut tail);
    assert(values@ =~= head + tail0);
    assert(sql_values(values@) =~= sql_values(head) + sql_values(tail0));
    let wc = build_where_clause(&conditions);
    let mut inner = String::new();
    append_str(&mut inner, "select \n                    ");
    append_str(&mut inner, columns.as_str());
    append_str(&mut inner, "\n                    ");
    append_str(&mut inner, doc.as_str());
    append_str(
        &mut inner,
        ".vec_input as input,\n                    vec_matches.rank_number as vec_rank,\n                    fts_matches.rank_number as fts_rank,\n                    (\n                        coalesce(1.0 / (:rrf_k + fts_matches.rank_number), 0.0) * :weight_fts +\n                        coalesce(1.0 / (:rrf_k + vec_matches.rank_number), 0.0) * :weight_vec\n                    ) as combined_rank,\n                    vec_matches.distance as vec_distance,\n                    fts_matches.score as fts_score\n                from fts_matches\n                full outer join vec_matches on vec_matches.row_id = fts_matches.row_id\n                join ",
    );
    append_str(&mut inner, doc.as_str());
    append_str(&mut inner, " on ");
    append_str(&mut inner, doc.as_str());
    append_str(&mut inner, ".id = coalesce(fts_matches.row_id, vec_matches.row_id)");
    let mut sql = String::new();
    append_str(
        &mut sql,
        "with vec_matches as (\n                    select\n                        row_id,\n                        row_number() over (order by distance) as rank_number,\n                        distance\n                    from vec_",
    );
    append_str(&mut sql, doc.as_str());
    append_str(
        &mut sql,
        "\n                    where\n                        vec_input_embedding match :embedding\n                        and k = :k\n                ),\n\n                fts_matches as (\n                    select\n                        rowid as row_id,\n                        row_number() over (order by rank) as rank_number,\n                        rank as score\n                    from fts_",
    );
    append_str(&mut sql, doc.as_str());
    append_str(
        &mut sql,
        "\n                    where vec_input match '\"' || :query || '\"'\n                    ),\n\n                final as ( ",
    );
    append_str(&mut sql, inner.as_str());
    append_str(&mut sql, " ");
    append_str(&mut sql, wc.as_str());
    append_str(&mut sql, " order by combined_rank desc) select * from final;");
    proof {
        let entries = search_entries(search.query);
        if search.query.constraints is None {
            assert(all_conditions(entries) =~= Seq::<Seq<char>>::empty());
            assert(all_bindings(entries) =~= Seq::<Seq<char>>::empty());
        }
        assert(sql_values(values@) =~= sql_values(head) + texts(all_bindings(entries)));
        assert(sql_values(head) =~= seq![
            SqlValueView::Blob(embedding@),
            SqlValueView::Unsigned(search.k_neighbors as nat),
            SqlValueView::Text(search.query.query@),
            SqlValueView::Integer(60),
            SqlValueView::FtsWeight,
            SqlValueView::SemanticWeight,
        ]);
        let doc_v = search.document.name@;
        assert(columns@ == concat_map(plain_field_names(search.document.fields@), rrf_column(doc_v)));
        assert(wc@ == where_clause(all_conditions(entries)));
        assert(inner@ =~= rrf_inner_sql(doc_v, columns@));
        assert(sql@ =~= rrf_sql(doc_v, columns@, wc@));
    }
    Ok((sql, values))
}

/// The SQL text and bound values of a search, by its strategy. The
/// embedding is needed by every strategy but full-text search.
pub fn build_query(search: &StreamSearch, query_emb: Option<Vec<u8>>) -> (r: Result<
    (String, Vec<SqlValue>),
    HttpError,
>)
    ensures
        match (search.strategy, query_emb) {
            (SearchStrategy::Fts, _) => r matches Ok(res) && is_fts_query(*search, res),
            (SearchStrategy::Semantic, Some(emb)) => r matches Ok(res) && is_semantic_query(
                *search,
                emb@,
                res,
            ),
            (SearchStrategy::ReciprocalRankFusion, Some(emb)) => r matches Ok(res) && is_rrf_query(
                *search,
                emb@,
                res,
            ),
            (_, None) => r matches Err(e) && missing_embedding_error(e),
        },
{
    match search.strategy {
        SearchStrategy::Fts => Ok(build_fts_query(search)),
        SearchStrategy::Semantic => build_semantic_query(search, query_emb),
        SearchStrategy::ReciprocalRankFusion => build_rrf_query(search, query_emb),
    }
}


// ---------------------------------------------------------------------
// Preparing a search
// ---------------------------------------------------------------------

/// Document `d` is the one named `name`, ignoring ASCII case.
pub open spec fn doc_matches(d: Document, name: Seq<char>) -> bool {
    eq_ignore_ascii_case(d.name@, name)
}

/// The position of the first document named `name`, if any.
pub open spec fn first_matching_document(docs: Seq<Document>, name: Seq<char>) -> Option<int> {
    if exists|i: int| 0 <= i < docs.len() && doc_matches(docs[i], name) {
        Some(
            choose|i: int|
                0 <= i < docs.len() && doc_matches(docs[i], name) && forall|j: int|
                    0 <= j < i ==> !doc_matches(docs[j], name),
        )
    } else {
        None
    }
}

/// The constrained fields of `q` that `doc` does not let a search
/// constrain, in order.
pub open spec fn invalid_fields_of(doc: Document, q: Query) -> Seq<Seq<char>> {
    match q.constraints {
        Some(m) => unknown_fields(m.keys_view(), plain_field_names(doc.fields@)),
        None => seq![],
    }
}

/// The position of the first document named `name`, ignoring ASCII case.
pub fn find_document(documents: &Vec<Document>, name: &str) -> (r: Option<usize>)
    ensures
        match r {
            Some(i) => i < documents@.len() && first_matching_document(documents@, name@) == Some(
                i as int,
            ),
            None => first_matching_document(documents@, name@) is None,
        },
{
    let mut i: usize = 0;
    while i < documents.len()
        invariant
            i <= documents@.len(),
            forall|j: int| 0 <= j < i ==> !doc_matches(#[trigger] documents@[j], name@),
        decreases documents@.len() - i,
    {
        if str_eq_ignore_ascii_case(documents[i].name.as_str(), name) {
            proof {
                let k = choose|k: int|
                    0 <= k < documents@.len() && doc_matches(documents@[k], name@) && forall|j: int|
                        0 <= j < k ==> !doc_matches(documents@[j], name@);
                assert(doc_matches(documents@[i as int], name@));
                if k < i {
                    assert(!doc_matches(documents@[k], name@));
                }
                if k > i {
                    assert(!doc_matches(documents@[i as int], name@));
                }
            }
            return Some(i);
        }
        i = i + 1;
    }
    None
}

/// The text `"query: "` + the search.
pub open spec fn prefixed_search(search_str: Seq<char>) -> Seq<char> {
    "query: "@ + search_str
}

/// Prepares a search of document `document` for `search_str`: finds the
/// document (ignoring ASCII case), reads `query: <search_str>`, and
/// checks that the search only constrains fields that may be constrained.
pub fn prepare_search(
    documents: &Vec<Document>,
    document: &str,
    search_str: &str,
    strategy: SearchStrategy,
    k_neighbors: u64,
) -> (r: Result<StreamSearch, HttpError>)
    ensures
        match first_matching_document(documents@, document@) {
            None => r matches Err(HttpError::MissingDocument { msg }) && msg@ == "Document "@
                + document@ + " not found"@,
            Some(i) => {
                let doc = documents@[i];
                match spec_parse(prefixed_search(search_str@)) {
                    Err(e) => r matches Err(HttpError::Parsing(pe)) && pe@ == e,
                    Ok(qv) => match r {
                        Ok(s) => {
                            &&& s.query@ == qv
                            &&& s.query.wf()
                            &&& invalid_fields_of(doc, s.query).len() == 0
                            &&& s.document.name == doc.name
                            &&& s.document.fields@ == doc.fields@
                            &&& s.strategy == strategy
                            &&& s.k_neighbors == k_neighbors
                        },
                        Err(HttpError::BadRequest { message, valid_fields, invalid_fields }) => {
                            exists|q: Query|
                                {
                                    &&& q@ == qv
                                    &&& q.wf()
                                    &&& invalid_fields_of(doc, q).len() > 0
                                    &&& views(invalid_fields@) == invalid_fields_of(doc, q)
                                    &&& views(valid_fields@) == plain_field_names(doc.fields@)
                                    &&& message@
                                        == "You are looking for fields that don't exist in the document."@
                                }
                        },
                        Err(_) => false,
                    },
                }
            },
        },
{
    let idx = match find_document(documents, document) {
        Some(i) => i,
        None => {
            let mut msg = String::new();
            append_str(&mut msg, "Document ");
            append_str(&mut msg, document);
            append_str(&mut msg, " not found");
            return Err(HttpError::missing_document(msg));
        },
    };
    let doc = &documents[idx];
    let mut text = String::new();
    append_str(&mut text, "query: ");
    append_str(&mut text, search_str);
    let query = match Query::parse(text.as_str()) {
        Ok(q) => q,
        Err(e) => {
            return Err(HttpError::Parsing(e));
        },
    };
    match validate_query_constraints(doc, &query) {
        Ok(()) => {},
        Err(e) => {
            return Err(e);
        },
    }
    Ok(StreamSearch { document: doc.duplicate(), query, strategy, k_neighbors })
}

} // verus!

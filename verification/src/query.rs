//! The search-query language.
//!
//! A search reads `query: <text>, <key>: <value>, <key> > <value>,
//! <key> < <value>, ...`. The text after `query:` is what is searched for;
//! every further comma-separated token constrains one field. Tokens that
//! are blank are skipped; the constraints of one field keep the order in
//! which they were written, and fields are kept in lexicographic order.

use vstd::prelude::*;
use crate::common::{clean_html, html_detected, spec_clean_html};
use crate::text::{
    chars_lt, chars_of, find_char, push_char, is_cc, is_control, lemma_lex_irreflexive, lemma_lex_total,
    lemma_lex_transitive, lemma_split_step, lemma_trim_contains, lemma_trim_trimmed, is_trimmed, lemma_trim_end, lemma_trim_end_concat, lex_lt, split_all, split_once, string_from_chars, string_from_range,
    is_ws, str_lt, trim, trim_end, trim_range, trim_start,
};

verus! {

// ---------------------------------------------------------------------
// Types
// ---------------------------------------------------------------------

/// One condition on a field.
#[derive(Clone, PartialEq, Debug)]
pub enum Constraint {
    Exact(String),
    GreaterThan(String),
    LesserThan(String),
}

/// The mathematical value of a [`Constraint`].
pub enum ConstraintView {
    Exact(Seq<char>),
    GreaterThan(Seq<char>),
    LesserThan(Seq<char>),
}

impl View for Constraint {
    type V = ConstraintView;

    open spec fn view(&self) -> ConstraintView {
        match self {
            Constraint::Exact(s) => ConstraintView::Exact(s@),
            Constraint::GreaterThan(s) => ConstraintView::GreaterThan(s@),
            Constraint::LesserThan(s) => ConstraintView::LesserThan(s@),
        }
    }
}

/// Why a search could not be read.
#[derive(Clone, PartialEq, Debug)]
pub enum ParsingError {
    MissingQuery,
    EmptyInput,
    MissingValue(char),
    MissingKey(char),
    InvalidToken(String),
}

/// The mathematical value of a [`ParsingError`].
pub enum ParsingErrorView {
    MissingQuery,
    EmptyInput,
    MissingValue(char),
    MissingKey(char),
    InvalidToken(Seq<char>),
}

impl View for ParsingError {
    type V = ParsingErrorView;

    open spec fn view(&self) -> ParsingErrorView {
        match self {
            ParsingError::MissingQuery => ParsingErrorView::MissingQuery,
            ParsingError::EmptyInput => ParsingErrorView::EmptyInput,
            ParsingError::MissingValue(c) => ParsingErrorView::MissingValue(*c),
            ParsingError::MissingKey(c) => ParsingErrorView::MissingKey(*c),
            ParsingError::InvalidToken(s) => ParsingErrorView::InvalidToken(s@),
        }
    }
}

/// The constraints of a search, by field. `entries` holds one pair per
/// field: the field's name and its constraints in the order they were
/// written. Fields are in strictly increasing lexicographic order.
#[derive(Clone, PartialEq, Debug)]
pub struct ConstraintMap {
    pub entries: Vec<(String, Vec<Constraint>)>,
}

/// The constraints of a field, as values.
pub open spec fn constraint_views(cs: Seq<Constraint>) -> Seq<ConstraintView> {
    cs.map_values(|c: Constraint| c@)
}

impl ConstraintMap {
    /// The name of the `i`-th field.
    pub open spec fn key_at(&self, i: int) -> Seq<char> {
        self.entries@[i].0@
    }

    /// The constraints of the `i`-th field.
    pub open spec fn values_at(&self, i: int) -> Seq<ConstraintView> {
        constraint_views(self.entries@[i].1@)
    }

    /// Whether some field is named `k`.
    pub open spec fn has_key(&self, k: Seq<char>) -> bool {
        exists|i: int| 0 <= i < self.entries@.len() && self.key_at(i) == k
    }

    /// The position of the field named `k`.
    pub open spec fn index_of_key(&self, k: Seq<char>) -> int {
        choose|i: int| 0 <= i < self.entries@.len() && self.key_at(i) == k
    }

    /// Fields are strictly ordered and none is without constraints.
    pub open spec fn wf(&self) -> bool {
        &&& forall|i: int, j: int|
            0 <= i < j < self.entries@.len() ==> lex_lt(
                #[trigger] self.key_at(i),
                #[trigger] self.key_at(j),
            )
        &&& forall|i: int| 0 <= i < self.entries@.len() ==> #[trigger] self.values_at(i).len() > 0
    }

    /// In a well-formed map, the field named by the `i`-th entry is found
    /// at position `i`.
    pub proof fn lemma_index_of_key(&self, i: int)
        requires
            self.wf(),
            0 <= i < self.entries@.len(),
        ensures
            self.has_key(self.key_at(i)),
            self.index_of_key(self.key_at(i)) == i,
    {
        let k = self.key_at(i);
        assert(self.has_key(k));
        let j = self.index_of_key(k);
        if j < i {
            assert(lex_lt(self.key_at(j), self.key_at(i)));
            lemma_lex_irreflexive(k);
        } else if j > i {
            assert(lex_lt(self.key_at(i), self.key_at(j)));
            lemma_lex_irreflexive(k);
        }
    }

    /// An empty map.
    pub fn new() -> (m: Self)
        ensures
            m.wf(),
            m.entries@.len() == 0,
            m@ == Map::<Seq<char>, Seq<ConstraintView>>::empty(),
    {
        let m = ConstraintMap { entries: Vec::new() };
        assert(m@ =~= Map::<Seq<char>, Seq<ConstraintView>>::empty());
        m
    }

    /// The number of fields.
    pub fn len(&self) -> (n: usize)
        ensures
            n == self.entries@.len(),
    {
        self.entries.len()
    }

    /// Whether no field is constrained.
    pub fn is_empty(&self) -> (b: bool)
        requires
            self.wf(),
        ensures
            b == (self.entries@.len() == 0),
            b == (self@ == Map::<Seq<char>, Seq<ConstraintView>>::empty()),
    {
        proof {
            self.lemma_empty();
        }
        self.entries.len() == 0
    }

    /// A well-formed map is empty exactly when it has no entries.
    pub proof fn lemma_empty(&self)
        requires
            self.wf(),
        ensures
            (self.entries@.len() == 0) == (self@ == Map::<
                Seq<char>,
                Seq<ConstraintView>,
            >::empty()),
    {
        if self.entries@.len() == 0 {
            assert(self@ =~= Map::<Seq<char>, Seq<ConstraintView>>::empty());
        } else {
            self.lemma_index_of_key(0);
            assert(self@.dom().contains(self.key_at(0)));
        }
    }

    /// The names of the constrained fields, in order.
    pub fn keys(&self) -> (ks: Vec<String>)
        ensures
            ks@.len() == self.entries@.len(),
            forall|i: int| 0 <= i < ks@.len() ==> #[trigger] ks@[i]@ == self.key_at(i),
    {
        let mut ks: Vec<String> = Vec::new();
        let mut i: usize = 0;
        while i < self.entries.len()
            invariant
                i <= self.entries@.len(),
                ks@.len() == i,
                forall|j: int| 0 <= j < i ==> #[trigger] ks@[j]@ == self.key_at(j),
            decreases self.entries@.len() - i,
        {
            ks.push(self.entries[i].0.clone());
            i = i + 1;
        }
        ks
    }

    /// The constraints of the field named `key`, if it is constrained.
    pub fn get(&self, key: &str) -> (r: Option<&Vec<Constraint>>)
        requires
            self.wf(),
        ensures
            match r {
                Some(cs) => self@.contains_key(key@) && constraint_views(cs@) == self@[key@],
                None => !self@.contains_key(key@),
            },
    {
        let key_owned = key.to_owned();
        let mut i: usize = 0;
        while i < self.entries.len()
            invariant
                self.wf(),
                key_owned@ == key@,
                i <= self.entries@.len(),
                forall|j: int| 0 <= j < i ==> self.key_at(j) != key@,
            decreases self.entries@.len() - i,
        {
            if self.entries[i].0 == key_owned {
                proof {
                    self.lemma_index_of_key(i as int);
                }
                return Some(&self.entries[i].1);
            }
            i = i + 1;
        }
        None
    }

    /// Adds `c` as the last constraint of the field named `key`.
    pub fn add(&mut self, key: String, c: Constraint)
        requires
            old(self).wf(),
        ensures
            final(self).wf(),
            final(self)@ == (if old(self)@.contains_key(key@) {
                old(self)@.insert(key@, old(self)@[key@].push(c@))
            } else {
                old(self)@.insert(key@, seq![c@])
            }),
    {
        let n = self.entries.len();
        let mut p: usize = 0;
        while p < n && str_lt(self.entries[p].0.as_str(), key.as_str())
            invariant
                p <= n == self.entries@.len(),
                self.entries@ == old(self).entries@,
                forall|i: int| 0 <= i < p ==> lex_lt(#[trigger] self.key_at(i), key@),
            decreases n - p,
        {
            p = p + 1;
        }
        let ghost old_map = *old(self);
        if p < n && self.entries[p].0 == key {
            let mut e = self.entries.remove(p);
            e.1.push(c);
            self.entries.insert(p, e);
            proof {
                assert forall|i: int| 0 <= i < n implies #[trigger] self.key_at(i)
                    == old_map.key_at(i) by {}
                assert(self.values_at(p as int) =~= old_map.values_at(p as int).push(c@));
                assert forall|i: int| 0 <= i < n && i != p implies #[trigger] self.values_at(i)
                    == old_map.values_at(i) by {}
                old_map.lemma_index_of_key(p as int);
                let target = old_map@.insert(key@, old_map@[key@].push(c@));
                assert forall|k: Seq<char>| #[trigger] self@.contains_key(k) == target.contains_key(
                    k,
                ) by {
                    if self.has_key(k) {
                        let i = self.index_of_key(k);
                        assert(old_map.key_at(i) == k);
                    }
                    if old_map.has_key(k) {
                        let i = old_map.index_of_key(k);
                        assert(self.key_at(i) == k);
                    }
                }
                assert forall|k: Seq<char>| #[trigger] self@.contains_key(k) implies self@[k]
                    == target[k] by {
                    let i = self.index_of_key(k);
                    self.lemma_index_of_key(i);
                    old_map.lemma_index_of_key(i);
                }
                assert(self@ =~= target);
            }
        } else {
            proof {
                if p < n {
                    lemma_lex_total(old_map.key_at(p as int), key@);
                }
            }
            let mut vals: Vec<Constraint> = Vec::new();
            vals.push(c);
            self.entries.insert(p, (key, vals));
            proof {
                // Every old key differs from the new one.
                assert forall|i: int| 0 <= i < n implies old_map.key_at(i) != key@ by {
                    if i < p {
                        lemma_lex_irreflexive(key@);
                    } else {
                        if i > p {
                            lemma_lex_transitive(key@, old_map.key_at(p as int), old_map.key_at(i));
                        }
                        lemma_lex_irreflexive(key@);
                    }
                }
                assert forall|i: int| 0 <= i < p implies #[trigger] self.key_at(i)
                    == old_map.key_at(i) && self.values_at(i) == old_map.values_at(i) by {}
                assert forall|i: int| p < i <= n implies #[trigger] self.key_at(i)
                    == old_map.key_at(i - 1) && self.values_at(i) == old_map.values_at(i - 1) by {}
                assert(self.key_at(p as int) == key@);
                assert(self.values_at(p as int) =~= seq![c@]);
                assert forall|i: int, j: int|
                    0 <= i < j < self.entries@.len() implies lex_lt(
                    #[trigger] self.key_at(i),
                    #[trigger] self.key_at(j),
                ) by {
                    if j < p {
                    } else if j == p {
                    } else if i < p {
                        if j - 1 > p {
                            lemma_lex_transitive(key@, old_map.key_at(p as int), old_map.key_at(j - 1));
                        }
                        lemma_lex_transitive(old_map.key_at(i), key@, old_map.key_at(j - 1));
                    } else if i == p {
                        if j - 1 > p {
                            lemma_lex_transitive(key@, old_map.key_at(p as int), old_map.key_at(j - 1));
                        }
                    } else {
                        assert(lex_lt(old_map.key_at(i - 1), old_map.key_at(j - 1)));
                    }
                }
                assert forall|i: int| 0 <= i < self.entries@.len() implies #[trigger] self.values_at(
                    i,
                ).len() > 0 by {
                    if i < p {
                        assert(old_map.values_at(i).len() > 0);
                    } else if i == p {
                    } else {
                        assert(old_map.values_at(i - 1).len() > 0);
                    }
                }
                assert(!old_map.has_key(key@));
                let target = old_map@.insert(key@, seq![c@]);
                assert forall|k: Seq<char>| #[trigger] self@.contains_key(k) == target.contains_key(
                    k,
                ) by {
                    if self.has_key(k) {
                        let i = self.index_of_key(k);
                        if i < p {
                            assert(old_map.key_at(i) == k);
                        } else if i > p {
                            assert(old_map.key_at(i - 1) == k);
                        }
                    }
                    if old_map.has_key(k) {
                        let i = old_map.index_of_key(k);
                        if i < p {
                            assert(self.key_at(i) == k);
                        } else {
                            assert(self.key_at(i + 1) == k);
                        }
                    }
                }
                assert forall|k: Seq<char>| #[trigger] self@.contains_key(k) implies self@[k]
                    == target[k] by {
                    let i = self.index_of_key(k);
                    self.lemma_index_of_key(i);
                    if i < p {
                        old_map.lemma_index_of_key(i);
                    } else if i > p {
                        old_map.lemma_index_of_key(i - 1);
                    }
                }
                assert(self@ =~= target);
            }
        }
    }
}

impl View for ConstraintMap {
    type V = Map<Seq<char>, Seq<ConstraintView>>;

    /// Each constrained field's name, mapped to its constraints.
    open spec fn view(&self) -> Map<Seq<char>, Seq<ConstraintView>> {
        Map::new(|k: Seq<char>| self.has_key(k), |k: Seq<char>| self.values_at(self.index_of_key(k)))
    }
}

/// A search: the text to look for and, if any field is constrained, the
/// constraints.
#[derive(Clone, PartialEq, Debug)]
pub struct Query {
    pub query: String,
    pub constraints: Option<ConstraintMap>,
}

/// The mathematical value of a [`Query`].
pub struct QueryView {
    pub query: Seq<char>,
    pub constraints: Option<Map<Seq<char>, Seq<ConstraintView>>>,
}

impl View for Query {
    type V = QueryView;

    open spec fn view(&self) -> QueryView {
        QueryView {
            query: self.query@,
            constraints: match self.constraints {
                Some(m) => Some(m@),
                None => None,
            },
        }
    }
}

// ---------------------------------------------------------------------
// The language, as functions on character sequences
// ---------------------------------------------------------------------

/// The word that introduces the searched text.
pub open spec fn query_key() -> Seq<char> {
    seq!['q', 'u', 'e', 'r', 'y']
}

/// `query: <text>` with the text trimmed and non-empty; anything else is
/// `MissingQuery`.
pub open spec fn spec_extract_query_value(s: Seq<char>) -> Result<Seq<char>, ParsingErrorView> {
    match split_once(trim(s), ':') {
        Some(parts) => {
            if parts.0 == query_key() && trim(parts.1).len() > 0 {
                Ok(trim(parts.1))
            } else {
                Err(ParsingErrorView::MissingQuery)
            }
        },
        None => Err(ParsingErrorView::MissingQuery),
    }
}

/// The searched text and what follows the first comma. Without a comma,
/// the whole input is the searched text when it is not of the form
/// `query: <text>`.
pub open spec fn spec_split_query_and_constraints(s: Seq<char>) -> Result<
    (Seq<char>, Option<Seq<char>>),
    ParsingErrorView,
> {
    match split_once(s, ',') {
        Some(parts) => match spec_extract_query_value(parts.0) {
            Ok(q) => Ok((q, Some(parts.1))),
            Err(e) => Err(e),
        },
        None => match spec_extract_query_value(s) {
            Ok(q) => Ok((q, None)),
            Err(_) => Ok((s, None)),
        },
    }
}

/// The constraint that operator `op` makes of value `v`.
pub open spec fn make_constraint(op: char, v: Seq<char>) -> ConstraintView {
    if op == ':' {
        ConstraintView::Exact(v)
    } else if op == '<' {
        ConstraintView::LesserThan(v)
    } else {
        ConstraintView::GreaterThan(v)
    }
}

/// A token split at operator `op` into key and value, both trimmed and
/// required to be non-empty.
pub open spec fn spec_split_constraint(parts: (Seq<char>, Seq<char>), op: char) -> Result<
    (Seq<char>, ConstraintView),
    ParsingErrorView,
> {
    if trim(parts.0).len() == 0 {
        Err(ParsingErrorView::MissingKey(op))
    } else if trim(parts.1).len() == 0 {
        Err(ParsingErrorView::MissingValue(op))
    } else {
        Ok((trim(parts.0), make_constraint(op, trim(parts.1))))
    }
}

/// One constraint token. Operators are tried in the order `:`, `<`, `>`,
/// each at its first occurrence.
pub open spec fn spec_parse_single_constraint(token: Seq<char>) -> Result<
    (Seq<char>, ConstraintView),
    ParsingErrorView,
> {
    match split_once(token, ':') {
        Some(p) => spec_split_constraint(p, ':'),
        None => match split_once(token, '<') {
            Some(p) => spec_split_constraint(p, '<'),
            None => match split_once(token, '>') {
                Some(p) => spec_split_constraint(p, '>'),
                None => Err(ParsingErrorView::InvalidToken(token)),
            },
        },
    }
}

/// The constraints of comma-separated pieces, in order: blank pieces are
/// skipped and the first piece that is not a constraint is the error.
pub open spec fn spec_parse_pieces(pieces: Seq<Seq<char>>) -> Result<
    Seq<(Seq<char>, ConstraintView)>,
    ParsingErrorView,
>
    decreases pieces.len(),
{
    if pieces.len() == 0 {
        Ok(seq![])
    } else if trim(pieces[0]).len() == 0 {
        spec_parse_pieces(pieces.drop_first())
    } else {
        match spec_parse_single_constraint(trim(pieces[0])) {
            Err(e) => Err(e),
            Ok(p) => match spec_parse_pieces(pieces.drop_first()) {
                Err(e) => Err(e),
                Ok(rest) => Ok(seq![p] + rest),
            },
        }
    }
}

/// Pairs grouped by key; each key maps to its constraints in order.
pub open spec fn group_by_key(pairs: Seq<(Seq<char>, ConstraintView)>) -> Map<
    Seq<char>,
    Seq<ConstraintView>,
>
    decreases pairs.len(),
{
    if pairs.len() == 0 {
        Map::empty()
    } else {
        let g = group_by_key(pairs.drop_last());
        let p = pairs.last();
        if g.contains_key(p.0) {
            g.insert(p.0, g[p.0].push(p.1))
        } else {
            g.insert(p.0, seq![p.1])
        }
    }
}

/// The constraints written in `s`, grouped by field.
pub open spec fn spec_parse_constraints(s: Seq<char>) -> Result<
    Map<Seq<char>, Seq<ConstraintView>>,
    ParsingErrorView,
> {
    match spec_parse_pieces(split_all(s, ',')) {
        Ok(pairs) => Ok(group_by_key(pairs)),
        Err(e) => Err(e),
    }
}

/// Some character of `s` is a control character.
pub open spec fn has_control(s: Seq<char>) -> bool {
    exists|i: int| 0 <= i < s.len() && is_cc(s[i])
}

/// What reading the search `input` gives: its text once sanitised of
/// HTML, read as `spec_parse_clean` says.
pub open spec fn spec_parse(input: Seq<char>) -> Result<QueryView, ParsingErrorView> {
    spec_parse_clean(spec_clean_html(input))
}

/// What reading an already sanitised search `c` gives.
pub open spec fn spec_parse_clean(c: Seq<char>) -> Result<QueryView, ParsingErrorView> {
    if trim(c).len() == 0 {
        Err(ParsingErrorView::EmptyInput)
    } else if has_control(c) {
        Err(ParsingErrorView::InvalidToken(c))
    } else {
        match spec_split_query_and_constraints(trim(c)) {
            Err(e) => Err(e),
            Ok(qc) => match qc.1 {
                None => Ok(QueryView { query: qc.0, constraints: None }),
                Some(r) => match spec_parse_constraints(r) {
                    Err(e) => Err(e),
                    Ok(m) => Ok(
                        QueryView {
                            query: qc.0,
                            constraints: if m == Map::<Seq<char>, Seq<ConstraintView>>::empty() {
                                None
                            } else {
                                Some(m)
                            },
                        },
                    ),
                },
            },
        }
    }
}

/// Prepends `done` to a successful result.
pub open spec fn prepend_ok(
    done: Seq<(Seq<char>, ConstraintView)>,
    r: Result<Seq<(Seq<char>, ConstraintView)>, ParsingErrorView>,
) -> Result<Seq<(Seq<char>, ConstraintView)>, ParsingErrorView> {
    match r {
        Ok(rest) => Ok(done + rest),
        Err(e) => Err(e),
    }
}

// ---------------------------------------------------------------------
// Reading a search
// ---------------------------------------------------------------------

impl Query {
    /// The query is well formed: a constrained query has at least one
    /// field, and its fields are ordered.
    pub open spec fn wf(&self) -> bool {
        match self.constraints {
            Some(m) => m.wf() && m.entries@.len() > 0,
            None => true,
        }
    }

    /// Reads a search. The input is first sanitised of HTML; a blank input
    /// is `EmptyInput`, an input holding a control character is
    /// `InvalidToken` with the whole input, and otherwise the trimmed input
    /// is read as the language describes.
    pub fn parse(input: &str) -> (r: Result<Self, ParsingError>)
        ensures
            match r {
                Ok(q) => spec_parse(input@) == Ok::<QueryView, ParsingErrorView>(q@) && q.wf(),
                Err(e) => spec_parse(input@) == Err::<QueryView, ParsingErrorView>(e@),
            },
    {
        Self::parse_clean(clean_html(input.to_owned()))
    }

    /// Reads a search already sanitised of HTML: a blank text is
    /// `EmptyInput`, a text holding a control character is `InvalidToken`
    /// with the whole text, and otherwise the trimmed text is read as the
    /// language describes.
    pub fn parse_clean(input_clean: String) -> (r: Result<Self, ParsingError>)
        ensures
            match r {
                Ok(q) => spec_parse_clean(input_clean@) == Ok::<QueryView, ParsingErrorView>(q@)
                    && q.wf(),
                Err(e) => spec_parse_clean(input_clean@) == Err::<QueryView, ParsingErrorView>(e@),
            },
    {
        let v = chars_of(input_clean.as_str());
        let n = v.len();
        let (a, b) = trim_range(&v, 0, n);
        assert(v@.subrange(0, n as int) =~= v@);
        if a == b {
            return Err(ParsingError::EmptyInput);
        }
        let mut i: usize = 0;
        while i < n
            invariant
                i <= n == v@.len(),
                v@ == input_clean@,
                a < b <= n,
                v@.subrange(a as int, b as int) == trim(v@),
                forall|j: int| 0 <= j < i ==> !is_cc(v@[j]),
            decreases n - i,
        {
            if is_control(v[i]) {
                assert(is_cc(v@[i as int]));
                assert(is_cc(input_clean@[i as int]));
                assert(has_control(input_clean@));
                return Err(ParsingError::InvalidToken(input_clean));
            }
            i = i + 1;
        }
        let trimmed = string_from_range(&v, a, b);
        match Self::split_query_and_constraints(trimmed.as_str()) {
            Err(e) => Err(e),
            Ok((q, None)) => Ok(Query { query: q, constraints: None }),
            Ok((q, Some(rest))) => match Self::parse_constraints(rest.as_str()) {
                Err(e) => Err(e),
                Ok(m) => {
                    proof {
                        m.lemma_empty();
                    }
                    if m.entries.len() == 0 {
                        Ok(Query { query: q, constraints: None })
                    } else {
                        Ok(Query { query: q, constraints: Some(m) })
                    }
                },
            },
        }
    }

    /// The searched text, and what follows the first comma if there is one.
    pub fn split_query_and_constraints(input: &str) -> (r: Result<
        (String, Option<String>),
        ParsingError,
    >)
        ensures
            match r {
                Ok(p) => spec_split_query_and_constraints(input@) == Ok::<
                    (Seq<char>, Option<Seq<char>>),
                    ParsingErrorView,
                >(
                    (
                        p.0@,
                        match p.1 {
                            Some(s) => Some(s@),
                            None => None,
                        },
                    ),
                ),
                Err(e) => spec_split_query_and_constraints(input@) == Err::<
                    (Seq<char>, Option<Seq<char>>),
                    ParsingErrorView,
                >(e@),
            },
    {
        let v = chars_of(input);
        let n = v.len();
        assert(v@.subrange(0, n as int) =~= v@);
        match find_char(&v, 0, n, ',') {
            Some(i) => {
                let left = string_from_range(&v, 0, i);
                let right = string_from_range(&v, i + 1, n);
                match Self::extract_query_value(left.as_str()) {
                    Ok(q) => Ok((q, Some(right))),
                    Err(e) => Err(e),
                }
            },
            None => match Self::extract_query_value(input) {
                Ok(q) => Ok((q, None)),
                Err(_) => Ok((string_from_chars(&v), None)),
            },
        }
    }

    /// The text after `query:`, trimmed.
    pub fn extract_query_value(input: &str) -> (r: Result<String, ParsingError>)
        ensures
            match r {
                Ok(q) => spec_extract_query_value(input@) == Ok::<Seq<char>, ParsingErrorView>(q@),
                Err(e) => spec_extract_query_value(input@) == Err::<Seq<char>, ParsingErrorView>(
                    e@,
                ),
            },
    {
        let v = chars_of(input);
        let n = v.len();
        assert(v@.subrange(0, n as int) =~= v@);
        let (a, b) = trim_range(&v, 0, n);
        let ghost t = v@.subrange(a as int, b as int);
        match find_char(&v, a, b, ':') {
            Some(i) => {
                assert(t.subrange(0, i - a) =~= v@.subrange(a as int, i as int));
                assert(t.subrange(i - a + 1, t.len() as int) =~= v@.subrange(i + 1, b as int));
                let is_key = Self::is_query_key(&v, a, i);
                if is_key {
                    let (va, vb) = trim_range(&v, i + 1, b);
                    if va < vb {
                        Ok(string_from_range(&v, va, vb))
                    } else {
                        Err(ParsingError::MissingQuery)
                    }
                } else {
                    Err(ParsingError::MissingQuery)
                }
            },
            None => Err(ParsingError::MissingQuery),
        }
    }

    /// Whether the characters `a..i` of `v` spell the word `query`.
    fn is_query_key(v: &Vec<char>, a: usize, i: usize) -> (b: bool)
        requires
            a <= i <= v@.len(),
        ensures
            b == (v@.subrange(a as int, i as int) == query_key()),
    {
        let b = i - a == 5 && v[a] == 'q' && v[a + 1] == 'u' && v[a + 2] == 'e' && v[a + 3] == 'r'
            && v[a + 4] == 'y';
        proof {
            let w = v@.subrange(a as int, i as int);
            assert(query_key().len() == 5);
            if b {
                assert(w =~= query_key());
            } else if w == query_key() {
                assert(w.len() == 5);
                assert(w[0] == v@[a as int] && w[1] == v@[a + 1] && w[2] == v@[a + 2] && w[3]
                    == v@[a + 3] && w[4] == v@[a + 4]);
                assert(w[0] == 'q' && w[1] == 'u' && w[2] == 'e' && w[3] == 'r' && w[4] == 'y');
            }
        }
        b
    }

    /// The constraints written in `constraints_str`, grouped by field.
    pub fn parse_constraints(constraints_str: &str) -> (r: Result<ConstraintMap, ParsingError>)
        ensures
            match r {
                Ok(m) => spec_parse_constraints(constraints_str@) == Ok::<
                    Map<Seq<char>, Seq<ConstraintView>>,
                    ParsingErrorView,
                >(m@) && m.wf(),
                Err(e) => spec_parse_constraints(constraints_str@) == Err::<
                    Map<Seq<char>, Seq<ConstraintView>>,
                    ParsingErrorView,
                >(e@),
            },
    {
        let v = chars_of(constraints_str);
        let n = v.len();
        let mut map = ConstraintMap::new();
        let mut lo: usize = 0;
        let ghost mut done: Seq<(Seq<char>, ConstraintView)> = seq![];
        assert(v@.subrange(0, n as int) =~= v@);
        loop
            invariant
                lo <= n == v@.len(),
                v@ == constraints_str@,
                map.wf(),
                map@ == group_by_key(done),
                spec_parse_pieces(split_all(v@, ',')) == prepend_ok(
                    done,
                    spec_parse_pieces(split_all(v@.subrange(lo as int, n as int), ',')),
                ),
            decreases n - lo,
        {
            let found = find_char(&v, lo, n, ',');
            let end = match found {
                Some(i) => i,
                None => n,
            };
            let ghost pieces = split_all(v@.subrange(lo as int, n as int), ',');
            let ghost rest: Seq<Seq<char>> = match found {
                Some(i) => split_all(v@.subrange(i + 1, n as int), ','),
                None => seq![],
            };
            proof {
                lemma_split_step(
                    v@,
                    lo as int,
                    n as int,
                    ',',
                    match found {
                        Some(i) => Some(i as int),
                        None => None,
                    },
                );
                assert(pieces == seq![v@.subrange(lo as int, end as int)] + rest);
                assert(pieces[0] == v@.subrange(lo as int, end as int));
                assert(pieces.drop_first() =~= rest);
            }
            let (a, b) = trim_range(&v, lo, end);
            if a < b {
                let token = string_from_range(&v, a, b);
                match Self::parse_single_constraint(token.as_str()) {
                    Err(e) => {
                        return Err(e);
                    },
                    Ok(pair) => {
                        let ghost pv = (pair.0@, pair.1@);
                        proof {
                            assert(done + (seq![pv] + spec_parse_pieces(rest)->Ok_0) =~= done.push(
                                pv,
                            ) + spec_parse_pieces(rest)->Ok_0);
                            assert(done.push(pv).drop_last() =~= done);
                        }
                        Self::add_constraint(&mut map, pair);
                        proof {
                            done = done.push(pv);
                        }
                    },
                }
            }
            match found {
                Some(i) => {
                    lo = i + 1;
                },
                None => {
                    proof {
                        assert(done + seq![] =~= done);
                    }
                    return Ok(map);
                },
            }
        }
    }

    /// Splits a token at operator `op`, at index `i`.
    fn split_constraint(v: &Vec<char>, i: usize, op: char) -> (r: Result<
        (String, Constraint),
        ParsingError,
    >)
        requires
            i < v@.len(),
        ensures
            match r {
                Ok(p) => spec_split_constraint(
                    (v@.subrange(0, i as int), v@.subrange(i + 1, v@.len() as int)),
                    op,
                ) == Ok::<(Seq<char>, ConstraintView), ParsingErrorView>((p.0@, p.1@)),
                Err(e) => spec_split_constraint(
                    (v@.subrange(0, i as int), v@.subrange(i + 1, v@.len() as int)),
                    op,
                ) == Err::<(Seq<char>, ConstraintView), ParsingErrorView>(e@),
            },
    {
        let n = v.len();
        let (ka, kb) = trim_range(v, 0, i);
        if ka == kb {
            return Err(ParsingError::MissingKey(op));
        }
        let (va, vb) = trim_range(v, i + 1, n);
        if va == vb {
            return Err(ParsingError::MissingValue(op));
        }
        let key = string_from_range(v, ka, kb);
        let value = string_from_range(v, va, vb);
        let c = if op == ':' {
            Constraint::Exact(value)
        } else if op == '<' {
            Constraint::LesserThan(value)
        } else {
            Constraint::GreaterThan(value)
        };
        Ok((key, c))
    }

    /// One constraint token: `key: value`, `key < value` or `key > value`.
    pub fn parse_single_constraint(token: &str) -> (r: Result<(String, Constraint), ParsingError>)
        ensures
            match r {
                Ok(p) => spec_parse_single_constraint(token@) == Ok::<
                    (Seq<char>, ConstraintView),
                    ParsingErrorView,
                >((p.0@, p.1@)),
                Err(e) => spec_parse_single_constraint(token@) == Err::<
                    (Seq<char>, ConstraintView),
                    ParsingErrorView,
                >(e@),
            },
    {
        let v = chars_of(token);
        let n = v.len();
        assert(v@.subrange(0, n as int) =~= v@);
        if let Some(i) = find_char(&v, 0, n, ':') {
            return Self::split_constraint(&v, i, ':');
        }
        if let Some(i) = find_char(&v, 0, n, '<') {
            return Self::split_constraint(&v, i, '<');
        }
        if let Some(i) = find_char(&v, 0, n, '>') {
            return Self::split_constraint(&v, i, '>');
        }
        Err(ParsingError::InvalidToken(string_from_chars(&v)))
    }

    /// Adds one constraint to its field.
    pub fn add_constraint(constraints: &mut ConstraintMap, pair: (String, Constraint))
        requires
            old(constraints).wf(),
        ensures
            final(constraints).wf(),
            final(constraints)@ == (if old(constraints)@.contains_key(pair.0@) {
                old(constraints)@.insert(pair.0@, old(constraints)@[pair.0@].push(pair.1@))
            } else {
                old(constraints)@.insert(pair.0@, seq![pair.1@])
            }),
    {
        let (key, constraint) = pair;
        constraints.add(key, constraint);
    }
}

// ---------------------------------------------------------------------
// Tokens without an operator
// ---------------------------------------------------------------------

/// `query: Test, `, the start of the searches of the property that tokens
/// without an operator are refused.
pub open spec fn test_search_prefix() -> Seq<char> {
    seq!['q', 'u', 'e', 'r', 'y', ':', ' ', 'T', 'e', 's', 't', ',', ' ']
}

/// A token holding a `;` and none of `,`, `:`, `<` and `>`.
pub open spec fn is_bad_token(t: Seq<char>) -> bool {
    t.contains(';') && !t.contains(',') && !t.contains(':') && !t.contains('<') && !t.contains('>')
}

/// `split_once` at a character that `s` does not hold finds nothing.
proof fn lemma_split_once_absent(s: Seq<char>, c: char)
    requires
        !s.contains(c),
    ensures
        split_once(s, c) is None,
{
    s.index_of_first_ensures(c);
}

/// A search made of `query: Test, ` and a token holding a `;` but no
/// operator nor comma is refused with `InvalidToken`, unless sanitising
/// would change it.
pub proof fn lemma_bad_token_is_invalid(t: Seq<char>)
    requires
        is_bad_token(t),
        !html_detected(test_search_prefix() + t),
    ensures
        spec_parse(test_search_prefix() + t) matches Err(ParsingErrorView::InvalidToken(_)),
{
    let p = test_search_prefix();
    let x = p + t;
    assert(spec_clean_html(x) == x);
    assert(x[0] == 'q');
    assert(x.contains('q'));
    lemma_trim_contains(x, 'q');
    assert(trim(x).len() > 0);
    if has_control(x) {
        return;
    }
    // The whole search, trimmed.
    let j = choose|i: int| 0 <= i < t.len() && t[i] == ';';
    assert(!is_ws(t[j]));
    lemma_trim_end_concat(p, t);
    assert(x[0] == 'q');
    assert(trim_start(x) == x);
    let te = trim_end(t);
    assert(trim(x) == p + te);
    lemma_trim_end(t);
    let k = choose|k: int|
        #![trigger t.subrange(0, k)]
        0 <= k <= t.len() && trim_end(t) == t.subrange(0, k) && (forall|i: int|
            k <= i < t.len() ==> is_ws(t[i]));
    assert(j < k);
    assert(te[j] == ';');
    assert(!te.contains(',')) by {
        if te.contains(',') {
            let i = choose|i: int| 0 <= i < te.len() && te[i] == ',';
            assert(t[i] == ',');
        }
    }
    assert(!te.contains(':')) by {
        if te.contains(':') {
            let i = choose|i: int| 0 <= i < te.len() && te[i] == ':';
            assert(t[i] == ':');
        }
    }
    assert(!te.contains('<')) by {
        if te.contains('<') {
            let i = choose|i: int| 0 <= i < te.len() && te[i] == '<';
            assert(t[i] == '<');
        }
    }
    assert(!te.contains('>')) by {
        if te.contains('>') {
            let i = choose|i: int| 0 <= i < te.len() && te[i] == '>';
            assert(t[i] == '>');
        }
    }
    let c = p + te;
    assert(trim(c).len() > 0) by {
        lemma_trim_contains(c, 'q');
        assert(c[0] == 'q');
    }
    assert(trim(x).len() > 0);
    // Splitting at the first comma.
    c.index_of_first_ensures(',');
    assert(c[11] == ',');
    let i1 = c.index_of_first(',').unwrap();
    assert(i1 == 11) by {
        if i1 < 11 {
            assert(c[i1] == p[i1]);
        }
    }
    let q = c.subrange(0, 11);
    let rest = c.subrange(12, c.len() as int);
    assert(rest =~= seq![' '] + te);
    assert(q =~= seq!['q', 'u', 'e', 'r', 'y', ':', ' ', 'T', 'e', 's', 't']);
    // The searched text.
    assert(trim_start(q) == q);
    assert(trim_end(q) == q);
    q.index_of_first_ensures(':');
    let i2 = q.index_of_first(':').unwrap();
    assert(i2 == 5) by {
        assert(q[5] == ':');
        if i2 < 5 {
            assert(q[i2] != ':');
        }
    }
    assert(q.subrange(0, 5) =~= query_key());
    let after = q.subrange(6, 11);
    assert(after =~= seq![' ', 'T', 'e', 's', 't']);
    assert(trim_start(after) =~= seq!['T', 'e', 's', 't']) by {
        let u = seq!['T', 'e', 's', 't'];
        assert(after.drop_first() =~= u);
        assert(trim_start(u) == u);
        assert(is_ws(after[0]));
    }
    assert(trim(after) =~= seq!['T', 'e', 's', 't']) by {
        let u = seq!['T', 'e', 's', 't'];
        assert(trim_end(u) == u);
    }
    assert(spec_extract_query_value(q) == Ok::<_, ParsingErrorView>(seq!['T', 'e', 's', 't']));
    assert(spec_split_query_and_constraints(c) == Ok::<_, ParsingErrorView>(
        (seq!['T', 'e', 's', 't'], Some(rest)),
    ));
    // The constraints: one token without operator.
    assert(!rest.contains(',')) by {
        if rest.contains(',') {
            let i = choose|i: int| 0 <= i < rest.len() && rest[i] == ',';
            assert(i > 0);
            assert(te[i - 1] == ',');
        }
    }
    rest.index_of_first_ensures(',');
    assert(split_all(rest, ',') == seq![rest]);
    let tok = trim(rest);
    assert(rest[j + 1] == ';');
    lemma_trim_contains(rest, ';');
    assert(tok.len() > 0);
    assert forall|ch: char| ch == ':' || ch == '<' || ch == '>' implies !tok.contains(ch) by {
        assert(!rest.contains(ch)) by {
            if rest.contains(ch) {
                let i = choose|i: int| 0 <= i < rest.len() && rest[i] == ch;
                assert(i > 0);
                assert(te[i - 1] == ch);
            }
        }
        lemma_trim_contains(rest, ch);
    }
    lemma_split_once_absent(tok, ':');
    lemma_split_once_absent(tok, '<');
    lemma_split_once_absent(tok, '>');
    assert(spec_parse_single_constraint(tok) == Err::<(Seq<char>, ConstraintView), _>(
        ParsingErrorView::InvalidToken(tok),
    ));
    assert(seq![rest][0] == rest);
    assert(spec_parse_pieces(seq![rest]) == Err::<Seq<(Seq<char>, ConstraintView)>, _>(
        ParsingErrorView::InvalidToken(tok),
    ));
}

/// `query: `, the start of a search with a searched text.
pub open spec fn query_prefix() -> Seq<char> {
    seq!['q', 'u', 'e', 'r', 'y', ':', ' ']
}

/// A trimmed, non-empty text is what trimming a space and it gives.
proof fn lemma_trim_after_space(q: Seq<char>)
    requires
        q.len() > 0,
        is_trimmed(q),
    ensures
        trim(seq![' '] + q) == q,
{
    let x = seq![' '] + q;
    assert(x.drop_first() =~= q);
    assert(is_ws(x[0]));
    assert(trim_start(q) == q);
    assert(trim_start(x) == q);
    assert(trim_end(q) == q);
}

/// The first occurrence of `c` in `a + seq![c] + b` when `a` lacks it.
proof fn lemma_first_at(a: Seq<char>, c: char, b: Seq<char>)
    requires
        !a.contains(c),
    ensures
        (a + seq![c] + b).index_of_first(c) == Some(a.len() as int),
{
    let x = a + seq![c] + b;
    x.index_of_first_ensures(c);
    assert(x[a.len() as int] == c);
    assert(x.contains(c));
    match x.index_of_first(c) {
        Some(i) => {
            if i < a.len() {
                assert(x[i] == a[i]);
            }
        },
        None => {},
    }
}

/// A search `query: <q>, <t>` whose constraint token `t` (trimmed, not
/// empty) holds none of the operators `:`, `<`, `>` is refused with
/// `InvalidToken(t)`, whatever the searched text `q` (trimmed, not empty)
/// is, when neither holds a comma or a control character and sanitising
/// leaves the search as it is.
pub proof fn lemma_operatorless_token_is_invalid(q: Seq<char>, t: Seq<char>)
    requires
        good_text(q),
        good_text(t),
        !q.contains(','),
        !t.contains(','),
        !t.contains(':'),
        !t.contains('<'),
        !t.contains('>'),
        !has_control(q),
        !has_control(t),
        !html_detected(query_prefix() + q + seq![',', ' '] + t),
    ensures
        spec_parse(query_prefix() + q + seq![',', ' '] + t) == Err::<QueryView, _>(
            ParsingErrorView::InvalidToken(t),
        ),
{
    let p = query_prefix();
    let head = p + q;
    let rest = seq![' '] + t;
    let x = p + q + seq![',', ' '] + t;
    assert(x =~= head + seq![','] + rest);
    assert(spec_clean_html(x) == x);
    // The search is trimmed and holds no control character.
    assert(x[0] == 'q');
    assert(x.last() == t.last());
    assert(is_trimmed(x));
    lemma_trim_trimmed(x);
    assert(trim(x).len() > 0);
    assert(!has_control(x)) by {
        assert forall|i: int| 0 <= i < x.len() implies !is_cc(x[i]) by {
            if i < 7 {
            } else if i < 7 + q.len() {
                assert(x[i] == q[i - 7]);
            } else if i < 9 + q.len() {
            } else {
                assert(x[i] == t[i - 9 - q.len()]);
            }
        }
    }
    // The searched text, before the first comma.
    assert(!head.contains(',')) by {
        if head.contains(',') {
            let i = choose|i: int| 0 <= i < head.len() && head[i] == ',';
            assert(i >= 7);
            assert(q[i - 7] == ',');
        }
    }
    lemma_first_at(head, ',', rest);
    assert((head + seq![','] + rest).subrange(0, head.len() as int) =~= head);
    assert((head + seq![','] + rest).subrange(head.len() as int + 1, x.len() as int) =~= rest);
    assert(split_once(x, ',') == Some((head, rest)));
    assert(head[0] == 'q');
    assert(head.last() == q.last());
    lemma_trim_trimmed(head);
    assert(trim(head) == head);
    assert(head =~= seq!['q', 'u', 'e', 'r', 'y'] + seq![':'] + (seq![' '] + q));
    lemma_first_at(seq!['q', 'u', 'e', 'r', 'y'], ':', seq![' '] + q);
    assert(head.subrange(0, 5) =~= query_key());
    assert(head.subrange(6, head.len() as int) =~= seq![' '] + q);
    lemma_trim_after_space(q);
    assert(spec_extract_query_value(head) == Ok::<_, ParsingErrorView>(q));
    assert(spec_split_query_and_constraints(x) == Ok::<_, ParsingErrorView>((q, Some(rest))));
    // The one constraint token, without operator.
    assert(!rest.contains(',')) by {
        if rest.contains(',') {
            let i = choose|i: int| 0 <= i < rest.len() && rest[i] == ',';
            assert(t[i - 1] == ',');
        }
    }
    rest.index_of_first_ensures(',');
    assert(split_all(rest, ',') == seq![rest]);
    lemma_trim_after_space(t);
    lemma_split_once_absent(t, ':');
    lemma_split_once_absent(t, '<');
    lemma_split_once_absent(t, '>');
    assert(spec_parse_single_constraint(t) == Err::<(Seq<char>, ConstraintView), _>(
        ParsingErrorView::InvalidToken(t),
    ));
    assert(seq![rest][0] == rest);
    assert(spec_parse_pieces(seq![rest]) == Err::<Seq<(Seq<char>, ConstraintView)>, _>(
        ParsingErrorView::InvalidToken(t),
    ));
}

// ---------------------------------------------------------------------
// The shape of what is read
// ---------------------------------------------------------------------

/// A non-empty text without whitespace at either end.
pub open spec fn good_text(s: Seq<char>) -> bool {
    s.len() > 0 && is_trimmed(s)
}

/// The value a constraint compares with.
pub open spec fn constraint_value(c: ConstraintView) -> Seq<char> {
    match c {
        ConstraintView::Exact(v) => v,
        ConstraintView::GreaterThan(v) => v,
        ConstraintView::LesserThan(v) => v,
    }
}

/// A trimmed non-empty text is a good text.
proof fn lemma_trim_good(s: Seq<char>)
    requires
        trim(s).len() > 0,
    ensures
        good_text(trim(s)),
{
    lemma_trim_trimmed(s);
}

/// A constraint read from a token has a good key and a good value.
proof fn lemma_single_good(token: Seq<char>)
    requires
        spec_parse_single_constraint(token) is Ok,
    ensures
        good_text(spec_parse_single_constraint(token)->Ok_0.0),
        good_text(constraint_value(spec_parse_single_constraint(token)->Ok_0.1)),
{
    match split_once(token, ':') {
        Some(p) => {
            lemma_trim_good(p.0);
            lemma_trim_good(p.1);
        },
        None => match split_once(token, '<') {
            Some(p) => {
                lemma_trim_good(p.0);
                lemma_trim_good(p.1);
            },
            None => match split_once(token, '>') {
                Some(p) => {
                    lemma_trim_good(p.0);
                    lemma_trim_good(p.1);
                },
                None => {},
            },
        },
    }
}

/// Every pair read from comma-separated pieces has a good key and a good
/// value.
proof fn lemma_pieces_good(pieces: Seq<Seq<char>>)
    requires
        spec_parse_pieces(pieces) is Ok,
    ensures
        forall|i: int|
            0 <= i < spec_parse_pieces(pieces)->Ok_0.len() ==> good_text(
                (#[trigger] spec_parse_pieces(pieces)->Ok_0[i]).0,
            ) && good_text(constraint_value(spec_parse_pieces(pieces)->Ok_0[i].1)),
    decreases pieces.len(),
{
    if pieces.len() > 0 {
        lemma_pieces_good(pieces.drop_first());
        if trim(pieces[0]).len() > 0 {
            lemma_single_good(trim(pieces[0]));
            let first = spec_parse_single_constraint(trim(pieces[0]))->Ok_0;
            let rest = spec_parse_pieces(pieces.drop_first())->Ok_0;
            assert forall|i: int| 0 <= i < (seq![first] + rest).len() implies good_text(
                (#[trigger] (seq![first] + rest)[i]).0,
            ) && good_text(constraint_value((seq![first] + rest)[i].1)) by {
                if i > 0 {
                    assert((seq![first] + rest)[i] == rest[i - 1]);
                }
            }
        }
    }
}

/// Grouping good pairs by key gives good keys, each with at least one
/// constraint, all with good values.
proof fn lemma_group_good(pairs: Seq<(Seq<char>, ConstraintView)>)
    requires
        forall|i: int|
            0 <= i < pairs.len() ==> good_text((#[trigger] pairs[i]).0) && good_text(
                constraint_value(pairs[i].1),
            ),
    ensures
        forall|k: Seq<char>|
            #[trigger] group_by_key(pairs).contains_key(k) ==> good_text(k) && group_by_key(
                pairs,
            )[k].len() > 0 && forall|j: int|
                0 <= j < group_by_key(pairs)[k].len() ==> good_text(
                    constraint_value(#[trigger] group_by_key(pairs)[k][j]),
                ),
    decreases pairs.len(),
{
    if pairs.len() > 0 {
        let init = pairs.drop_last();
        assert forall|i: int| 0 <= i < init.len() implies good_text((#[trigger] init[i]).0)
            && good_text(constraint_value(init[i].1)) by {
            assert(init[i] == pairs[i]);
        }
        lemma_group_good(init);
        let last = pairs.last();
        assert(good_text(pairs[pairs.len() - 1].0));
        let g = group_by_key(init);
        let h = group_by_key(pairs);
        assert forall|k: Seq<char>| #[trigger] h.contains_key(k) implies good_text(k) && h[k].len() > 0
            && forall|j: int| 0 <= j < h[k].len() ==> good_text(constraint_value(#[trigger] h[k][j])) by {
            if k == last.0 {
                if g.contains_key(k) {
                    assert(h[k] == g[k].push(last.1));
                    assert forall|j: int| 0 <= j < h[k].len() implies good_text(
                        constraint_value(#[trigger] h[k][j]),
                    ) by {
                        if j < g[k].len() {
                            assert(h[k][j] == g[k][j]);
                        }
                    }
                } else {
                    assert(h[k] == seq![last.1]);
                }
            } else {
                assert(g.contains_key(k));
                assert(h[k] == g[k]);
            }
        }
    }
}

/// The searched text found in `s` before its first comma is a good text
/// without commas.
proof fn lemma_query_value_good(s: Seq<char>)
    requires
        !s.contains(','),
        spec_extract_query_value(s) is Ok,
    ensures
        good_text(spec_extract_query_value(s)->Ok_0),
        !spec_extract_query_value(s)->Ok_0.contains(','),
{
    let t = trim(s);
    lemma_trim_contains(s, ',');
    let parts = split_once(t, ':')->Some_0;
    t.index_of_first_ensures(':');
    let i = t.index_of_first(':').unwrap();
    assert(parts.1 == t.subrange(i + 1, t.len() as int));
    assert(!parts.1.contains(',')) by {
        if parts.1.contains(',') {
            let j = choose|j: int| 0 <= j < parts.1.len() && parts.1[j] == ',';
            assert(t[i + 1 + j] == ',');
        }
    }
    lemma_trim_contains(parts.1, ',');
    lemma_trim_good(parts.1);
}

/// What a search reads as is well shaped: the searched text is non-empty,
/// has no whitespace at either end and holds no comma; every field named
/// in the constraints is a non-empty trimmed text with at least one
/// constraint, and every value compared with is a non-empty trimmed text.
pub proof fn lemma_parsed_search_shape(input: Seq<char>)
    requires
        spec_parse(input) is Ok,
    ensures
        good_text(spec_parse(input)->Ok_0.query),
        !spec_parse(input)->Ok_0.query.contains(','),
        spec_parse(input)->Ok_0.constraints matches Some(m) ==> forall|k: Seq<char>|
            #[trigger] m.contains_key(k) ==> good_text(k) && m[k].len() > 0 && forall|j: int|
                0 <= j < m[k].len() ==> good_text(constraint_value(#[trigger] m[k][j])),
{
    let c = spec_clean_html(input);
    let s = trim(c);
    lemma_trim_good(c);
    match split_once(s, ',') {
        Some(parts) => {
            s.index_of_first_ensures(',');
            let i = s.index_of_first(',').unwrap();
            assert(!parts.0.contains(',')) by {
                if parts.0.contains(',') {
                    let j = choose|j: int| 0 <= j < parts.0.len() && parts.0[j] == ',';
                    assert(s[j] == ',');
                }
            }
            lemma_query_value_good(parts.0);
            let r = parts.1;
            let pieces = split_all(r, ',');
            if spec_parse_pieces(pieces) is Ok {
                lemma_pieces_good(pieces);
                lemma_group_good(spec_parse_pieces(pieces)->Ok_0);
            }
        },
        None => {
            s.index_of_first_ensures(',');
            if spec_extract_query_value(s) is Ok {
                lemma_query_value_good(s);
            }
        },
    }
}

// ---------------------------------------------------------------------
// Writing constraints back
// ---------------------------------------------------------------------

/// How a constraint is written after its field: `: v`, `> v` or `< v`.
pub open spec fn constraint_text(c: ConstraintView) -> Seq<char> {
    match c {
        ConstraintView::Exact(v) => seq![':', ' '] + v,
        ConstraintView::GreaterThan(v) => seq!['>', ' '] + v,
        ConstraintView::LesserThan(v) => seq!['<', ' '] + v,
    }
}

impl Constraint {
    /// How the constraint is written after its field.
    pub fn text(&self) -> (r: String)
        ensures
            r@ == constraint_text(self@),
    {
        let mut r = String::new();
        let v = match self {
            Constraint::Exact(v) => {
                push_char(&mut r, ':');
                v
            },
            Constraint::GreaterThan(v) => {
                push_char(&mut r, '>');
                v
            },
            Constraint::LesserThan(v) => {
                push_char(&mut r, '<');
                v
            },
        };
        push_char(&mut r, ' ');
        r.append(v.as_str());
        r
    }
}

} // verus!

//! Database migrations: cutting a migration script into the statements
//! that are executed one by one, reading a migration's timestamp and name
//! from its file name, ordering and selecting the pending migrations, and
//! recognising a script that was already written by its content hash.

use blake2::{Blake2s256, Digest};
use vstd::prelude::*;
use crate::common::{lowercase, to_lowercase};
use crate::datasources::{append_chars, chars_eq, contains_name, views};
use crate::ingest::{base_tables_migration, spec_base_tables_migration};
use crate::text::{
    chars_of, char_views, contains_chars, contains_seq, ends_with_chars, find_char, has_prefix,
    has_suffix, lemma_lex_total, lemma_lex_transitive, lemma_split_step, lex_lt, lines, lines_of,
    matches_at, push_char, split_all, starts_with_chars, str_lt, string_from_chars,
    string_from_range, trim, trim_end, trim_range, trim_start, is_ws, lemma_trim_contains,
    lemma_trim_start, lemma_trim_end,
};

verus! {

// ---------------------------------------------------------------------
// Cutting a script into statements
// ---------------------------------------------------------------------

/// Where the cutting of a script stands after some of its lines: the
/// statements cut so far, the text of the statement being read, whether a
/// trigger or a `begin ... end` block is open, and how many `begin`s are
/// still waiting for their `end`.
pub struct SqlCutView {
    pub statements: Seq<Seq<char>>,
    pub current: Seq<char>,
    pub in_trigger: bool,
    pub in_block: bool,
    pub depth: int,
}

/// Nothing read yet.
pub open spec fn sql_cut_start() -> SqlCutView {
    SqlCutView {
        statements: seq![],
        current: seq![],
        in_trigger: false,
        in_block: false,
        depth: 0,
    }
}

/// `s` without one trailing semicolon (`str::strip_suffix(';')`).
pub open spec fn strip_semicolon(s: Seq<char>) -> Seq<char> {
    if s.len() > 0 && s.last() == ';' {
        s.drop_last()
    } else {
        s
    }
}

/// Reading one more line. The line's trimmed, lower-cased text opens a
/// trigger when it starts with `create trigger`, opens a block when it
/// contains `begin`, and closes one when it contains `end` inside a block;
/// when the last block closes the trigger closes too. A line whose trimmed
/// text ends with `;` outside any trigger or block ends the statement,
/// which is kept (trimmed, without its final `;`) unless it is blank.
pub open spec fn sql_cut_step(st: SqlCutView, line: Seq<char>) -> SqlCutView {
    let t = lowercase(trim(line));
    let trigger1 = st.in_trigger || has_prefix(t, "create trigger"@);
    let opens = contains_seq(t, "begin"@);
    let block1 = st.in_block || opens;
    let depth1 = if opens {
        st.depth + 1
    } else {
        st.depth
    };
    let closes = contains_seq(t, "end"@) && block1;
    let depth2 = if closes {
        depth1 - 1
    } else {
        depth1
    };
    let done = closes && depth2 == 0;
    let block2 = if done {
        false
    } else {
        block1
    };
    let trigger2 = if done {
        false
    } else {
        trigger1
    };
    let cur = st.current + line + seq!['\n'];
    if has_suffix(trim(line), ";"@) && !block2 && !trigger2 {
        let s = trim(cur);
        SqlCutView {
            statements: if s.len() > 0 {
                st.statements.push(strip_semicolon(s))
            } else {
                st.statements
            },
            current: seq![],
            in_trigger: trigger2,
            in_block: block2,
            depth: depth2,
        }
    } else {
        SqlCutView {
            statements: st.statements,
            current: cur,
            in_trigger: trigger2,
            in_block: block2,
            depth: depth2,
        }
    }
}

/// Reading the lines `ls` in order.
pub open spec fn sql_cut_lines(ls: Seq<Seq<char>>) -> SqlCutView
    decreases ls.len(),
{
    if ls.len() == 0 {
        sql_cut_start()
    } else {
        sql_cut_step(sql_cut_lines(ls.drop_last()), ls.last())
    }
}

/// The statements of a migration script: those cut line by line, and then
/// what is left after the last line, if it is not blank.
pub open spec fn spec_sql_statements(content: Seq<char>) -> Seq<Seq<char>> {
    let st = sql_cut_lines(lines(content));
    let rest = trim(st.current);
    if rest.len() > 0 {
        st.statements.push(strip_semicolon(rest))
    } else {
        st.statements
    }
}

/// The count of open blocks never goes below zero and is at most the
/// number of lines read, and a block is open exactly when that count is
/// positive.
pub proof fn lemma_sql_cut_depth(ls: Seq<Seq<char>>)
    ensures
        0 <= sql_cut_lines(ls).depth <= ls.len(),
        sql_cut_lines(ls).in_block <==> sql_cut_lines(ls).depth > 0,
    decreases ls.len(),
{
    if ls.len() > 0 {
        lemma_sql_cut_depth(ls.drop_last());
    }
}

/// Some character of `s` is not whitespace.
pub open spec fn has_text(s: Seq<char>) -> bool {
    exists|i: int| 0 <= i < s.len() && !is_ws(#[trigger] s[i])
}

/// A text trims to nothing exactly when it is all whitespace.
proof fn lemma_trim_empty_iff(s: Seq<char>)
    ensures
        (trim(s).len() > 0) == has_text(s),
{
    if has_text(s) {
        let i = choose|i: int| 0 <= i < s.len() && !is_ws(#[trigger] s[i]);
        assert(s.contains(s[i]));
        lemma_trim_contains(s, s[i]);
    } else {
        lemma_trim_start(s);
        if trim_start(s).len() > 0 {
            let k = choose|k: int|
                #![trigger s.subrange(k, s.len() as int)]
                0 <= k <= s.len() && trim_start(s) == s.subrange(k, s.len() as int) && (forall|i: int|
                    0 <= i < k ==> is_ws(s[i]));
            assert(trim_start(s)[0] == s[k]);
            assert(!is_ws(s[k]));
        }
        lemma_trim_end(trim_start(s));
    }
}

/// Two lines read alike by the cutting: the same once trimmed and
/// lower-cased, both blank or both not, and both ending with `;` or
/// neither.
pub open spec fn same_but_case(l1: Seq<char>, l2: Seq<char>) -> bool {
    &&& lowercase(trim(l1)) == lowercase(trim(l2))
    &&& has_suffix(trim(l1), ";"@) == has_suffix(trim(l2), ";"@)
    &&& (trim(l1).len() == 0) == (trim(l2).len() == 0)
}

/// Two cutting states alike: the same count of statements cut, the same
/// trigger and block state, and both with or without text pending.
pub open spec fn same_cut_state(a: SqlCutView, b: SqlCutView) -> bool {
    &&& a.statements.len() == b.statements.len()
    &&& a.in_trigger == b.in_trigger
    &&& a.in_block == b.in_block
    &&& a.depth == b.depth
    &&& has_text(a.current) == has_text(b.current)
}

/// Reading lines alike but for their letter case from states alike gives
/// states alike.
proof fn lemma_sql_cut_step_ignores_case(a: SqlCutView, b: SqlCutView, l1: Seq<char>, l2: Seq<char>)
    requires
        same_cut_state(a, b),
        same_but_case(l1, l2),
    ensures
        same_cut_state(sql_cut_step(a, l1), sql_cut_step(b, l2)),
{
    let c1 = a.current + l1 + seq!['\n'];
    let c2 = b.current + l2 + seq!['\n'];
    lemma_trim_empty_iff(l1);
    lemma_trim_empty_iff(l2);
    lemma_trim_empty_iff(c1);
    lemma_trim_empty_iff(c2);
    assert(has_text(c1) == has_text(c2)) by {
        if has_text(a.current) {
            let i = choose|i: int| 0 <= i < a.current.len() && !is_ws(#[trigger] a.current[i]);
            assert(c1[i] == a.current[i]);
            let j = choose|j: int| 0 <= j < b.current.len() && !is_ws(#[trigger] b.current[j]);
            assert(c2[j] == b.current[j]);
        } else if has_text(l1) {
            let i = choose|i: int| 0 <= i < l1.len() && !is_ws(#[trigger] l1[i]);
            assert(c1[a.current.len() + i] == l1[i]);
            let j = choose|j: int| 0 <= j < l2.len() && !is_ws(#[trigger] l2[j]);
            assert(c2[b.current.len() + j] == l2[j]);
        } else {
            assert forall|i: int| 0 <= i < c1.len() implies is_ws(#[trigger] c1[i]) by {
                if i < a.current.len() {
                    assert(c1[i] == a.current[i]);
                } else if i < a.current.len() + l1.len() {
                    assert(c1[i] == l1[i - a.current.len()]);
                }
            }
            assert forall|i: int| 0 <= i < c2.len() implies is_ws(#[trigger] c2[i]) by {
                if i < b.current.len() {
                    assert(c2[i] == b.current[i]);
                } else if i < b.current.len() + l2.len() {
                    assert(c2[i] == l2[i - b.current.len()]);
                }
            }
        }
    }
    assert(c1.last() == '\n');
    assert(has_text(sql_cut_step(a, l1).current) == has_text(sql_cut_step(b, l2).current)) by {
        lemma_trim_empty_iff(Seq::<char>::empty());
    }
}

/// Cutting is blind to the letter case of the script's keywords: two
/// scripts whose lines are alike but for their case (`CREATE TRIGGER` and
/// `create trigger`, `BEGIN` and `begin`, ...) are cut at the same places,
/// into as many statements, with the same trigger and block state after
/// every line.
pub proof fn lemma_sql_cut_ignores_case(ls1: Seq<Seq<char>>, ls2: Seq<Seq<char>>)
    requires
        ls1.len() == ls2.len(),
        forall|i: int| 0 <= i < ls1.len() ==> same_but_case(#[trigger] ls1[i], ls2[i]),
    ensures
        same_cut_state(sql_cut_lines(ls1), sql_cut_lines(ls2)),
    decreases ls1.len(),
{
    if ls1.len() == 0 {
        assert(!has_text(Seq::<char>::empty()));
    } else {
        let i1 = ls1.drop_last();
        let i2 = ls2.drop_last();
        assert forall|i: int| 0 <= i < i1.len() implies same_but_case(#[trigger] i1[i], i2[i]) by {
            assert(i1[i] == ls1[i] && i2[i] == ls2[i]);
        }
        lemma_sql_cut_ignores_case(i1, i2);
        assert(same_but_case(ls1[ls1.len() - 1], ls2[ls1.len() - 1]));
        lemma_sql_cut_step_ignores_case(sql_cut_lines(i1), sql_cut_lines(i2), ls1.last(), ls2.last());
    }
}

/// A script is cut into as many statements as one whose lines are alike
/// but for their letter case.
pub proof fn lemma_sql_statements_ignore_case(c1: Seq<char>, c2: Seq<char>)
    requires
        lines(c1).len() == lines(c2).len(),
        forall|i: int| 0 <= i < lines(c1).len() ==> same_but_case(#[trigger] lines(c1)[i], lines(c2)[i]),
    ensures
        spec_sql_statements(c1).len() == spec_sql_statements(c2).len(),
{
    lemma_sql_cut_ignores_case(lines(c1), lines(c2));
    lemma_trim_empty_iff(sql_cut_lines(lines(c1)).current);
    lemma_trim_empty_iff(sql_cut_lines(lines(c2)).current);
}

/// Reading more lines never changes the statements already cut: those cut
/// from a prefix of the lines are a prefix of those cut from all of them.
pub proof fn lemma_sql_cut_prefix(ls: Seq<Seq<char>>, k: int)
    requires
        0 <= k <= ls.len(),
    ensures
        sql_cut_lines(ls.take(k)).statements.len() <= sql_cut_lines(ls).statements.len(),
        sql_cut_lines(ls).statements.take(sql_cut_lines(ls.take(k)).statements.len() as int)
            == sql_cut_lines(ls.take(k)).statements,
    decreases ls.len() - k,
{
    if k < ls.len() {
        lemma_sql_cut_prefix(ls, k + 1);
        let a = sql_cut_lines(ls.take(k)).statements;
        let b = sql_cut_lines(ls.take(k + 1)).statements;
        assert(ls.take(k + 1).drop_last() =~= ls.take(k));
        assert(b.take(a.len() as int) =~= a);
        let c = sql_cut_lines(ls).statements;
        assert(c.take(a.len() as int) =~= c.take(b.len() as int).take(a.len() as int));
    } else {
        assert(ls.take(k) =~= ls);
        let c = sql_cut_lines(ls).statements;
        assert(c.take(c.len() as int) =~= c);
    }
}

/// The trimmed range `lo..hi` of `v` without one final `;`, as a `String`.
fn statement_text(v: &Vec<char>, lo: usize, hi: usize) -> (s: String)
    requires
        lo < hi <= v.len(),
    ensures
        s@ == strip_semicolon(v@.subrange(lo as int, hi as int)),
{
    if v[hi - 1] == ';' {
        let s = string_from_range(v, lo, hi - 1);
        assert(v@.subrange(lo as int, hi as int).drop_last() =~= v@.subrange(lo as int, hi - 1));
        s
    } else {
        string_from_range(v, lo, hi)
    }
}

/// Cuts a migration script into its statements. Statements end at a line
/// whose trimmed text ends with `;`, except inside a trigger or a
/// `begin ... end` block, whose inner `;` do not end the statement.
pub fn parse_sql_statements(sql_content: &str) -> (r: Vec<String>)
    ensures
        views(r@) == spec_sql_statements(sql_content@),
{
    let content = chars_of(sql_content);
    let all_lines = lines_of(&content);
    let ghost ls = char_views(all_lines@);
    let create_trigger = chars_of("create trigger");
    let begin = chars_of("begin");
    let end = chars_of("end");
    let semicolon = chars_of(";");
    let mut statements: Vec<String> = Vec::new();
    let mut current: Vec<char> = Vec::new();
    let mut in_trigger = false;
    let mut in_block = false;
    let mut depth: usize = 0;
    let mut i: usize = 0;
    assert(ls.take(0) =~= Seq::<Seq<char>>::empty());
    while i < all_lines.len()
        invariant
            i <= all_lines.len(),
            ls == char_views(all_lines@),
            ls == lines(content@),
            content@ == sql_content@,
            create_trigger@ == "create trigger"@,
            begin@ == "begin"@,
            end@ == "end"@,
            semicolon@ == ";"@,
            ({
                let st = sql_cut_lines(ls.take(i as int));
                &&& views(statements@) == st.statements
                &&& current@ == st.current
                &&& in_trigger == st.in_trigger
                &&& in_block == st.in_block
                &&& depth == st.depth
            }),
        decreases all_lines.len() - i,
    {
        let ghost before = sql_cut_lines(ls.take(i as int));
        proof {
            lemma_sql_cut_depth(ls.take(i as int));
            assert(ls.take(i + 1).drop_last() =~= ls.take(i as int));
            assert(ls.take(i + 1).last() == all_lines@[i as int]@);
        }
        let line = &all_lines[i];
        let (a, b) = trim_range(line, 0, line.len());
        assert(line@.subrange(0, line@.len() as int) =~= line@);
        let trimmed = string_from_range(line, a, b);
        let lower_string = to_lowercase(trimmed.as_str());
        let lower = chars_of(lower_string.as_str());
        if starts_with_chars(&lower, &create_trigger) {
            in_trigger = true;
        }
        let opens = contains_chars(&lower, &begin);
        if opens {
            in_block = true;
            depth = depth + 1;
        }
        if contains_chars(&lower, &end) && in_block {
            depth = depth - 1;
            if depth == 0 {
                in_block = false;
                in_trigger = false;
            }
        }
        let mut k: usize = 0;
        let ghost cur0 = current@;
        while k < line.len()
            invariant
                k <= line.len(),
                current@ == cur0 + line@.subrange(0, k as int),
            decreases line.len() - k,
        {
            current.push(line[k]);
            assert(current@ =~= cur0 + line@.subrange(0, k + 1));
            k = k + 1;
        }
        current.push('\n');
        assert(current@ =~= cur0 + line@ + seq!['\n']);
        let trimmed_chars = chars_of(trimmed.as_str());
        if ends_with_chars(&trimmed_chars, &semicolon) && !in_block && !in_trigger {
            let (c, d) = trim_range(&current, 0, current.len());
            assert(current@.subrange(0, current@.len() as int) =~= current@);
            if c < d {
                let statement = statement_text(&current, c, d);
                let ghost old_statements = statements@;
                statements.push(statement);
                assert(views(statements@) =~= views(old_statements).push(
                    strip_semicolon(trim(current@)),
                ));
            }
            current = Vec::new();
        }
        proof {
            let after = sql_cut_lines(ls.take(i + 1));
            assert(after == sql_cut_step(before, ls.take(i + 1).last()));
            assert(views(statements@) =~= after.statements);
            assert(current@ =~= after.current);
        }
        i = i + 1;
    }
    assert(ls.take(all_lines.len() as int) =~= ls);
    let (c, d) = trim_range(&current, 0, current.len());
    assert(current@.subrange(0, current@.len() as int) =~= current@);
    if c < d {
        let statement = statement_text(&current, c, d);
        let ghost old_statements = statements@;
        statements.push(statement);
        assert(views(statements@) =~= views(old_statements).push(strip_semicolon(trim(current@))));
    }
    statements
}


/// The statements of a script that are executed: each trimmed, blank
/// ones left out.
pub open spec fn spec_executed_statements(content: Seq<char>) -> Seq<Seq<char>> {
    spec_sql_statements(content).map_values(|t: Seq<char>| trim(t)).filter(
        |t: Seq<char>| t.len() > 0,
    )
}

/// The statements of a migration script in the form they are executed:
/// trimmed, and without the blank ones.
pub fn executed_statements(sql_content: &str) -> (r: Vec<String>)
    ensures
        views(r@) == spec_executed_statements(sql_content@),
{
    let all = parse_sql_statements(sql_content);
    let ghost trimmed = views(all@).map_values(|t: Seq<char>| trim(t));
    let mut r: Vec<String> = Vec::new();
    let mut i: usize = 0;
    proof {
        reveal(Seq::filter);
    }
    assert(trimmed.take(0).filter(|t: Seq<char>| t.len() > 0) =~= Seq::<Seq<char>>::empty());
    while i < all.len()
        invariant
            i <= all.len(),
            trimmed == views(all@).map_values(|t: Seq<char>| trim(t)),
            views(r@) == trimmed.take(i as int).filter(|t: Seq<char>| t.len() > 0),
        decreases all.len() - i,
    {
        let v = chars_of(all[i].as_str());
        let (a, b) = trim_range(&v, 0, v.len());
        assert(v@.subrange(0, v@.len() as int) =~= v@);
        proof {
            assert(trimmed.take(i + 1).drop_last() =~= trimmed.take(i as int));
            assert(trimmed.take(i + 1).last() == trim(v@));
            reveal(Seq::filter);
        }
        if a < b {
            let t = string_from_range(&v, a, b);
            let ghost old_r = r@;
            r.push(t);
            assert(views(r@) =~= views(old_r).push(trim(v@)));
        }
        assert(views(r@) =~= trimmed.take(i + 1).filter(|t: Seq<char>| t.len() > 0));
        i = i + 1;
    }
    assert(trimmed.take(all.len() as int) =~= trimmed);
    r
}

// ---------------------------------------------------------------------
// Migration files
// ---------------------------------------------------------------------

/// A migration script and what its file name says of it. `executed_at`
/// is when it ran, in seconds since the Unix epoch, when that is known.
pub struct Migration {
    pub filename: String,
    pub timestamp: String,
    pub name: String,
    pub content: String,
    pub executed_at: Option<i64>,
}

/// A file of the migrations directory is a script when its extension is
/// `sql`: its name ends with `.sql` and has something before that dot
/// (`Path::extension` gives nothing for a name that only starts with a
/// dot).
pub open spec fn spec_is_sql_file(name: Seq<char>) -> bool {
    name.len() > 4 && has_suffix(name, ".sql"@)
}

/// Whether the file called `name` is a migration script.
pub fn is_sql_file(name: &str) -> (b: bool)
    ensures
        b == spec_is_sql_file(name@),
{
    let v = chars_of(name);
    let ext = chars_of(".sql");
    v.len() > 4 && ends_with_chars(&v, &ext)
}

/// The timestamp of a script named `YYYY_MM_DD_HHMMSS_name.sql`: its
/// first four `_`-separated parts, joined again by `_`; `unknown` when the
/// name has fewer than four parts.
pub open spec fn spec_migration_timestamp(filename: Seq<char>) -> Seq<char> {
    let parts = split_all(filename, '_');
    if parts.len() >= 4 {
        parts[0] + seq!['_'] + parts[1] + seq!['_'] + parts[2] + seq!['_'] + parts[3]
    } else {
        "unknown"@
    }
}

/// `split_all` always yields at least one piece.
proof fn lemma_split_all_nonempty(s: Seq<char>, c: char)
    ensures
        split_all(s, c).len() >= 1,
    decreases s.len(),
{
    s.index_of_first_ensures(c);
    match s.index_of_first(c) {
        Some(i) => {
            if 0 <= i < s.len() {
                lemma_split_all_nonempty(s.subrange(i + 1, s.len() as int), c);
            }
        },
        None => {},
    }
}

/// The timestamp written at the start of a migration's file name.
pub fn migration_timestamp(filename: &str) -> (r: String)
    ensures
        r@ == spec_migration_timestamp(filename@),
{
    let v = chars_of(filename);
    let n = v.len();
    assert(v@.subrange(0, n as int) =~= v@);
    let unknown = chars_of("unknown");
    let p1 = match find_char(&v, 0, n, '_') {
        Some(p) => p,
        None => {
            proof {
                lemma_split_step(v@, 0, n as int, '_', None);
            }
            return string_from_chars(&unknown);
        },
    };
    proof {
        lemma_split_step(v@, 0, n as int, '_', Some(p1 as int));
    }
    let p2 = match find_char(&v, p1 + 1, n, '_') {
        Some(p) => p,
        None => {
            proof {
                lemma_split_step(v@, p1 + 1, n as int, '_', None);
            }
            return string_from_chars(&unknown);
        },
    };
    proof {
        lemma_split_step(v@, p1 + 1, n as int, '_', Some(p2 as int));
    }
    let p3 = match find_char(&v, p2 + 1, n, '_') {
        Some(p) => p,
        None => {
            proof {
                lemma_split_step(v@, p2 + 1, n as int, '_', None);
            }
            return string_from_chars(&unknown);
        },
    };
    proof {
        lemma_split_step(v@, p2 + 1, n as int, '_', Some(p3 as int));
        lemma_split_all_nonempty(v@.subrange(p3 + 1, n as int), '_');
    }
    let end = match find_char(&v, p3 + 1, n, '_') {
        Some(p) => {
            proof {
                lemma_split_step(v@, p3 + 1, n as int, '_', Some(p as int));
            }
            p
        },
        None => {
            proof {
                lemma_split_step(v@, p3 + 1, n as int, '_', None);
            }
            n
        },
    };
    let r = string_from_range(&v, 0, end);
    proof {
        let parts = split_all(v@, '_');
        assert(parts[0] == v@.subrange(0, p1 as int));
        assert(parts[1] == v@.subrange(p1 + 1, p2 as int));
        assert(parts[2] == v@.subrange(p2 + 1, p3 as int));
        assert(parts[3] == v@.subrange(p3 + 1, end as int));
        v@.subrange(0, n as int).index_of_first_ensures('_');
        v@.subrange(p1 + 1, n as int).index_of_first_ensures('_');
        v@.subrange(p2 + 1, n as int).index_of_first_ensures('_');
        assert(v@.subrange(0, n as int)[p1 as int] == '_');
        assert(v@.subrange(p1 + 1, n as int)[p2 - p1 - 1] == '_');
        assert(v@.subrange(p2 + 1, n as int)[p3 - p2 - 1] == '_');
        assert(v@[p1 as int] == '_');
        assert(v@[p2 as int] == '_');
        assert(v@[p3 as int] == '_');
        assert(v@.subrange(0, end as int) =~= parts[0] + seq!['_'] + parts[1] + seq!['_']
            + parts[2] + seq!['_'] + parts[3]);
    }
    r
}

/// `s` with every occurrence of `p` taken out, left to right
/// (`str::replace(p, "")`).
pub open spec fn remove_all(s: Seq<char>, p: Seq<char>) -> Seq<char>
    decreases s.len(),
{
    if s.len() == 0 {
        s
    } else if p.len() > 0 && has_prefix(s, p) {
        remove_all(s.skip(p.len() as int), p)
    } else {
        seq![s[0]] + remove_all(s.drop_first(), p)
    }
}

/// The name of a migration: its file name with `.sql` taken out.
pub open spec fn spec_migration_name(filename: Seq<char>) -> Seq<char> {
    remove_all(filename, ".sql"@)
}

/// The name of the migration in `filename`.
pub fn migration_name(filename: &str) -> (r: String)
    ensures
        r@ == spec_migration_name(filename@),
{
    let v = chars_of(filename);
    let p = chars_of(".sql");
    let n = v.len();
    let mut out: Vec<char> = Vec::new();
    let mut i: usize = 0;
    assert(v@.skip(0) =~= v@);
    while i < n
        invariant
            n == v.len(),
            i <= n,
            p@ == ".sql"@,
            remove_all(v@, p@) == out@ + remove_all(v@.skip(i as int), p@),
        decreases n - i,
    {
        let ghost rest = v@.skip(i as int);
        if p.len() > 0 && p.len() <= n - i && matches_at(&v, &p, i) {
            proof {
                assert(rest.subrange(0, p@.len() as int) =~= v@.subrange(i as int, i + p@.len()));
                assert(rest.skip(p@.len() as int) =~= v@.skip(i + p@.len()));
            }
            i = i + p.len();
        } else {
            proof {
                if p@.len() > 0 && has_prefix(rest, p@) {
                    assert(rest.subrange(0, p@.len() as int) =~= v@.subrange(
                        i as int,
                        i + p@.len(),
                    ));
                }
                assert(rest.drop_first() =~= v@.skip(i + 1));
            }
            let ghost old_out = out@;
            out.push(v[i]);
            assert(out@ + remove_all(v@.skip(i + 1), p@) =~= old_out + (seq![rest[0]]
                + remove_all(rest.drop_first(), p@)));
            i = i + 1;
        }
    }
    assert(v@.skip(n as int) =~= Seq::<char>::empty());
    assert(out@ + remove_all(Seq::<char>::empty(), p@) =~= out@);
    string_from_chars(&out)
}

/// The migration written in the script `filename` with text `content`,
/// not yet run.
pub fn migration_from_file(filename: String, content: String) -> (m: Migration)
    ensures
        m.filename@ == filename@,
        m.timestamp@ == spec_migration_timestamp(filename@),
        m.name@ == spec_migration_name(filename@),
        m.content@ == content@,
        m.executed_at is None,
{
    let timestamp = migration_timestamp(filename.as_str());
    let name = migration_name(filename.as_str());
    Migration { filename, timestamp, name, content, executed_at: None }
}

/// The file name of a new, empty migration, in the form
/// `YYYY_MM_DD_HHMMSS_name.sql`: the timestamp, `_`, the name, then `.sql`.
pub fn new_migration_file_name(timestamp: &str, name: &str) -> (r: String)
    ensures
        r@ == timestamp@ + "_"@ + name@ + ".sql"@,
{
    let mut r = string_from_chars(&chars_of(timestamp));
    append_chars(&mut r, &chars_of("_"));
    append_chars(&mut r, &chars_of(name));
    append_chars(&mut r, &chars_of(".sql"));
    r
}


// ---------------------------------------------------------------------
// Ordering and selecting migrations
// ---------------------------------------------------------------------

/// The timestamps of `ms`.
pub open spec fn timestamps(ms: Seq<Migration>) -> Seq<Seq<char>> {
    ms.map_values(|m: Migration| m.timestamp@)
}

/// Entry `i` (timestamp `a`) comes before entry `j` (timestamp `b`) in a
/// stable sort by timestamp: its timestamp is smaller, or the timestamps
/// are equal and it came first.
pub open spec fn stable_before(a: Seq<char>, i: int, b: Seq<char>, j: int) -> bool {
    lex_lt(a, b) || (a == b && i < j)
}

/// `p` is a permutation of `0..n`.
pub open spec fn is_permutation(p: Seq<int>, n: int) -> bool {
    &&& p.len() == n
    &&& forall|k: int| 0 <= k < n ==> 0 <= #[trigger] p[k] < n
    &&& forall|x: int| 0 <= x < n ==> #[trigger] p.contains(x)
}

/// `r` is `ms` sorted by timestamp, keeping the order of entries with
/// equal timestamps (`sort_by` on the timestamps, which is stable): it is
/// `ms` rearranged by a permutation along which entries come in
/// `stable_before` order. That order is strict and total on the entries,
/// so exactly one such arrangement exists.
pub open spec fn sorted_by_timestamp(ms: Seq<Migration>, r: Seq<Migration>) -> bool {
    exists|p: Seq<int>|
        #![trigger is_permutation(p, ms.len() as int)]
        is_permutation(p, ms.len() as int) && r.len() == ms.len() && (forall|k: int|
            0 <= k < r.len() ==> #[trigger] r[k] == ms[p[k]]) && (forall|a: int, b: int|
            0 <= a < b < r.len() ==> stable_before(
                ms[p[a]].timestamp@,
                p[a],
                ms[p[b]].timestamp@,
                p[b],
            ))
}

/// Sorts migrations by timestamp, oldest first; migrations with the same
/// timestamp keep their order.
pub fn sort_by_timestamp(ms: Vec<Migration>) -> (r: Vec<Migration>)
    ensures
        sorted_by_timestamp(ms@, r@),
{
    let ghost orig = ms@;
    let n = ms.len();
    let mut src = ms;
    let mut r: Vec<Migration> = Vec::new();
    let ghost mut p: Seq<int> = Seq::empty();
    let mut k: usize = 0;
    assert(orig.skip(0) =~= orig);
    while k < n
        invariant
            n == orig.len(),
            k <= n,
            src@ == orig.skip(k as int),
            r@.len() == k,
            p.len() == k,
            forall|j: int| 0 <= j < k ==> 0 <= #[trigger] p[j] < k,
            forall|x: int| 0 <= x < k ==> #[trigger] p.contains(x),
            forall|j: int| 0 <= j < k ==> #[trigger] r@[j] == orig[p[j]],
            forall|a: int, b: int|
                0 <= a < b < k ==> stable_before(
                    orig[p[a]].timestamp@,
                    p[a],
                    orig[p[b]].timestamp@,
                    p[b],
                ),
        decreases n - k,
    {
        assert(src@[0] == orig[k as int]);
        let m = src.remove(0);
        assert(src@ =~= orig.skip(k + 1));
        let mut pos: usize = 0;
        while pos < r.len() && !str_lt(m.timestamp.as_str(), r[pos].timestamp.as_str())
            invariant
                pos <= r@.len(),
                forall|j: int| 0 <= j < pos ==> !lex_lt(m.timestamp@, #[trigger] r@[j].timestamp@),
            decreases r@.len() - pos,
        {
            pos = pos + 1;
        }
        let ghost old_r = r@;
        let ghost old_p = p;
        let ghost mt = m.timestamp@;
        proof {
            assert(m == orig[k as int]);
        }
        r.insert(pos, m);
        proof {
            p = old_p.insert(pos as int, k as int);
            assert(r@ =~= old_r.insert(pos as int, orig[k as int]));
            assert forall|j: int| 0 <= j < k + 1 implies #[trigger] r@[j] == orig[p[j]] by {
                if j < pos {
                    assert(r@[j] == old_r[j]);
                } else if j > pos {
                    assert(r@[j] == old_r[j - 1]);
                }
            }
            assert forall|j: int| 0 <= j < k + 1 implies 0 <= #[trigger] p[j] < k + 1 by {
                if j < pos {
                    assert(p[j] == old_p[j]);
                } else if j > pos {
                    assert(p[j] == old_p[j - 1]);
                }
            }
            assert forall|x: int| 0 <= x < k + 1 implies #[trigger] p.contains(x) by {
                if x == k {
                    assert(p[pos as int] == x);
                } else {
                    assert(old_p.contains(x));
                    let j0 = choose|j: int| 0 <= j < old_p.len() && old_p[j] == x;
                    if j0 < pos {
                        assert(p[j0] == x);
                    } else {
                        assert(p[j0 + 1] == x);
                    }
                }
            }
            // Entries after the insertion point have a larger timestamp.
            assert forall|j: int| pos <= j < k implies lex_lt(
                mt,
                #[trigger] orig[old_p[j]].timestamp@,
            ) by {
                assert(lex_lt(mt, old_r[pos as int].timestamp@));
                if j > pos {
                    let t0 = orig[old_p[pos as int]].timestamp@;
                    let tj = orig[old_p[j]].timestamp@;
                    assert(stable_before(t0, old_p[pos as int], tj, old_p[j]));
                    if lex_lt(t0, tj) {
                        lemma_lex_transitive(mt, t0, tj);
                    }
                }
            }
            // Entries before it have a timestamp that is not larger.
            assert forall|j: int| 0 <= j < pos implies stable_before(
                #[trigger] orig[old_p[j]].timestamp@,
                old_p[j],
                mt,
                k as int,
            ) by {
                let tj = orig[old_p[j]].timestamp@;
                assert(!lex_lt(mt, old_r[j].timestamp@));
                if tj != mt {
                    lemma_lex_total(tj, mt);
                }
            }
            assert forall|a: int, b: int| 0 <= a < b < k + 1 implies stable_before(
                orig[p[a]].timestamp@,
                p[a],
                orig[p[b]].timestamp@,
                p[b],
            ) by {
                if b < pos {
                    assert(p[a] == old_p[a] && p[b] == old_p[b]);
                } else if b == pos {
                    assert(p[a] == old_p[a]);
                    assert(p[b] == k);
                } else if a < pos {
                    assert(p[a] == old_p[a] && p[b] == old_p[b - 1]);
                } else if a == pos {
                    assert(p[a] == k);
                    assert(p[b] == old_p[b - 1]);
                    assert(lex_lt(mt, orig[old_p[b - 1]].timestamp@));
                } else {
                    assert(p[a] == old_p[a - 1] && p[b] == old_p[b - 1]);
                }
            }
        }
        k = k + 1;
    }
    assert(is_permutation(p, n as int));
    r
}

/// The migrations of `ms` whose file is not among `executed`, in order.
pub open spec fn spec_pending(ms: Seq<Migration>, executed: Seq<Seq<char>>) -> Seq<Migration> {
    ms.filter(|m: Migration| !executed.contains(m.filename@))
}

/// The migrations that have not run yet: those whose file name is not
/// among the executed ones, in the order given.
pub fn pending_migrations(all: Vec<Migration>, executed: &Vec<String>) -> (r: Vec<Migration>)
    ensures
        r@ == spec_pending(all@, views(executed@)),
{
    let ghost orig = all@;
    let ghost ex = views(executed@);
    let n = all.len();
    let mut src = all;
    let mut r: Vec<Migration> = Vec::new();
    let mut k: usize = 0;
    proof {
        reveal(Seq::filter);
    }
    assert(orig.skip(0) =~= orig);
    assert(orig.take(0).filter(|m: Migration| !ex.contains(m.filename@)) =~= Seq::<
        Migration,
    >::empty());
    while k < n
        invariant
            n == orig.len(),
            k <= n,
            ex == views(executed@),
            src@ == orig.skip(k as int),
            r@ == orig.take(k as int).filter(|m: Migration| !ex.contains(m.filename@)),
        decreases n - k,
    {
        assert(src@[0] == orig[k as int]);
        let m = src.remove(0);
        assert(src@ =~= orig.skip(k + 1));
        proof {
            reveal(Seq::filter);
            assert(orig.take(k + 1).drop_last() =~= orig.take(k as int));
            assert(orig.take(k + 1).last() == m);
        }
        let done = contains_name(executed, &m.filename);
        assert(done == ex.contains(m.filename@));
        if !done {
            r.push(m);
        }
        k = k + 1;
    }
    assert(orig.take(n as int) =~= orig);
    r
}

/// The file names of `ms`, in order.
pub open spec fn filenames(ms: Seq<Migration>) -> Seq<Seq<char>> {
    ms.map_values(|m: Migration| m.filename@)
}

/// What a run of the migrations does.
pub enum RunPlan {
    /// Nothing is pending: nothing is run or recorded.
    NothingPending,
    /// A dry run: the pending migrations' file names are listed, in
    /// order; nothing is run or recorded.
    List(Vec<String>),
    /// The pending migrations are run in this order, each in a
    /// transaction of its own that also records its file name; the run
    /// stops at the first that fails.
    Execute(Vec<Migration>),
}

/// What a run does with the migrations `all` (sorted by timestamp) when
/// those of `executed` ran before: nothing when none is pending; with
/// `dry_run`, the list of the pending ones; otherwise the pending ones, to
/// run in order.
pub fn run_plan(all: Vec<Migration>, executed: &Vec<String>, dry_run: bool) -> (p: RunPlan)
    ensures
        ({
            let pend = spec_pending(all@, views(executed@));
            &&& pend.len() == 0 ==> p is NothingPending
            &&& (pend.len() > 0 && dry_run) ==> (p matches RunPlan::List(names) && views(names@)
                == filenames(pend))
            &&& (pend.len() > 0 && !dry_run) ==> (p matches RunPlan::Execute(ms) && ms@ == pend)
        }),
{
    let pending = pending_migrations(all, executed);
    if pending.len() == 0 {
        return RunPlan::NothingPending;
    }
    if dry_run {
        let mut names: Vec<String> = Vec::new();
        let mut i: usize = 0;
        while i < pending.len()
            invariant
                i <= pending@.len(),
                views(names@) == filenames(pending@.take(i as int)),
            decreases pending@.len() - i,
        {
            let ghost before = names@;
            names.push(pending[i].filename.clone());
            proof {
                assert(views(names@) =~= views(before).push(pending@[i as int].filename@));
                assert(pending@.take(i + 1) =~= pending@.take(i as int).push(pending@[i as int]));
                assert(filenames(pending@.take(i + 1)) =~= filenames(pending@.take(i as int)).push(
                    pending@[i as int].filename@,
                ));
            }
            i = i + 1;
        }
        assert(pending@.take(pending@.len() as int) =~= pending@);
        RunPlan::List(names)
    } else {
        RunPlan::Execute(pending)
    }
}

/// A filter keeps nothing of a sequence none of whose items it accepts.
proof fn lemma_filter_keeps_none<A>(s: Seq<A>, pred: spec_fn(A) -> bool)
    requires
        forall|i: int| 0 <= i < s.len() ==> !pred(#[trigger] s[i]),
    ensures
        s.filter(pred).len() == 0,
    decreases s.len(),
{
    reveal(Seq::filter);
    if s.len() > 0 {
        lemma_filter_keeps_none(s.drop_last(), pred);
    }
}

/// Once every pending migration has run and its file name is recorded
/// after those recorded before, none is pending.
pub proof fn lemma_run_leaves_nothing_pending(all: Seq<Migration>, executed: Seq<Seq<char>>)
    ensures
        spec_pending(all, executed + filenames(spec_pending(all, executed))).len() == 0,
{
    let pend = spec_pending(all, executed);
    let after = executed + filenames(pend);
    let pred = |m: Migration| !executed.contains(m.filename@);
    let pred2 = |m: Migration| !after.contains(m.filename@);
    all.filter_lemma(pred);
    assert forall|i: int| 0 <= i < all.len() implies !pred2(#[trigger] all[i]) by {
        let f = all[i].filename@;
        if executed.contains(f) {
            let j = choose|j: int| 0 <= j < executed.len() && executed[j] == f;
            assert(after[j] == f);
        } else {
            assert(pred(all[i]));
            assert(pend.contains(all[i]));
            let j = choose|j: int| 0 <= j < pend.len() && pend[j] == all[i];
            assert(filenames(pend)[j] == f);
            assert(after[executed.len() + j] == f);
        }
    }
    lemma_filter_keeps_none(all, pred2);
}

/// No two migrations of `ms` share a file name (as in one directory).
pub open spec fn distinct_filenames(ms: Seq<Migration>) -> bool {
    forall|i: int, j: int|
        0 <= i < j < ms.len() ==> (#[trigger] ms[i]).filename@ != (#[trigger] ms[j]).filename@
}

/// What a filter keeps of migrations with distinct file names has
/// distinct file names.
proof fn lemma_filter_distinct(ms: Seq<Migration>, pred: spec_fn(Migration) -> bool)
    requires
        distinct_filenames(ms),
    ensures
        distinct_filenames(ms.filter(pred)),
    decreases ms.len(),
{
    reveal(Seq::filter);
    if ms.len() > 0 {
        let init = ms.drop_last();
        assert(distinct_filenames(init)) by {
            assert forall|i: int, j: int| 0 <= i < j < init.len() implies (#[trigger] init[i]).filename@
                != (#[trigger] init[j]).filename@ by {
                assert(init[i] == ms[i] && init[j] == ms[j]);
            }
        }
        lemma_filter_distinct(init, pred);
        let sub = init.filter(pred);
        if pred(ms.last()) {
            let r = sub.push(ms.last());
            assert forall|i: int, j: int| 0 <= i < j < r.len() implies (#[trigger] r[i]).filename@
                != (#[trigger] r[j]).filename@ by {
                if j == r.len() - 1 {
                    init.lemma_filter_contains_rev(pred, sub[i]);
                    let a = choose|a: int| 0 <= a < init.len() && init[a] == sub[i];
                    assert(ms[a] == sub[i]);
                    assert(ms[ms.len() - 1] == ms.last());
                } else {
                    assert(r[i] == sub[i] && r[j] == sub[j]);
                }
            }
        }
    }
}

/// When a run stops at the `k`-th pending migration (it failed and its
/// transaction was rolled back), the `k` that ran before it are recorded
/// and no longer pending, while it and those after it still are, file
/// names being distinct.
pub proof fn lemma_run_stopped_at(all: Seq<Migration>, executed: Seq<Seq<char>>, k: int)
    requires
        0 <= k <= spec_pending(all, executed).len(),
        distinct_filenames(all),
    ensures
        ({
            let pend = spec_pending(all, executed);
            let left = spec_pending(all, executed + filenames(pend.take(k)));
            &&& forall|i: int| 0 <= i < k ==> !left.contains(#[trigger] pend[i])
            &&& forall|i: int| k <= i < pend.len() ==> left.contains(#[trigger] pend[i])
        }),
{
    let pend = spec_pending(all, executed);
    let done = filenames(pend.take(k));
    let after = executed + done;
    let pred = |m: Migration| !executed.contains(m.filename@);
    let pred2 = |m: Migration| !after.contains(m.filename@);
    let left = all.filter(pred2);
    all.filter_lemma(pred);
    all.filter_lemma(pred2);
    lemma_filter_distinct(all, pred);
    assert forall|i: int| 0 <= i < k implies !left.contains(#[trigger] pend[i]) by {
        if left.contains(pend[i]) {
            all.lemma_filter_contains_rev(pred2, pend[i]);
            assert(done[i] == pend[i].filename@);
            assert(after[executed.len() + i] == pend[i].filename@);
        }
    }
    assert forall|i: int| k <= i < pend.len() implies left.contains(#[trigger] pend[i]) by {
        all.lemma_filter_contains_rev(pred, pend[i]);
        let a = choose|a: int| 0 <= a < all.len() && all[a] == pend[i];
        let f = pend[i].filename@;
        assert(pred(pend[i]));
        if after.contains(f) {
            let j = choose|j: int| 0 <= j < after.len() && after[j] == f;
            if j >= executed.len() {
                let t = j - executed.len();
                assert(done[t] == pend[t].filename@);
                assert(pend[t].filename@ == pend[i].filename@);
            } else {
                assert(executed[j] == f);
            }
        }
        assert(pred2(all[a]));
    }
}

// ---------------------------------------------------------------------
// Content hashes
// ---------------------------------------------------------------------

/// What BLAKE2s-256 gives for the UTF-8 bytes of a text.
pub uninterp spec fn blake2s256_digest(text: Seq<char>) -> Seq<u8>;

/// Calls `Digest::digest` of `blake2::Blake2s256` on the UTF-8 bytes of
/// `text`. The digest is taken to be a function of the text; its output
/// type holds 32 bytes. Nothing else of the hash is claimed.
#[verifier::external_body]
fn blake2s256(text: &str) -> (d: Vec<u8>)
    ensures
        d@ == blake2s256_digest(text@),
        d@.len() == 32,
{
    Blake2s256::digest(text.as_bytes()).to_vec()
}

/// The lower-case hexadecimal digit of `d`, for `d < 16`.
pub open spec fn hex_digit(d: int) -> char {
    if d < 10 {
        ((d + 48) as u32) as char
    } else {
        ((d + 87) as u32) as char
    }
}

/// `bytes` in lower-case hexadecimal, two digits per byte (what
/// `format!("{:x}", ..)` writes for a digest).
pub open spec fn lower_hex(bytes: Seq<u8>) -> Seq<char>
    decreases bytes.len(),
{
    if bytes.len() == 0 {
        seq![]
    } else {
        lower_hex(bytes.drop_last()) + seq![
            hex_digit(bytes.last() as int / 16),
            hex_digit(bytes.last() as int % 16),
        ]
    }
}

/// The hexadecimal digit of `d`.
fn hex_char(d: u8) -> (c: char)
    requires
        d < 16,
    ensures
        c == hex_digit(d as int),
{
    if d < 10 {
        (d + 48) as char
    } else {
        (d + 87) as char
    }
}

/// The lower-case hexadecimal text of `bytes`.
pub fn to_lower_hex(bytes: &Vec<u8>) -> (r: String)
    ensures
        r@ == lower_hex(bytes@),
{
    let mut r = String::new();
    let mut i: usize = 0;
    while i < bytes.len()
        invariant
            i <= bytes@.len(),
            r@ == lower_hex(bytes@.take(i as int)),
        decreases bytes@.len() - i,
    {
        let b = bytes[i];
        push_char(&mut r, hex_char(b / 16));
        push_char(&mut r, hex_char(b % 16));
        proof {
            let t = bytes@.take(i + 1);
            assert(t.drop_last() =~= bytes@.take(i as int));
            assert(t.last() == b);
        }
        assert(r@ =~= lower_hex(bytes@.take(i + 1)));
        i = i + 1;
    }
    assert(bytes@.take(bytes@.len() as int) =~= bytes@);
    r
}

/// The hash of a migration script's text: its BLAKE2s-256 digest in
/// lower-case hexadecimal.
pub open spec fn spec_content_hash(content: Seq<char>) -> Seq<char> {
    lower_hex(blake2s256_digest(content))
}

/// The hash of a migration script's text.
pub fn calculate_content_hash(content: &str) -> (r: String)
    ensures
        r@ == spec_content_hash(content@),
{
    let d = blake2s256(content);
    to_lower_hex(&d)
}

/// Some script of `existing` has the same hash as `content`.
pub open spec fn is_duplicate(content: Seq<char>, existing: Seq<Seq<char>>) -> bool {
    exists|i: int|
        0 <= i < existing.len() && spec_content_hash(#[trigger] existing[i]) == spec_content_hash(
            content,
        )
}

/// Whether a script with text `content` was already written: whether one
/// of the existing scripts (`existing` holds their texts) has the same
/// hash. `Some(())` when it has.
pub fn check_for_duplicate(content: &str, existing: &Vec<String>) -> (r: Option<()>)
    ensures
        r is Some <==> is_duplicate(content@, views(existing@)),
{
    let new_hash = chars_of(calculate_content_hash(content).as_str());
    let mut i: usize = 0;
    while i < existing.len()
        invariant
            i <= existing@.len(),
            new_hash@ == spec_content_hash(content@),
            forall|j: int|
                0 <= j < i ==> spec_content_hash(#[trigger] existing@[j]@) != spec_content_hash(
                    content@,
                ),
        decreases existing@.len() - i,
    {
        let h = chars_of(calculate_content_hash(existing[i].as_str()).as_str());
        if chars_eq(&h, &new_hash) {
            assert(views(existing@)[i as int] == existing@[i as int]@);
            return Some(());
        }
        i = i + 1;
    }
    None
}

/// What `generate` writes, given the texts of the scripts already in the
/// migrations directory: the script of the base tables, unless a script
/// with the same hash is there already.
pub fn generate_plan(existing: &Vec<String>) -> (r: Option<&'static str>)
    ensures
        is_duplicate(spec_base_tables_migration(), views(existing@)) ==> r is None,
        !is_duplicate(spec_base_tables_migration(), views(existing@)) ==> (r matches Some(s) && s@
            == spec_base_tables_migration()),
{
    let script = base_tables_migration();
    match check_for_duplicate(script, existing) {
        Some(()) => None,
        None => Some(script),
    }
}

/// Once a script is written, writing it again is a duplicate, whatever
/// other scripts are added: so a second `generate` adds no file.
pub proof fn lemma_written_script_is_duplicate(
    content: Seq<char>,
    existing: Seq<Seq<char>>,
    later: Seq<Seq<char>>,
)
    ensures
        is_duplicate(content, existing.push(content) + later),
{
    let all = existing.push(content) + later;
    assert(all[existing.len() as int] == content);
}

// ---------------------------------------------------------------------
// A run, migration by migration
// ---------------------------------------------------------------------

/// What a run does after a pending migration's transaction ended.
#[derive(Debug, Clone, Copy, PartialEq, Eq, Structural)]
pub enum RunStep {
    /// Run the pending migration at this position next.
    Next(usize),
    /// Every pending migration ran and is recorded.
    Finished,
    /// The migration failed and was rolled back: the run stops.
    Stopped,
}

/// The decision after the transaction of the `k`-th pending migration
/// ended: when it committed, its file name is recorded and the next one
/// runs (or the run is done); when it failed, nothing is recorded and the
/// run stops.
pub fn record_outcome(pending: &Vec<Migration>, recorded: &mut Vec<String>, k: usize, committed: bool) -> (s: RunStep)
    requires
        k < pending@.len(),
    ensures
        committed ==> views(final(recorded)@) == views(old(recorded)@).push(pending@[k as int].filename@),
        committed ==> s == if k + 1 < pending@.len() {
            RunStep::Next((k + 1) as usize)
        } else {
            RunStep::Finished
        },
        !committed ==> final(recorded)@ == old(recorded)@ && s == RunStep::Stopped,
{
    if committed {
        recorded.push(pending[k].filename.clone());
        assert(views(recorded@) =~= views(old(recorded)@).push(pending@[k as int].filename@));
        if k < pending.len() - 1 {
            RunStep::Next(k + 1)
        } else {
            RunStep::Finished
        }
    } else {
        RunStep::Stopped
    }
}

/// Recording the file names of the first `k` pending migrations, then
/// that of the next, records those of the first `k + 1`: so after `k`
/// commits the recorded names are those run before plus the first `k`
/// pending ones, which `lemma_run_stopped_at` describes when the next one
/// fails.
pub proof fn lemma_commit_extends_record(
    executed: Seq<Seq<char>>,
    pending: Seq<Migration>,
    k: int,
)
    requires
        0 <= k < pending.len(),
    ensures
        (executed + filenames(pending.take(k))).push(pending[k].filename@) == executed + filenames(
            pending.take(k + 1),
        ),
{
    assert(pending.take(k + 1) =~= pending.take(k).push(pending[k]));
    assert(filenames(pending.take(k + 1)) =~= filenames(pending.take(k)).push(pending[k].filename@));
    assert((executed + filenames(pending.take(k))).push(pending[k].filename@) =~= executed
        + filenames(pending.take(k + 1)));
}

} // verus!

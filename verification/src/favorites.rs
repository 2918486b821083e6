//! Favourite searches: what a request to save one is turned into before it
//! is stored, and how a stored one is read back and paired with the
//! strategy of each of its searches.

use vstd::prelude::*;
use crate::datasources::{append_chars, views};
use crate::query::{spec_parse, ParsingError, ParsingErrorView, Query};
use crate::search::append_str;
use crate::text::{chars_of, is_whitespace, is_ws, push_char, string_from_chars};
use crate::ui::{day_time_text, timestamp_from_db, timestamp_text, timestamp_parts, db_timestamp_parse};

verus! {

// ---------------------------------------------------------------------
// JSON lists of strings
// ---------------------------------------------------------------------

/// The lower-case hexadecimal digit of `d` (below 16).
pub open spec fn hex_digit(d: int) -> char {
    if d < 10 {
        ((d + 48) as u32) as char
    } else {
        ((d + 87) as u32) as char
    }
}

/// How a JSON string writes the character `c`: `"` and `\` after a
/// backslash, the control characters with a short escape where JSON has
/// one and as `\u00XX` otherwise, and every other character as itself.
pub open spec fn json_escaped_char(c: char) -> Seq<char> {
    let u = c as u32;
    if c == '"' {
        seq!['\\', '"']
    } else if c == '\\' {
        seq!['\\', '\\']
    } else if u == 0x08 {
        seq!['\\', 'b']
    } else if u == 0x0C {
        seq!['\\', 'f']
    } else if c == '\n' {
        seq!['\\', 'n']
    } else if c == '\r' {
        seq!['\\', 'r']
    } else if c == '\t' {
        seq!['\\', 't']
    } else if u < 0x20 {
        seq!['\\', 'u', '0', '0', hex_digit(u as int / 16), hex_digit(u as int % 16)]
    } else {
        seq![c]
    }
}

/// The characters of `s`, each written as in a JSON string.
pub open spec fn json_escaped(s: Seq<char>) -> Seq<char>
    decreases s.len(),
{
    if s.len() == 0 {
        Seq::empty()
    } else {
        json_escaped(s.drop_last()) + json_escaped_char(s.last())
    }
}

/// What `serde_json::to_string` writes for a list of strings: each string
/// escaped between quotes, separated by commas, between brackets.
pub open spec fn json_string_list(items: Seq<Seq<char>>) -> Seq<char> {
    seq!['['] + joined(items.map_values(|s: Seq<char>| seq!['"'] + json_escaped(s) + seq!['"']), ","@)
        + seq![']']
}

/// What `serde_json::from_str::<Vec<String>>` reads from a text, when it
/// reads a list of strings.
pub uninterp spec fn json_string_list_parse(text: Seq<char>) -> Option<Seq<Seq<char>>>;

/// Calls `serde_json::to_string` on a list of strings. Writing strings
/// cannot fail, so the `Result` is unwrapped; the text is as
/// `json_string_list` states. Claimed besides: `serde_json::from_str::<Vec<String>>` reads
/// the list back from that text, every string escaped as JSON requires.
#[verifier::external_body]
fn to_json_string_list(items: &Vec<String>) -> (r: String)
    ensures
        r@ == json_string_list(views(items@)),
        json_string_list_parse(r@) == Some(views(items@)),
{
    serde_json::to_string(items).unwrap()
}

/// Calls `serde_json::from_str::<Vec<String>>`; an error becomes `None`.
/// What it accepts is named, not restated.
#[verifier::external_body]
fn from_json_string_list(text: &str) -> (r: Option<Vec<String>>)
    ensures
        match r {
            Some(v) => json_string_list_parse(text@) == Some(views(v@)),
            None => json_string_list_parse(text@) is None,
        },
{
    serde_json::from_str::<Vec<String>>(text).ok()
}

// ---------------------------------------------------------------------
// Saving a favourite
// ---------------------------------------------------------------------

/// One search of a favourite: the text searched and its strategy.
#[derive(Debug, Clone)]
pub struct Busquedas {
    pub query: String,
    pub strategy: String,
}

/// A request to save a favourite: its name, the values it shows, and its
/// searches.
#[derive(Debug, Clone)]
pub struct FavParams {
    pub nombre: String,
    pub data: Vec<String>,
    pub busquedas: Vec<Busquedas>,
}

/// What is stored for a favourite: its name, its values joined, and the
/// JSON lists of its searches and of their strategies.
#[derive(Debug, Clone)]
pub struct FavoriteRecord {
    pub nombre: String,
    pub data: String,
    pub busquedas: String,
    pub tipos: String,
}

/// `s` with each whitespace character replaced by `_`.
pub open spec fn underscored(s: Seq<char>) -> Seq<char> {
    s.map_values(|c: char| if is_ws(c) { '_' } else { c })
}

/// The name a favourite is stored under: whitespace becomes `_`.
pub fn favorite_name(nombre: &str) -> (r: String)
    ensures
        r@ == underscored(nombre@),
{
    let v = chars_of(nombre);
    let mut out: Vec<char> = Vec::new();
    let mut i: usize = 0;
    while i < v.len()
        invariant
            i <= v.len(),
            out@ == underscored(v@.take(i as int)),
        decreases v.len() - i,
    {
        let c = if is_whitespace(v[i]) { '_' } else { v[i] };
        out.push(c);
        assert(out@ =~= underscored(v@.take(i + 1)));
        i = i + 1;
    }
    assert(v@.take(v.len() as int) =~= v@);
    string_from_chars(&out)
}

/// `items` joined by `sep`.
pub open spec fn joined(items: Seq<Seq<char>>, sep: Seq<char>) -> Seq<char>
    decreases items.len(),
{
    if items.len() == 0 {
        seq![]
    } else if items.len() == 1 {
        items[0]
    } else {
        joined(items.drop_last(), sep) + sep + items.last()
    }
}

/// `items` joined by `, ` (`[String]::join(", ")`).
pub fn join_comma(items: &Vec<String>) -> (r: String)
    ensures
        r@ == joined(views(items@), ", "@),
{
    let mut r = String::new();
    let mut i: usize = 0;
    while i < items.len()
        invariant
            i <= items@.len(),
            r@ == joined(views(items@.take(i as int)), ", "@),
        decreases items@.len() - i,
    {
        proof {
            assert(views(items@.take(i + 1)).drop_last() =~= views(items@.take(i as int)));
        }
        if i > 0 {
            append_str(&mut r, ", ");
        }
        append_str(&mut r, items[i].as_str());
        i = i + 1;
    }
    assert(items@.take(items@.len() as int) =~= items@);
    r
}

/// The text of a search as a favourite stores it: `query: ` and the
/// search read as a search, keeping only what it searches for.
pub open spec fn stored_query(q: Seq<char>) -> Result<Seq<char>, ParsingErrorView> {
    match spec_parse("query: "@ + q) {
        Ok(parsed) => Ok(parsed.query),
        Err(e) => Err(e),
    }
}

/// The stored texts of `qs`, in order, or the error of the first that
/// cannot be read.
pub open spec fn stored_queries(qs: Seq<Seq<char>>) -> Result<Seq<Seq<char>>, ParsingErrorView>
    decreases qs.len(),
{
    if qs.len() == 0 {
        Ok(seq![])
    } else {
        match stored_queries(qs.drop_last()) {
            Ok(done) => match stored_query(qs.last()) {
                Ok(q) => Ok(done.push(q)),
                Err(e) => Err(e),
            },
            Err(e) => Err(e),
        }
    }
}

/// The searched texts of the searches of a favourite.
pub open spec fn busqueda_queries(bs: Seq<Busquedas>) -> Seq<Seq<char>> {
    bs.map_values(|b: Busquedas| b.query@)
}

/// The strategies of the searches of a favourite.
pub open spec fn busqueda_strategies(bs: Seq<Busquedas>) -> Seq<Seq<char>> {
    bs.map_values(|b: Busquedas| b.strategy@)
}

/// What is stored for a favourite request, or the error of the first of
/// its searches that cannot be read.
pub open spec fn spec_favorite_record(p: FavParams) -> Result<
    (Seq<char>, Seq<char>, Seq<char>, Seq<char>),
    ParsingErrorView,
> {
    match stored_queries(busqueda_queries(p.busquedas@)) {
        Ok(qs) => Ok(
            (
                underscored(p.nombre@),
                joined(views(p.data@), ", "@),
                json_string_list(qs),
                json_string_list(busqueda_strategies(p.busquedas@)),
            ),
        ),
        Err(e) => Err(e),
    }
}

impl FavoriteRecord {
    /// The stored parts, as values.
    pub open spec fn parts(&self) -> (Seq<char>, Seq<char>, Seq<char>, Seq<char>) {
        (self.nombre@, self.data@, self.busquedas@, self.tipos@)
    }
}

/// Turns a request to save a favourite into what is stored: the name with
/// whitespace made `_`, the values joined by `, `, and the JSON lists of
/// the searched texts (each search read with `query: ` before it) and of
/// the strategies. A search that cannot be read gives its error.
pub fn favorite_record(params: &FavParams) -> (r: Result<FavoriteRecord, ParsingError>)
    ensures
        match r {
            Ok(rec) => {
                &&& spec_favorite_record(*params) == Ok::<_, ParsingErrorView>(rec.parts())
                &&& json_string_list_parse(rec.busquedas@) == Some(
                    stored_queries(busqueda_queries(params.busquedas@))->Ok_0,
                )
                &&& json_string_list_parse(rec.tipos@) == Some(busqueda_strategies(params.busquedas@))
            },
            Err(e) => spec_favorite_record(*params) == Err::<(Seq<char>, Seq<char>, Seq<char>, Seq<char>), _>(e@),
        },
{
    let ghost qs = busqueda_queries(params.busquedas@);
    let mut queries: Vec<String> = Vec::new();
    let mut strategies: Vec<String> = Vec::new();
    let mut i: usize = 0;
    assert(qs.take(0) =~= Seq::<Seq<char>>::empty());
    assert(views(queries@) =~= Seq::<Seq<char>>::empty());
    assert(busqueda_strategies(params.busquedas@.take(0)) =~= Seq::<Seq<char>>::empty());
    while i < params.busquedas.len()
        invariant
            i <= params.busquedas@.len(),
            qs == busqueda_queries(params.busquedas@),
            stored_queries(qs.take(i as int)) == Ok::<_, ParsingErrorView>(views(queries@)),
            views(strategies@) == busqueda_strategies(params.busquedas@.take(i as int)),
        decreases params.busquedas@.len() - i,
    {
        let b = &params.busquedas[i];
        let mut text = String::from_str("query: ");
        append_str(&mut text, b.query.as_str());
        proof {
            assert(qs.take(i + 1).drop_last() =~= qs.take(i as int));
            assert(qs.take(i + 1).last() == b.query@);
        }
        match Query::parse(text.as_str()) {
            Ok(parsed) => {
                let ghost old_q = queries@;
                queries.push(parsed.query);
                assert(views(queries@) =~= views(old_q).push(parsed@.query));
            },
            Err(e) => {
                proof {
                    lemma_stored_queries_err(qs, i as int + 1, e@);
                }
                return Err(e);
            },
        }
        let ghost old_s = strategies@;
        strategies.push(String::from_str(b.strategy.as_str()));
        assert(params.busquedas@.take(i + 1) =~= params.busquedas@.take(i as int).push(*b));
        assert(views(strategies@) =~= views(old_s).push(b.strategy@));
        assert(views(strategies@) =~= busqueda_strategies(params.busquedas@.take(i + 1)));
        i = i + 1;
    }
    assert(qs.take(params.busquedas@.len() as int) =~= qs);
    assert(params.busquedas@.take(params.busquedas@.len() as int) =~= params.busquedas@);
    let nombre = favorite_name(params.nombre.as_str());
    let data = join_comma(&params.data);
    let busquedas = to_json_string_list(&queries);
    let tipos = to_json_string_list(&strategies);
    Ok(FavoriteRecord { nombre, data, busquedas, tipos })
}

/// Once the searches up to `k` fail with `e`, so do all of them.
proof fn lemma_stored_queries_err(qs: Seq<Seq<char>>, k: int, e: ParsingErrorView)
    requires
        0 < k <= qs.len(),
        stored_queries(qs.take(k)) == Err::<Seq<Seq<char>>, _>(e),
    ensures
        stored_queries(qs) == Err::<Seq<Seq<char>>, _>(e),
    decreases qs.len() - k,
{
    if k < qs.len() {
        assert(qs.take(k + 1).drop_last() =~= qs.take(k));
        lemma_stored_queries_err(qs, k + 1, e);
    } else {
        assert(qs.take(k) =~= qs);
    }
}

// ---------------------------------------------------------------------
// Reading favourites back
// ---------------------------------------------------------------------

/// A saved search as the client receives it: each search paired with its
/// strategy, and the day and time it was saved.
#[derive(Debug, Clone)]
pub struct Resultados {
    pub id: u64,
    pub nombre: String,
    pub data: String,
    pub busquedas: Vec<(String, String)>,
    pub fecha: String,
}

/// The saved searches sent to the client.
#[derive(Debug, Clone)]
pub struct FavoritosClient {
    pub favoritos: Vec<Resultados>,
}

/// The pairs of a list of string pairs, as values.
pub open spec fn pair_views(ps: Seq<(String, String)>) -> Seq<(Seq<char>, Seq<char>)> {
    ps.map_values(|p: (String, String)| (p.0@, p.1@))
}

/// `a` and `b` zipped: pairs of the elements at the same place, as many as
/// the shorter has.
pub open spec fn zipped(a: Seq<Seq<char>>, b: Seq<Seq<char>>) -> Seq<(Seq<char>, Seq<char>)> {
    Seq::new(
        if a.len() <= b.len() {
            a.len()
        } else {
            b.len()
        },
        |i: int| (a[i], b[i]),
    )
}

/// Each search paired with the strategy at the same place; extra items of
/// the longer list are dropped (`Iterator::zip`).
pub fn pair_searches(busquedas: &Vec<String>, tipos: &Vec<String>) -> (r: Vec<(String, String)>)
    ensures
        pair_views(r@) == zipped(views(busquedas@), views(tipos@)),
{
    let n = if busquedas.len() <= tipos.len() {
        busquedas.len()
    } else {
        tipos.len()
    };
    let mut r: Vec<(String, String)> = Vec::new();
    let mut i: usize = 0;
    while i < n
        invariant
            i <= n,
            n <= busquedas.len(),
            n <= tipos.len(),
            pair_views(r@) =~= zipped(views(busquedas@), views(tipos@)).take(i as int),
            n == zipped(views(busquedas@), views(tipos@)).len(),
        decreases n - i,
    {
        let a = String::from_str(busquedas[i].as_str());
        let b = String::from_str(tipos[i].as_str());
        let ghost old_r = r@;
        r.push((a, b));
        proof {
            let z = zipped(views(busquedas@), views(tipos@));
            assert(pair_views(r@) =~= pair_views(old_r).push((busquedas@[i as int]@, tipos@[i as int]@)));
            assert(z.take(i + 1) =~= z.take(i as int).push(z[i as int]));
        }
        i = i + 1;
    }
    assert(zipped(views(busquedas@), views(tipos@)).take(n as int) =~= zipped(views(busquedas@), views(tipos@)));
    r
}

/// The favourite as the client receives it.
pub fn client_view(f: &crate::ui::Resultados) -> (r: Resultados)
    ensures
        r.id == f.id,
        r.nombre@ == f.nombre@,
        r.data@ == f.data@,
        r.fecha@ == f.fecha@,
        pair_views(r.busquedas@) == zipped(views(f.busquedas@), views(f.tipos@)),
{
    Resultados {
        id: f.id,
        nombre: String::from_str(f.nombre.as_str()),
        data: String::from_str(f.data.as_str()),
        busquedas: pair_searches(&f.busquedas, &f.tipos),
        fecha: String::from_str(f.fecha.as_str()),
    }
}

/// All the favourites as the client receives them, in order.
pub fn favorites_for_client(f: &crate::ui::Favoritos) -> (r: FavoritosClient)
    ensures
        r.favoritos@.len() == f.favoritos@.len(),
        forall|i: int|
            0 <= i < f.favoritos@.len() ==> {
                let a = #[trigger] r.favoritos@[i];
                let b = f.favoritos@[i];
                &&& a.id == b.id
                &&& a.nombre@ == b.nombre@
                &&& a.data@ == b.data@
                &&& a.fecha@ == b.fecha@
                &&& pair_views(a.busquedas@) == zipped(views(b.busquedas@), views(b.tipos@))
            },
{
    let mut out: Vec<Resultados> = Vec::new();
    let mut i: usize = 0;
    while i < f.favoritos.len()
        invariant
            i <= f.favoritos@.len(),
            out@.len() == i,
            forall|j: int|
                0 <= j < i ==> {
                    let a = #[trigger] out@[j];
                    let b = f.favoritos@[j];
                    &&& a.id == b.id
                    &&& a.nombre@ == b.nombre@
                    &&& a.data@ == b.data@
                    &&& a.fecha@ == b.fecha@
                    &&& pair_views(a.busquedas@) == zipped(views(b.busquedas@), views(b.tipos@))
                },
        decreases f.favoritos@.len() - i,
    {
        out.push(client_view(&f.favoritos[i]));
        i = i + 1;
    }
    FavoritosClient { favoritos: out }
}

/// A stored favourite read back from its columns: the JSON lists of its
/// searches and strategies are read and paired, and its timestamp is
/// written `%b %d, %Y %H:%M` (midnight of 1 January 1970 when it cannot
/// be read). `None` when either list cannot be read.
pub fn favorite_from_row(
    id: u64,
    nombre: String,
    data: String,
    timestamp: &str,
    busquedas: &str,
    tipos: &str,
) -> (r: Option<Resultados>)
    ensures
        match (json_string_list_parse(busquedas@), json_string_list_parse(tipos@)) {
            (Some(bs), Some(ts)) => match r {
                Some(f) => {
                    &&& f.id == id
                    &&& f.nombre == nombre
                    &&& f.data == data
                    &&& pair_views(f.busquedas@) == zipped(bs, ts)
                    &&& f.fecha@ == {
                        let p = match db_timestamp_parse(timestamp@) {
                            Some(p) => p,
                            None => (1970int, 1int, 1int, 0int, 0int, 0int),
                        };
                        timestamp_text(p.0, p.1, p.2, p.3, p.4, p.5, "%b %d, %Y %H:%M"@)
                    }
                },
                None => false,
            },
            _ => r is None,
        },
{
    let bs = match from_json_string_list(busquedas) {
        Some(v) => v,
        None => {
            return None;
        },
    };
    let ts = match from_json_string_list(tipos) {
        Some(v) => v,
        None => {
            return None;
        },
    };
    let t = timestamp_from_db(timestamp);
    let fecha = day_time_text(&t);
    Some(Resultados { id, nombre, data, busquedas: pair_searches(&bs, &ts), fecha })
}

} // verus!

//! The searches of the first version of the server, which searched one
//! fixed table of people (`tnea`): the SQL text of each strategy and the
//! values bound to it, in order.

use vstd::prelude::*;
use crate::common::SearchString;
use crate::search::{append_str, sql_values, SearchStrategy, SqlValue};
use crate::text::{chars_of, push_decimal, string_from_range, trim, trim_range};
use crate::ui::Sexo;

verus! {

/// The full-text search of the table.
pub open spec fn tnea_fts_base() -> Seq<char> {
    "select
                    rank as score,
                    email,
                    provincia,
                    ciudad,
                    edad,
                    sexo,
                    highlight(fts_tnea, 0, '<b style=\"color: green;\">', '</b>') as input,
                    'fts' as match_type
                    from fts_tnea
                    where vec_input match '\"' || :query || '\"'
                    "@
}

/// The embedding search of the table.
pub open spec fn tnea_semantic_base() -> Seq<char> {
    "
                select
                    vec_tnea.distance,
                    tnea.email,
                    tnea.provincia,
                    tnea.ciudad,
                    tnea.edad,
                    tnea.sexo,
                    tnea.vec_input,
                    'vec' as match_type
                from vec_tnea
                left join tnea on tnea.id = vec_tnea.row_id
                where vec_input_embedding match :embedding
                and k = 1000
                "@
}

/// The fused search of the table, up to its filters.
pub open spec fn tnea_rrf_base() -> Seq<char> {
    "
            with vec_matches as (
                select
                    row_id,
                    row_number() over (order by distance) as rank_number,
                    distance
                from vec_tnea
                where
                    vec_input_embedding match :embedding
                    and k = :k
                ),

            fts_matches as (
                select
                    rowid as row_id,
                    row_number() over (order by rank) as rank_number,
                    rank as score
                from fts_tnea
                where vec_input match '\"' || :query || '\"'
                ),

            final as (
                select
                    tnea.email,
                    tnea.edad,
                    tnea.sexo,
                    tnea.provincia, 
                    tnea.ciudad,
                    tnea.vec_input,
                    vec_matches.rank_number as vec_rank,
                    fts_matches.rank_number as fts_rank,
                    (
                        coalesce(1.0 / (:rrf_k + fts_matches.rank_number), 0.0) * :weight_fts +
                        coalesce(1.0 / (:rrf_k + vec_matches.rank_number), 0.0) * :weight_vec
                    ) as combined_rank,
                    vec_matches.distance as vec_distance,
                    fts_matches.score as fts_score
                from fts_matches
                full outer join vec_matches on vec_matches.row_id = fts_matches.row_id
                join tnea on tnea.id = coalesce(fts_matches.row_id, vec_matches.row_id)
                where cast(tnea.edad as integer) between :edad_min and :edad_max
            "@
}

/// The filters added to a search of the table, each with the values it
/// binds: the age range when `with_age` (the fused search has it already),
/// the province and city when the search names them (qualified by the
/// table when `qualified`), and the sex unless it is left open.
pub open spec fn tnea_filters(
    with_age: bool,
    qualified: bool,
    has_provincia: bool,
    has_ciudad: bool,
    sexo: Sexo,
) -> Seq<char> {
    (if with_age {
        " and cast(edad as integer) between :edad_min and :edad_max "@
    } else {
        Seq::empty()
    }) + (if has_provincia {
        if qualified {
            " and tnea.provincia like :provincia"@
        } else {
            " and provincia like :provincia"@
        }
    } else {
        Seq::empty()
    }) + (if has_ciudad {
        if qualified {
            " and tnea.ciudad like :ciudad"@
        } else {
            " and ciudad like :ciudad"@
        }
    } else {
        Seq::empty()
    }) + (if sexo != Sexo::U {
        " and sexo = :sexo"@
    } else {
        Seq::empty()
    })
}

/// The SQL text of a search of the table with `strategy`.
pub open spec fn spec_tnea_sql(strategy: SearchStrategy, has_provincia: bool, has_ciudad: bool, sexo: Sexo) -> Seq<char> {
    match strategy {
        SearchStrategy::Fts => tnea_fts_base() + tnea_filters(true, false, has_provincia, has_ciudad, sexo)
            + " order by rank"@,
        SearchStrategy::Semantic => tnea_semantic_base() + tnea_filters(
            true,
            true,
            has_provincia,
            has_ciudad,
            sexo,
        ),
        SearchStrategy::ReciprocalRankFusion => tnea_rrf_base() + tnea_filters(
            false,
            true,
            has_provincia,
            has_ciudad,
            sexo,
        ) + " order by combined_rank desc "@ + ") \n                    select * from final;"@,
    }
}

/// The values bound to the filters, in order.
pub open spec fn tnea_filter_values(
    with_age: bool,
    edad_min: u64,
    edad_max: u64,
    provincia: Option<Seq<char>>,
    ciudad: Option<Seq<char>>,
    sexo: Sexo,
) -> Seq<crate::search::SqlValueView> {
    (if with_age {
        seq![
            crate::search::SqlValueView::Unsigned(edad_min as nat),
            crate::search::SqlValueView::Unsigned(edad_max as nat),
        ]
    } else {
        Seq::empty()
    }) + (match provincia {
        Some(p) => seq![crate::search::SqlValueView::Text(p)],
        None => Seq::empty(),
    }) + (match ciudad {
        Some(c) => seq![crate::search::SqlValueView::Text(c)],
        None => Seq::empty(),
    }) + (if sexo != Sexo::U {
        seq![crate::search::SqlValueView::Text(sexo_text(sexo))]
    } else {
        Seq::empty()
    })
}

/// The text a sex is stored as.
pub open spec fn sexo_text(s: Sexo) -> Seq<char> {
    match s {
        Sexo::F => "F"@,
        Sexo::M => "M"@,
        Sexo::U => "U"@,
    }
}

/// The values bound to a search of the table, in order: what the search
/// matches first (the searched text, or the query's embedding, or for the
/// fused search the embedding, the number of neighbours, the text, the
/// fusion constant 60, the two weights and the age range), then the
/// values of the filters.
pub open spec fn spec_tnea_values(
    strategy: SearchStrategy,
    search: crate::common::SearchStringView,
    edad_min: u64,
    edad_max: u64,
    sexo: Sexo,
    embedding: Seq<u8>,
    k: u64,
) -> Seq<crate::search::SqlValueView> {
    let query = trim(search.query);
    match strategy {
        SearchStrategy::Fts => seq![crate::search::SqlValueView::Text(query)] + tnea_filter_values(
            true,
            edad_min,
            edad_max,
            search.provincia,
            search.ciudad,
            sexo,
        ),
        SearchStrategy::Semantic => seq![crate::search::SqlValueView::Blob(embedding)]
            + tnea_filter_values(true, edad_min, edad_max, search.provincia, search.ciudad, sexo),
        SearchStrategy::ReciprocalRankFusion => seq![
            crate::search::SqlValueView::Blob(embedding),
            crate::search::SqlValueView::Unsigned(k as nat),
            crate::search::SqlValueView::Text(query),
            crate::search::SqlValueView::Integer(60),
            crate::search::SqlValueView::FtsWeight,
            crate::search::SqlValueView::SemanticWeight,
            crate::search::SqlValueView::Unsigned(edad_min as nat),
            crate::search::SqlValueView::Unsigned(edad_max as nat),
        ] + tnea_filter_values(false, edad_min, edad_max, search.provincia, search.ciudad, sexo),
    }
}

/// Appends the filters and their values.
fn push_filters(
    sql: &mut String,
    values: &mut Vec<SqlValue>,
    with_age: bool,
    qualified: bool,
    search: &SearchString,
    edad_min: u64,
    edad_max: u64,
    sexo: Sexo,
)
    ensures
        final(sql)@ == old(sql)@ + tnea_filters(
            with_age,
            qualified,
            search.provincia is Some,
            search.ciudad is Some,
            sexo,
        ),
        sql_values(final(values)@) == sql_values(old(values)@) + tnea_filter_values(
            with_age,
            edad_min,
            edad_max,
            search@.provincia,
            search@.ciudad,
            sexo,
        ),
{
    let ghost sql0 = sql@;
    let ghost values0 = sql_values(values@);
    if with_age {
        append_str(sql, " and cast(edad as integer) between :edad_min and :edad_max ");
        values.push(SqlValue::Unsigned(edad_min));
        values.push(SqlValue::Unsigned(edad_max));
    }
    let ghost age_sql = if with_age {
        " and cast(edad as integer) between :edad_min and :edad_max "@
    } else {
        Seq::<char>::empty()
    };
    let ghost age_values = if with_age {
        seq![
            crate::search::SqlValueView::Unsigned(edad_min as nat),
            crate::search::SqlValueView::Unsigned(edad_max as nat),
        ]
    } else {
        Seq::<crate::search::SqlValueView>::empty()
    };
    assert(sql@ =~= sql0 + age_sql);
    assert(sql_values(values@) =~= values0 + age_values);
    let ghost sql1 = sql@;
    let ghost values1 = sql_values(values@);
    match &search.provincia {
        Some(p) => {
            if qualified {
                append_str(sql, " and tnea.provincia like :provincia");
            } else {
                append_str(sql, " and provincia like :provincia");
            }
            values.push(SqlValue::Text(String::from_str(p.as_str())));
        },
        None => {},
    }
    let ghost prov_sql = if search.provincia is Some {
        if qualified {
            " and tnea.provincia like :provincia"@
        } else {
            " and provincia like :provincia"@
        }
    } else {
        Seq::<char>::empty()
    };
    let ghost prov_values = match search@.provincia {
        Some(p) => seq![crate::search::SqlValueView::Text(p)],
        None => Seq::<crate::search::SqlValueView>::empty(),
    };
    assert(sql@ =~= sql1 + prov_sql);
    assert(sql_values(values@) =~= values1 + prov_values);
    let ghost sql2 = sql@;
    let ghost values2 = sql_values(values@);
    match &search.ciudad {
        Some(c) => {
            if qualified {
                append_str(sql, " and tnea.ciudad like :ciudad");
            } else {
                append_str(sql, " and ciudad like :ciudad");
            }
            values.push(SqlValue::Text(String::from_str(c.as_str())));
        },
        None => {},
    }
    let ghost city_sql = if search.ciudad is Some {
        if qualified {
            " and tnea.ciudad like :ciudad"@
        } else {
            " and ciudad like :ciudad"@
        }
    } else {
        Seq::<char>::empty()
    };
    let ghost city_values = match search@.ciudad {
        Some(c) => seq![crate::search::SqlValueView::Text(c)],
        None => Seq::<crate::search::SqlValueView>::empty(),
    };
    assert(sql@ =~= sql2 + city_sql);
    assert(sql_values(values@) =~= values2 + city_values);
    let ghost sql3 = sql@;
    let ghost values3 = sql_values(values@);
    let open_sex = match sexo {
        Sexo::U => true,
        _ => false,
    };
    if !open_sex {
        append_str(sql, " and sexo = :sexo");
        values.push(SqlValue::Text(String::from_str(sexo.sql_text())));
    }
    let ghost sex_sql = if sexo != Sexo::U {
        " and sexo = :sexo"@
    } else {
        Seq::<char>::empty()
    };
    let ghost sex_values = if sexo != Sexo::U {
        seq![crate::search::SqlValueView::Text(sexo_text(sexo))]
    } else {
        Seq::<crate::search::SqlValueView>::empty()
    };
    assert(sql@ =~= sql3 + sex_sql);
    assert(sql_values(values@) =~= values3 + sex_values);
    proof {
        assert(tnea_filters(with_age, qualified, search.provincia is Some, search.ciudad is Some, sexo)
            == age_sql + prov_sql + city_sql + sex_sql);
        assert(sql@ =~= old(sql)@ + (age_sql + prov_sql + city_sql + sex_sql));
        assert(tnea_filter_values(with_age, edad_min, edad_max, search@.provincia, search@.ciudad, sexo)
            == age_values + prov_values + city_values + sex_values);
        assert(sql_values(values@) =~= sql_values(old(values)@) + (age_values + prov_values
            + city_values + sex_values));
    }
}

/// The SQL text of a search of the table and the values bound to it. The
/// embedding is bound only by the searches that use it.
pub fn tnea_search(
    strategy: SearchStrategy,
    search: &SearchString,
    edad_min: u64,
    edad_max: u64,
    sexo: Sexo,
    embedding: &Vec<u8>,
    k: u64,
) -> (r: (String, Vec<SqlValue>))
    ensures
        r.0@ == spec_tnea_sql(strategy, search.provincia is Some, search.ciudad is Some, sexo),
        sql_values(r.1@) == spec_tnea_values(strategy, search@, edad_min, edad_max, sexo, embedding@, k),
{
    let q = chars_of(search.query.as_str());
    let (a, b) = trim_range(&q, 0, q.len());
    assert(q@.subrange(0, q@.len() as int) =~= q@);
    let query = string_from_range(&q, a, b);
    let mut sql = String::new();
    let mut values: Vec<SqlValue> = Vec::new();
    match strategy {
        SearchStrategy::Fts => {
            append_str(&mut sql, "select
                    rank as score,
                    email,
                    provincia,
                    ciudad,
                    edad,
                    sexo,
                    highlight(fts_tnea, 0, '<b style=\"color: green;\">', '</b>') as input,
                    'fts' as match_type
                    from fts_tnea
                    where vec_input match '\"' || :query || '\"'
                    ");
            values.push(SqlValue::Text(query));
            push_filters(&mut sql, &mut values, true, false, search, edad_min, edad_max, sexo);
            append_str(&mut sql, " order by rank");
        },
        SearchStrategy::Semantic => {
            append_str(&mut sql, "
                select
                    vec_tnea.distance,
                    tnea.email,
                    tnea.provincia,
                    tnea.ciudad,
                    tnea.edad,
                    tnea.sexo,
                    tnea.vec_input,
                    'vec' as match_type
                from vec_tnea
                left join tnea on tnea.id = vec_tnea.row_id
                where vec_input_embedding match :embedding
                and k = 1000
                ");
            values.push(SqlValue::Blob(copy_bytes(embedding)));
            push_filters(&mut sql, &mut values, true, true, search, edad_min, edad_max, sexo);
        },
        SearchStrategy::ReciprocalRankFusion => {
            append_str(&mut sql, "
            with vec_matches as (
                select
                    row_id,
                    row_number() over (order by distance) as rank_number,
                    distance
                from vec_tnea
                where
                    vec_input_embedding match :embedding
                    and k = :k
                ),

            fts_matches as (
                select
                    rowid as row_id,
                    row_number() over (order by rank) as rank_number,
                    rank as score
                from fts_tnea
                where vec_input match '\"' || :query || '\"'
                ),

            final as (
                select
                    tnea.email,
                    tnea.edad,
                    tnea.sexo,
                    tnea.provincia, 
                    tnea.ciudad,
                    tnea.vec_input,
                    vec_matches.rank_number as vec_rank,
                    fts_matches.rank_number as fts_rank,
                    (
                        coalesce(1.0 / (:rrf_k + fts_matches.rank_number), 0.0) * :weight_fts +
                        coalesce(1.0 / (:rrf_k + vec_matches.rank_number), 0.0) * :weight_vec
                    ) as combined_rank,
                    vec_matches.distance as vec_distance,
                    fts_matches.score as fts_score
                from fts_matches
                full outer join vec_matches on vec_matches.row_id = fts_matches.row_id
                join tnea on tnea.id = coalesce(fts_matches.row_id, vec_matches.row_id)
                where cast(tnea.edad as integer) between :edad_min and :edad_max
            ");
            values.push(SqlValue::Blob(copy_bytes(embedding)));
            values.push(SqlValue::Unsigned(k));
            values.push(SqlValue::Text(query));
            values.push(SqlValue::Integer(60));
            values.push(SqlValue::FtsWeight);
            values.push(SqlValue::SemanticWeight);
            values.push(SqlValue::Unsigned(edad_min));
            values.push(SqlValue::Unsigned(edad_max));
            push_filters(&mut sql, &mut values, false, true, search, edad_min, edad_max, sexo);
            append_str(&mut sql, " order by combined_rank desc ");
            append_str(&mut sql, ") \n                    select * from final;");
        },
    }
    proof {
        assert(sql@ =~= spec_tnea_sql(strategy, search.provincia is Some, search.ciudad is Some, sexo));
        assert(sql_values(values@) =~= spec_tnea_values(
            strategy,
            search@,
            edad_min,
            edad_max,
            sexo,
            embedding@,
            k,
        ));
    }
    (sql, values)
}

/// A copy of `bytes`.
fn copy_bytes(bytes: &Vec<u8>) -> (r: Vec<u8>)
    ensures
        r@ == bytes@,
{
    let mut r: Vec<u8> = Vec::new();
    let mut i: usize = 0;
    while i < bytes.len()
        invariant
            i <= bytes@.len(),
            r@ =~= bytes@.take(i as int),
        decreases bytes@.len() - i,
    {
        r.push(bytes[i]);
        i = i + 1;
    }
    assert(bytes@.take(bytes@.len() as int) =~= bytes@);
    r
}

/// The message above the results: `Hay un total de <n> resultados.`
pub open spec fn spec_results_message(total: u64) -> Seq<char> {
    "Hay un total de "@ + crate::text::decimal(total as nat) + " resultados."@
}

/// The message above the results of a search that found `total` rows.
pub fn results_message(total: u64) -> (r: String)
    ensures
        r@ == spec_results_message(total),
{
    let mut r = String::from_str("Hay un total de ");
    push_decimal(&mut r, total);
    append_str(&mut r, " resultados.");
    r
}

} // verus!

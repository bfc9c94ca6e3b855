//! Turning request parameters into a filter, and a filter into SQL.
use vstd::prelude::*;
use crate::dates::normalize_since_input;
use crate::error::PaiError;
use crate::item::{opt_view, ListFilter};
use crate::kind::SourceKind;
use crate::text::{joined, chars_of, owned, push_char, trim, trim_str};

verus! {

broadcast use vstd::string::group_string_axioms;

/// The page size of the HTTP API when a request sets none.
pub const DEFAULT_LIMIT: usize = 20;

/// A limit must be greater than zero.
pub fn ensure_positive_limit(limit: usize) -> (r: Result<usize, PaiError>)
    ensures
        limit == 0 ==> r matches Err(PaiError::InvalidArgument(_)),
        limit > 0 ==> r == Ok::<usize, PaiError>(limit),
{
    if limit == 0 {
        return Err(PaiError::InvalidArgument(owned("Limit must be greater than zero")));
    }
    Ok(limit)
}

/// An optional limit, when present, must be greater than zero.
pub fn ensure_optional_limit(limit: Option<usize>) -> (r: Result<Option<usize>, PaiError>)
    ensures
        limit == Some(0usize) ==> r matches Err(PaiError::InvalidArgument(_)),
        limit != Some(0usize) ==> r == Ok::<Option<usize>, PaiError>(limit),
{
    match limit {
        Some(value) => match ensure_positive_limit(value) {
            Ok(v) => Ok(Some(v)),
            Err(e) => Err(e),
        },
        None => Ok(None),
    }
}

/// A parameter trimmed of white space, or nothing when it is blank.
pub open spec fn normalized_opt(v: Option<Seq<char>>) -> Option<Seq<char>> {
    match v {
        Some(s) => if trim(s).len() == 0 {
            None
        } else {
            Some(trim(s))
        },
        None => None,
    }
}

/// Trims a parameter; a blank one counts as absent.
pub fn normalize_optional_string(value: Option<String>) -> (r: Option<String>)
    ensures
        opt_view(r) == normalized_opt(opt_view(value)),
{
    match value {
        Some(input) => {
            let trimmed = trim_str(input.as_str());
            if trimmed.as_str().unicode_len() == 0 {
                None
            } else {
                Some(trimmed)
            }
        },
        None => None,
    }
}

/// The parameters of a feed request over HTTP.
#[derive(Debug, Clone)]
pub struct FeedQuery {
    pub source_kind: Option<SourceKind>,
    pub source_id: Option<String>,
    pub limit: Option<usize>,
    pub since: Option<String>,
    pub q: Option<String>,
}

impl Default for FeedQuery {
    fn default() -> (r: FeedQuery)
        ensures
            r.source_kind is None,
            r.source_id is None,
            r.limit is None,
            r.since is None,
            r.q is None,
    {
        FeedQuery { source_kind: None, source_id: None, limit: None, since: None, q: None }
    }
}

impl FeedQuery {
    /// The filter of the request: a zero limit is an invalid argument, no limit means
    /// `DEFAULT_LIMIT`, and blank text parameters count as absent. `since` is kept as
    /// written, trimmed.
    pub fn into_filter(self) -> (r: Result<ListFilter, PaiError>)
        ensures
            self.limit == Some(0usize) ==> r matches Err(PaiError::InvalidArgument(_)),
            self.limit != Some(0usize) ==> r is Ok && ({
                let f = r->Ok_0;
                &&& f.source_kind == self.source_kind
                &&& opt_view(f.source_id) == normalized_opt(opt_view(self.source_id))
                &&& f.limit == Some(
                    match self.limit {
                        Some(k) => k,
                        None => DEFAULT_LIMIT,
                    },
                )
                &&& opt_view(f.since) == normalized_opt(opt_view(self.since))
                &&& opt_view(f.query) == normalized_opt(opt_view(self.q))
            }),
    {
        let limit = match self.limit {
            Some(value) => ensure_positive_limit(value)?,
            None => DEFAULT_LIMIT,
        };
        Ok(
            ListFilter {
                source_kind: self.source_kind,
                source_id: normalize_optional_string(self.source_id),
                limit: Some(limit),
                since: normalize_optional_string(self.since),
                query: normalize_optional_string(self.q),
            },
        )
    }

    /// As `into_filter`, but `since` is read as a time (see `normalize_since_input`) and
    /// written in RFC 3339 UTC; an unreadable `since` is an invalid argument.
    pub fn into_normalized_filter(self) -> (r: Result<ListFilter, PaiError>)
        ensures
            self.limit == Some(0usize) ==> r matches Err(PaiError::InvalidArgument(_)),
            r is Ok ==> ({
                let f = r->Ok_0;
                &&& f.source_kind == self.source_kind
                &&& opt_view(f.source_id) == normalized_opt(opt_view(self.source_id))
                &&& f.limit == Some(
                    match self.limit {
                        Some(k) => k,
                        None => DEFAULT_LIMIT,
                    },
                )
                &&& opt_view(f.query) == normalized_opt(opt_view(self.q))
            }),
    {
        let limit = match self.limit {
            Some(value) => ensure_positive_limit(value)?,
            None => DEFAULT_LIMIT,
        };
        let since = normalize_since_input(self.since)?;
        Ok(
            ListFilter {
                source_kind: self.source_kind,
                source_id: normalize_optional_string(self.source_id),
                limit: Some(limit),
                since,
                query: normalize_optional_string(self.q),
            },
        )
    }
}

/// A value bound to a `?` of a query.
#[derive(Debug, Clone)]
pub enum SqlValue {
    Text(String),
    Integer(i64),
}

/// A bound value as a mathematical value.
pub ghost enum SqlValueView {
    Text(Seq<char>),
    Integer(int),
}

impl View for SqlValue {
    type V = SqlValueView;

    open spec fn view(&self) -> SqlValueView {
        match self {
            SqlValue::Text(s) => SqlValueView::Text(s@),
            SqlValue::Integer(i) => SqlValueView::Integer(*i as int),
        }
    }
}

/// A query text with the values for its `?` placeholders, in order.
#[derive(Debug, Clone)]
pub struct ListQuery {
    pub sql: String,
    pub params: Vec<SqlValue>,
}

pub open spec fn sql_values_view(v: Seq<SqlValue>) -> Seq<SqlValueView> {
    v.map_values(|x: SqlValue| x@)
}

/// `q` with each `%`, `_` and `\` escaped by a `\`, for a LIKE pattern.
pub open spec fn like_escaped(q: Seq<char>) -> Seq<char>
    decreases q.len(),
{
    if q.len() == 0 {
        Seq::empty()
    } else {
        let before = like_escaped(q.drop_last());
        let c = q.last();
        if c == '%' || c == '_' || c == '\\' {
            before.push('\\').push(c)
        } else {
            before.push(c)
        }
    }
}

/// The LIKE pattern that matches text containing `q`.
pub open spec fn like_pattern(q: Seq<char>) -> Seq<char> {
    seq!['%'] + like_escaped(q) + seq!['%']
}

/// Writes the LIKE pattern that matches text containing `q` literally.
pub fn like_pattern_of(q: &str) -> (r: String)
    ensures
        r@ == like_pattern(q@),
{
    let cs = chars_of(q);
    let mut out = String::new();
    push_char(&mut out, '%');
    let mut i: usize = 0;
    assert(q@.take(0) =~= Seq::<char>::empty());
    while i < cs.len()
        invariant
            cs@ == q@,
            i <= cs@.len(),
            out@ == seq!['%'] + like_escaped(q@.take(i as int)),
        decreases cs.len() - i,
    {
        let c = cs[i];
        assert(q@.take(i + 1).drop_last() =~= q@.take(i as int));
        if c == '%' || c == '_' || c == '\\' {
            push_char(&mut out, '\\');
        }
        push_char(&mut out, c);
        proof {
            assert(out@ =~= seq!['%'] + like_escaped(q@.take(i + 1)));
        }
        i += 1;
    }
    assert(q@.take(i as int) =~= q@);
    push_char(&mut out, '%');
    out
}

/// `s` when `b` holds, else nothing.
pub open spec fn when(b: bool, s: Seq<char>) -> Seq<char> {
    if b {
        s
    } else {
        Seq::empty()
    }
}

/// The SQL text that lists the items matching `f`, newest first.
pub open spec fn list_sql(f: crate::item::FilterView) -> Seq<char> {
    "SELECT id, source_kind, source_id, author, title, summary, url, content_html, published_at, created_at FROM items WHERE 1=1"@
        + when(f.source_kind is Some, " AND source_kind = ?"@)
        + when(f.source_id is Some, " AND source_id = ?"@)
        + when(f.since is Some, " AND published_at >= ?"@)
        + when(f.query is Some, " AND (title LIKE ? ESCAPE '\\' OR summary LIKE ? ESCAPE '\\')"@)
        + " ORDER BY published_at DESC"@
        + when(f.limit is Some, " LIMIT ?"@)
}

/// The values for the placeholders of `list_sql(f)`, in order.
pub open spec fn list_params(f: crate::item::FilterView) -> Seq<SqlValueView> {
    (if f.source_kind is Some {
        seq![SqlValueView::Text(f.source_kind->0.name())]
    } else {
        Seq::empty()
    }) + (if f.source_id is Some {
        seq![SqlValueView::Text(f.source_id->0)]
    } else {
        Seq::empty()
    }) + (if f.since is Some {
        seq![SqlValueView::Text(f.since->0)]
    } else {
        Seq::empty()
    }) + (if f.query is Some {
        seq![SqlValueView::Text(like_pattern(f.query->0)), SqlValueView::Text(like_pattern(f.query->0))]
    } else {
        Seq::empty()
    }) + (if f.limit is Some {
        seq![SqlValueView::Integer(if f.limit->0 > i64::MAX { i64::MAX as int } else { f.limit->0 as int })]
    } else {
        Seq::empty()
    })
}

fn append_when(sql: &mut String, b: bool, part: &str)
    ensures
        final(sql)@ == old(sql)@ + when(b, part@),
{
    if b {
        sql.append(part);
    } else {
        assert(old(sql)@ + when(b, part@) =~= old(sql)@);
    }
}

/// The query, with its values, that lists the items matching `filter`: each constraint
/// narrows it, the query text matches title or summary literally, ignoring ASCII letter
/// case, and rows come newest first, at most `limit` of them.
pub fn build_list_query(filter: &ListFilter) -> (r: ListQuery)
    ensures
        r.sql@ == list_sql(filter@),
        sql_values_view(r.params@) == list_params(filter@),
{
    let f = Ghost(filter@);
    let mut sql = owned(
        "SELECT id, source_kind, source_id, author, title, summary, url, content_html, published_at, created_at FROM items WHERE 1=1",
    );
    let mut params: Vec<SqlValue> = Vec::new();
    let ghost p1: Seq<SqlValueView> = if f@.source_kind is Some {
        seq![SqlValueView::Text(f@.source_kind->0.name())]
    } else {
        Seq::empty()
    };
    let ghost p2: Seq<SqlValueView> = if f@.source_id is Some {
        seq![SqlValueView::Text(f@.source_id->0)]
    } else {
        Seq::empty()
    };
    let ghost p3: Seq<SqlValueView> = if f@.since is Some {
        seq![SqlValueView::Text(f@.since->0)]
    } else {
        Seq::empty()
    };
    let ghost p4: Seq<SqlValueView> = if f@.query is Some {
        seq![SqlValueView::Text(like_pattern(f@.query->0)), SqlValueView::Text(like_pattern(f@.query->0))]
    } else {
        Seq::empty()
    };
    append_when(&mut sql, filter.source_kind.is_some(), " AND source_kind = ?");
    if let Some(k) = filter.source_kind {
        params.push(SqlValue::Text(k.to_string()));
    }
    assert(sql_values_view(params@) =~= p1);
    append_when(&mut sql, filter.source_id.is_some(), " AND source_id = ?");
    if let Some(sid) = &filter.source_id {
        params.push(SqlValue::Text(sid.clone()));
    }
    assert(sql_values_view(params@) =~= p1 + p2);
    append_when(&mut sql, filter.since.is_some(), " AND published_at >= ?");
    if let Some(since) = &filter.since {
        params.push(SqlValue::Text(since.clone()));
    }
    assert(sql_values_view(params@) =~= p1 + p2 + p3);
    append_when(
        &mut sql,
        filter.query.is_some(),
        " AND (title LIKE ? ESCAPE '\\' OR summary LIKE ? ESCAPE '\\')",
    );
    if let Some(q) = &filter.query {
        params.push(SqlValue::Text(like_pattern_of(q.as_str())));
        params.push(SqlValue::Text(like_pattern_of(q.as_str())));
    }
    assert(sql_values_view(params@) =~= p1 + p2 + p3 + p4);
    sql.append(" ORDER BY published_at DESC");
    append_when(&mut sql, filter.limit.is_some(), " LIMIT ?");
    if let Some(limit) = filter.limit {
        let n: i64 = if limit as u64 > 9223372036854775807u64 {
            i64::MAX
        } else {
            limit as i64
        };
        params.push(SqlValue::Integer(n));
    }
    assert(sql@ =~= list_sql(f@));
    assert(sql_values_view(params@) =~= list_params(f@));
    ListQuery { sql, params }
}

} // verus!

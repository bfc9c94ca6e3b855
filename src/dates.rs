//! Timestamps: reading the forms users and feeds write, and rendering them.
use vstd::prelude::*;
use crate::error::PaiError;
use crate::text::{joined, chars_of, owned, slice_owned, trim, trim_str};

verus! {

broadcast use vstd::string::group_string_axioms;

/// A timestamp written three ways.
#[derive(Debug, Clone)]
pub struct DateForms {
    /// RFC 3339 in UTC.
    pub utc_rfc3339: String,
    /// `YYYY-MM-DD HH:MM` in UTC.
    pub utc_display: String,
    /// RFC 2822 in the timestamp's own offset.
    pub rfc2822: String,
}

/// A timestamp read from RFC 2822, written three ways.
#[derive(Debug, Clone)]
pub struct UtcForms {
    /// RFC 3339 in UTC.
    pub utc_rfc3339: String,
    /// `YYYY-MM-DD HH:MM` in UTC.
    pub utc_display: String,
    /// RFC 2822 again, in the timestamp's own offset.
    pub rfc2822: String,
}

/// What chrono reads from an RFC 3339 text: UTC RFC 3339, UTC display form, RFC 2822.
pub uninterp spec fn rfc3339_forms(s: Seq<char>) -> Option<(Seq<char>, Seq<char>, Seq<char>)>;

/// What chrono reads from an RFC 2822 text: UTC RFC 3339, UTC display form, RFC 2822.
pub uninterp spec fn rfc2822_forms(s: Seq<char>) -> Option<(Seq<char>, Seq<char>, Seq<char>)>;

/// Relies on chrono's DateTime::parse_from_rfc3339, then with_timezone(&Utc) with
/// to_rfc3339 and format("%Y-%m-%d %H:%M"), and to_rfc2822 (which cannot fail here: a
/// parsed RFC 3339 year has four digits).
#[verifier::external_body]
fn read_rfc3339(s: &str) -> (r: Option<DateForms>)
    ensures
        r is Some <==> rfc3339_forms(s@) is Some,
        r is Some ==> rfc3339_forms(s@)->0 == (r->0.utc_rfc3339@, r->0.utc_display@, r->0.rfc2822@),
{
    chrono::DateTime::parse_from_rfc3339(s).ok().map(|d| DateForms {
        utc_rfc3339: d.with_timezone(&chrono::Utc).to_rfc3339(),
        utc_display: d.with_timezone(&chrono::Utc).format("%Y-%m-%d %H:%M").to_string(),
        rfc2822: d.to_rfc2822(),
    })
}

/// Relies on chrono's DateTime::parse_from_rfc2822, then with_timezone(&Utc) with
/// to_rfc3339 and format("%Y-%m-%d %H:%M"), and format with the RFC 2822 layout (which,
/// unlike to_rfc2822, does not panic on a year above 9999).
#[verifier::external_body]
fn read_rfc2822(s: &str) -> (r: Option<UtcForms>)
    ensures
        r is Some <==> rfc2822_forms(s@) is Some,
        r is Some ==> rfc2822_forms(s@)->0 == (r->0.utc_rfc3339@, r->0.utc_display@, r->0.rfc2822@),
{
    chrono::DateTime::parse_from_rfc2822(s).ok().map(|d| UtcForms {
        utc_rfc3339: d.with_timezone(&chrono::Utc).to_rfc3339(),
        utc_display: d.with_timezone(&chrono::Utc).format("%Y-%m-%d %H:%M").to_string(),
        rfc2822: d.format("%a, %-d %b %Y %H:%M:%S %z").to_string(),
    })
}

/// Relies on chrono's Utc::now, TimeDelta::try_minutes, checked_sub_signed and
/// to_rfc3339: the time `minutes` minutes ago, none when it cannot be represented.
#[verifier::external_body]
fn minutes_ago(minutes: i64) -> (r: Option<String>)
    ensures
        minutes == 0 ==> r is Some,
{
    chrono::TimeDelta::try_minutes(minutes).and_then(|d| chrono::Utc::now().checked_sub_signed(d)).map(
        |t| t.to_rfc3339(),
    )
}

/// The current time in RFC 3339 (UTC).
pub fn current_time() -> (r: String) {
    match minutes_ago(0) {
        Some(t) => t,
        None => String::new(),
    }
}

/// The value of a non-empty run of ASCII digits.
pub open spec fn digits_value(ds: Seq<char>) -> int
    decreases ds.len(),
{
    if ds.len() == 0 {
        0
    } else {
        digits_value(ds.drop_last()) * 10 + (ds.last() as int - '0' as int)
    }
}

pub open spec fn all_digits(ds: Seq<char>) -> bool {
    forall|i: int| 0 <= i < ds.len() ==> '0' <= #[trigger] ds[i] && ds[i] <= '9'
}

/// The `i64` that `s` writes in decimal, with an optional sign.
pub open spec fn i64_value(s: Seq<char>) -> Option<int> {
    let neg = s.len() > 0 && s[0] == '-';
    let ds = if s.len() > 0 && (s[0] == '-' || s[0] == '+') {
        s.drop_first()
    } else {
        s
    };
    let v = if neg {
        -digits_value(ds)
    } else {
        digits_value(ds)
    };
    if ds.len() > 0 && all_digits(ds) && i64::MIN <= v <= i64::MAX {
        Some(v)
    } else {
        None
    }
}

proof fn lemma_digits_value_nonneg(ds: Seq<char>)
    requires
        all_digits(ds),
    ensures
        digits_value(ds) >= 0,
    decreases ds.len(),
{
    if ds.len() > 0 {
        lemma_digits_value_nonneg(ds.drop_last());
    }
}

/// Reads a decimal `i64` with an optional sign.
pub fn parse_i64(s: &str) -> (r: Option<i64>)
    ensures
        r is Some <==> i64_value(s@) is Some,
        r is Some ==> r->0 == i64_value(s@)->0,
{
    let cs = chars_of(s);
    let n = cs.len();
    let neg = n > 0 && cs[0] == '-';
    let start: usize = if n > 0 && (cs[0] == '-' || cs[0] == '+') {
        1
    } else {
        0
    };
    let ghost ds = if n > 0 && (cs@[0] == '-' || cs@[0] == '+') {
        s@.drop_first()
    } else {
        s@
    };
    assert(ds =~= s@.subrange(start as int, n as int));
    if start == n {
        return None;
    }
    let limit: u64 = if neg {
        9223372036854775808
    } else {
        9223372036854775807
    };
    let mut acc: u64 = 0;
    let mut i: usize = start;
    while i < n
        invariant
            cs@ == s@,
            n == cs@.len(),
            start <= i <= n,
            ds == s@.subrange(start as int, n as int),
            ds == (if s@.len() > 0 && (s@[0] == '-' || s@[0] == '+') {
                s@.drop_first()
            } else {
                s@
            }),
            neg == (s@.len() > 0 && s@[0] == '-'),
            all_digits(ds.take(i - start)),
            acc as int == digits_value(ds.take(i - start)),
            acc <= limit,
            limit == if neg {
                9223372036854775808u64
            } else {
                9223372036854775807u64
            },
        decreases n - i,
    {
        let c = cs[i];
        assert(ds.take(i + 1 - start).drop_last() =~= ds.take(i - start));
        assert(ds.take(i + 1 - start).last() == c);
        if !('0' <= c && c <= '9') {
            assert(ds[i - start] == c);
            assert(!all_digits(ds));
            assert(i64_value(s@) is None);
            return None;
        }
        let d = (c as u32 - '0' as u32) as u64;
        if acc > (limit - d) / 10 {
            proof {
                lemma_digits_value_nonneg(ds.take(i + 1 - start));
                assert(digits_value(ds.take(i + 1 - start)) == acc * 10 + d);
                assert(acc * 10 + d > limit) by (nonlinear_arith)
                    requires
                        acc > (limit - d) / 10,
                        d <= 9,
                        limit >= 9,
                ;
                // More digits only make the value larger.
                lemma_prefix_value_grows(ds, i + 1 - start);
                assert(all_digits(ds) ==> digits_value(ds) > limit);
                assert(i64_value(s@) is None);
            }
            return None;
        }
        assert(acc * 10 + d <= limit) by (nonlinear_arith)
            requires
                acc <= (limit - d) / 10,
                d <= 9,
                limit >= 9,
        ;
        acc = acc * 10 + d;
        i += 1;
    }
    assert(ds.take(n - start) =~= ds);
    if neg {
        if acc == 9223372036854775808 {
            Some(i64::MIN)
        } else {
            Some(-(acc as i64))
        }
    } else {
        Some(acc as i64)
    }
}

proof fn lemma_prefix_value_grows(ds: Seq<char>, k: int)
    requires
        0 <= k <= ds.len(),
    ensures
        all_digits(ds) ==> digits_value(ds) >= digits_value(ds.take(k)),
    decreases ds.len() - k,
{
    if k == ds.len() {
        assert(ds.take(k) =~= ds);
    } else if all_digits(ds) {
        lemma_prefix_value_grows(ds, k + 1);
        assert(ds.take(k + 1).drop_last() =~= ds.take(k));
        lemma_digits_value_nonneg(ds.take(k));
        assert(digits_value(ds.take(k + 1)) >= digits_value(ds.take(k))) by (nonlinear_arith)
            requires
                digits_value(ds.take(k + 1)) == digits_value(ds.take(k)) * 10 + (ds.take(k + 1).last() as int - '0' as int),
                digits_value(ds.take(k)) >= 0,
                '0' <= ds.take(k + 1).last(),
        ;
    }
}

/// RFC 3339 in UTC of an RFC 3339 text, when chrono reads it.
pub open spec fn utc_of_rfc3339(s: Seq<char>) -> Option<Seq<char>> {
    match rfc3339_forms(s) {
        Some((u, _, _)) => Some(u),
        None => None,
    }
}

/// RFC 3339 in UTC of an RFC 2822 text, when chrono reads it.
pub open spec fn utc_of_rfc2822(s: Seq<char>) -> Option<Seq<char>> {
    match rfc2822_forms(s) {
        Some((u, _, _)) => Some(u),
        None => None,
    }
}

/// Minutes in one unit of a relative time: `m`, `h`, `d` or `w` in either case; 0 otherwise.
pub open spec fn unit_minutes(c: char) -> int {
    if c == 'm' || c == 'M' {
        1
    } else if c == 'h' || c == 'H' {
        60
    } else if c == 'd' || c == 'D' {
        1440
    } else if c == 'w' || c == 'W' {
        10080
    } else {
        0
    }
}

/// The minutes that a relative time such as `7d`, `24h` or `60m` stands for.
pub open spec fn relative_minutes(s: Seq<char>) -> Option<int> {
    if s.len() >= 2 && unit_minutes(s.last()) > 0 && i64_value(s.drop_last()) is Some {
        let v = i64_value(s.drop_last())->0 * unit_minutes(s.last());
        if i64::MIN <= v <= i64::MAX {
            Some(v)
        } else {
            None
        }
    } else {
        None
    }
}

/// Reads a relative time (a count and a unit `m`, `h`, `d` or `w`) as minutes.
pub fn parse_relative_minutes(s: &str) -> (r: Option<i64>)
    ensures
        r is Some <==> relative_minutes(s@) is Some,
        r is Some ==> r->0 == relative_minutes(s@)->0,
{
    let cs = chars_of(s);
    let n = cs.len();
    if n < 2 {
        return None;
    }
    let c = cs[n - 1];
    let unit: i128 = if c == 'm' || c == 'M' {
        1
    } else if c == 'h' || c == 'H' {
        60
    } else if c == 'd' || c == 'D' {
        1440
    } else if c == 'w' || c == 'W' {
        10080
    } else {
        return None;
    };
    let head = slice_owned(s, 0, n - 1);
    assert(head@ =~= s@.drop_last());
    let m = match parse_i64(head.as_str()) {
        Some(m) => m,
        None => return None,
    };
    let v: i128 = (m as i128) * unit;
    if v < i64::MIN as i128 || v > i64::MAX as i128 {
        return None;
    }
    Some(v as i64)
}

/// What a `since` bound becomes: nothing when blank; the time that long ago for a
/// relative time; RFC 3339 in UTC for an RFC 3339 or RFC 2822 time; otherwise an
/// invalid-argument error.
pub fn normalize_since_input(since: Option<String>) -> (r: Result<Option<String>, PaiError>)
    ensures
        since is None ==> r matches Ok(None),
        since is Some && trim(since->0@).len() == 0 ==> r matches Ok(None),
        since is Some && trim(since->0@).len() > 0 && relative_minutes(trim(since->0@)) is Some
            ==> (r matches Ok(Some(_)) || r matches Err(PaiError::InvalidArgument(_))),
        since is Some && trim(since->0@).len() > 0 && relative_minutes(trim(since->0@)) is None
            ==> ({
            let t = trim(since->0@);
            if utc_of_rfc3339(t) is Some {
                r matches Ok(Some(x)) && x@ == utc_of_rfc3339(t)->0
            } else if utc_of_rfc2822(t) is Some {
                r matches Ok(Some(x)) && x@ == utc_of_rfc2822(t)->0
            } else {
                r matches Err(PaiError::InvalidArgument(_))
            }
        }),
{
    let raw = match since {
        Some(raw) => raw,
        None => return Ok(None),
    };
    let value = trim_str(raw.as_str());
    if value.as_str().unicode_len() == 0 {
        return Ok(None);
    }
    if let Some(m) = parse_relative_minutes(value.as_str()) {
        return match minutes_ago(m) {
            Some(t) => Ok(Some(t)),
            None => Err(PaiError::InvalidArgument(owned("Relative since value is out of range"))),
        };
    }
    if let Some(f) = read_rfc3339(value.as_str()) {
        return Ok(Some(f.utc_rfc3339));
    }
    if let Some(f) = read_rfc2822(value.as_str()) {
        return Ok(Some(f.utc_rfc3339));
    }
    let msg = joined(
        "Invalid since value '",
        value.as_str(),
    );
    Err(
        PaiError::InvalidArgument(
            joined(
                msg.as_str(),
                "'. Use ISO 8601 (e.g. 2024-01-01T00:00:00Z) or relative forms like 7d/24h/60m.",
            ),
        ),
    )
}

/// The RSS publication date of a timestamp: RFC 2822 for an RFC 3339 or RFC 2822 text,
/// the text itself otherwise.
pub open spec fn rss_date_of(value: Seq<char>) -> Seq<char> {
    match rfc3339_forms(value) {
        Some((_, _, r)) => r,
        None => match rfc2822_forms(value) {
            Some((_, _, r)) => r,
            None => value,
        },
    }
}

/// Writes a stored timestamp the way RSS dates are written.
pub fn format_rss_date(value: &str) -> (r: String)
    ensures
        r@ == rss_date_of(value@),
{
    match read_rfc3339(value) {
        Some(f) => f.rfc2822,
        None => match read_rfc2822(value) {
            Some(f) => f.rfc2822,
            None => owned(value),
        },
    }
}

/// The `YYYY-MM-DD HH:MM` form in UTC of an RFC 3339 or RFC 2822 text, the text itself
/// otherwise.
pub open spec fn display_date_of(value: Seq<char>) -> Seq<char> {
    match rfc3339_forms(value) {
        Some((_, d, _)) => d,
        None => match rfc2822_forms(value) {
            Some((_, d, _)) => d,
            None => value,
        },
    }
}

/// Writes a stored timestamp for display in a table.
pub fn format_published_display(value: &str) -> (r: String)
    ensures
        r@ == display_date_of(value@),
{
    match read_rfc3339(value) {
        Some(f) => f.utc_display,
        None => match read_rfc2822(value) {
            Some(f) => f.utc_display,
            None => owned(value),
        },
    }
}

} // verus!

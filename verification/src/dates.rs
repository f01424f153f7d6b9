//! Pack dates: RFC 3339 timestamps, shown to the user and edited through a
//! `datetime-local` input. Parsing and formatting are chrono's.

use crate::text::{trim, trim_spec};
use vstd::prelude::*;

verus! {

/// Format for a `datetime-local` input value.
pub open spec fn local_input_format() -> Seq<char> {
    "%Y-%m-%dT%H:%M"@
}

/// Format for showing a pack date, e.g. "Monday, July 15,  3:24 PM".
pub open spec fn display_format() -> Seq<char> {
    "%A, %B %e, %l:%M %p"@
}

/// What chrono makes of `s` read as an RFC 3339 timestamp and written out
/// with the strftime format `fmt`: `None` when `s` does not parse.
pub uninterp spec fn chrono_rfc3339_reformat(s: Seq<char>, fmt: Seq<char>) -> Option<Seq<char>>;

/// What chrono makes of `s` read as a naive date-time in the strftime format
/// `fmt`, taken as UTC and written out as RFC 3339: `None` when `s` does not
/// parse.
pub uninterp spec fn chrono_naive_utc_to_rfc3339(s: Seq<char>, fmt: Seq<char>) -> Option<Seq<char>>;

pub open spec fn opt_view(o: Option<String>) -> Option<Seq<char>> {
    match o {
        Some(s) => Some(s@),
        None => None,
    }
}

/// chrono's `DateTime::parse_from_rfc3339(s)` followed by
/// `.format(fmt).to_string()`. The result is named, not stated: it is a
/// function of `s` and `fmt` alone (the offset comes from `s`, names of days
/// and months are chrono's fixed English ones). `requires` keeps `fmt` to the
/// two formats used here, both valid, so that formatting cannot fail.
#[verifier::external_body]
fn rfc3339_reformat(s: &str, fmt: &str) -> (r: Option<String>)
    requires
        fmt@ == display_format() || fmt@ == local_input_format(),
    ensures
        opt_view(r) == chrono_rfc3339_reformat(s@, fmt@),
{
    chrono::DateTime::parse_from_rfc3339(s).ok().map(|dt| dt.format(fmt).to_string())
}

/// chrono's `NaiveDateTime::parse_from_str(s, fmt)`, then
/// `DateTime::<Utc>::from_naive_utc_and_offset(.., Utc).to_rfc3339()`. The
/// result is named, not stated: a function of `s` and `fmt` alone.
#[verifier::external_body]
fn naive_utc_to_rfc3339(s: &str, fmt: &str) -> (r: Option<String>)
    ensures
        opt_view(r) == chrono_naive_utc_to_rfc3339(s@, fmt@),
{
    chrono::NaiveDateTime::parse_from_str(s, fmt).ok().map(
        |naive| chrono::DateTime::<chrono::Utc>::from_naive_utc_and_offset(naive, chrono::Utc).to_rfc3339(),
    )
}

/// `s` with each run of two spaces, scanning left to right, made one space
/// (like `str::replace("  ", " ")`).
pub open spec fn single_spaced(s: Seq<char>) -> Seq<char>
    decreases s.len(),
{
    if s.len() >= 2 && s[0] == ' ' && s[1] == ' ' {
        seq![' '] + single_spaced(s.skip(2))
    } else if s.len() > 0 {
        seq![s[0]] + single_spaced(s.drop_first())
    } else {
        Seq::empty()
    }
}

/// The shown date: the formatted date tidied (trimmed, double spaces made
/// single, trimmed again), or the stored text when it did not parse.
pub open spec fn shown_date(formatted: Option<Seq<char>>, created_at: Seq<char>) -> Seq<char> {
    match formatted {
        Some(f) => trim_spec(single_spaced(trim_spec(f))),
        None => created_at,
    }
}

/// `s` with double spaces made single.
pub fn replace_double_spaces(s: &str) -> (r: String)
    ensures
        r@ == single_spaced(s@),
{
    let n = s.unicode_len();
    let mut out = String::new();
    let mut i: usize = 0;
    assert(s@.skip(0) =~= s@);
    assert(out@ + single_spaced(s@) =~= single_spaced(s@));
    while i < n
        invariant
            n == s@.len(),
            i <= n,
            out@ + single_spaced(s@.skip(i as int)) == single_spaced(s@),
        decreases n - i,
    {
        let ghost rest = s@.skip(i as int);
        assert(rest[0] == s@[i as int]);
        assert(i + 1 < n ==> rest[1] == s@[i + 1]);
        if i + 1 < n && s.get_char(i) == ' ' && s.get_char(i + 1) == ' ' {
            proof {
                assert(rest[0] == ' ' && rest[1] == ' ');
                assert(single_spaced(rest) == seq![' '] + single_spaced(rest.skip(2)));
                assert(rest.skip(2) =~= s@.skip(i + 2));
                assert(out@ + seq![' '] + single_spaced(rest.skip(2)) =~= out@ + (seq![' ']
                    + single_spaced(rest.skip(2))));
            }
            proof {
                reveal_strlit(" ");
            }
            out.append(" ");
            i = i + 2;
        } else {
            let piece = s.substring_char(i, i + 1);
            proof {
                assert(rest.drop_first() =~= s@.skip(i + 1));
                assert(piece@ =~= seq![rest[0]]);
                assert(single_spaced(rest) == seq![rest[0]] + single_spaced(rest.drop_first()));
                assert(out@ + piece@ + single_spaced(rest.drop_first()) =~= out@ + (seq![rest[0]]
                    + single_spaced(rest.drop_first())));
            }
            out.append(piece);
            i = i + 1;
        }
    }
    proof {
        assert(s@.skip(i as int).len() == 0);
        assert(out@ + Seq::<char>::empty() =~= out@);
    }
    out
}

/// The shown date, given what chrono formatted (see `shown_date`).
pub fn display_date_from(formatted: Option<&str>, created_at: &str) -> (r: String)
    ensures
        r@ == shown_date(
            match formatted {
                Some(f) => Some(f@),
                None => None,
            },
            created_at@,
        ),
{
    match formatted {
        Some(f) => {
            let once = replace_double_spaces(trim(f));
            String::from_str(trim(once.as_str()))
        },
        None => String::from_str(created_at),
    }
}

/// Format a stored RFC 3339 timestamp for people, e.g.
/// "Monday, July 15, 3:24 PM"; text that does not parse is shown as is.
pub fn format_pack_date(created_at: &str) -> (r: String)
    ensures
        r@ == shown_date(chrono_rfc3339_reformat(created_at@, display_format()), created_at@),
{
    let fmt = "%A, %B %e, %l:%M %p";
    let formatted = rfc3339_reformat(created_at, fmt);
    match formatted {
        Some(f) => display_date_from(Some(f.as_str()), created_at),
        None => display_date_from(None, created_at),
    }
}

/// A stored RFC 3339 timestamp as a `datetime-local` value
/// (YYYY-MM-DDTHH:mm), or empty when it does not parse.
pub fn created_at_to_datetime_local_value(created_at: &str) -> (r: String)
    ensures
        r@ == match chrono_rfc3339_reformat(created_at@, local_input_format()) {
            Some(f) => f,
            None => Seq::empty(),
        },
{
    match rfc3339_reformat(created_at, "%Y-%m-%dT%H:%M") {
        Some(f) => f,
        None => String::new(),
    }
}

/// A `datetime-local` value read as RFC 3339: `None` when blank or unparsable.
pub open spec fn parsed_local_date(s: Seq<char>) -> Option<Seq<char>> {
    if trim_spec(s).len() == 0 {
        None
    } else {
        chrono_naive_utc_to_rfc3339(trim_spec(s), local_input_format())
    }
}

/// Read a `datetime-local` value (YYYY-MM-DDTHH:mm, UTC) as an RFC 3339
/// timestamp; `None` when blank or unparsable.
pub fn parse_datetime_local_to_rfc3339(s: &str) -> (r: Option<String>)
    ensures
        opt_view(r) == parsed_local_date(s@),
{
    let t = trim(s);
    if t.unicode_len() == 0 {
        return None;
    }
    naive_utc_to_rfc3339(t, "%Y-%m-%dT%H:%M")
}

} // verus!

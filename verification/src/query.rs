//! Search expressions, built from the structured filters of a search
//! request.

use crate::dates::{
    day_after, day_minus, day_of_text, day_plus, days_before, imap_date, imap_text_of_day, today,
    Ymd,
};
use crate::errors::{AppError, AppResult};
use crate::models::SearchMessagesInput;
use crate::text::{chars_of, concat2, concat3};
use crate::validate::{
    bad_date_message, parse_ymd, search_text_fault, validate_search_text, verdict,
};
use vstd::prelude::*;

verus! {

/// One character as it stands inside a quoted string: a backslash before a
/// backslash and before a double quote.
pub open spec fn escaped_char(c: char) -> Seq<char> {
    if c == '\\' {
        seq!['\\', '\\']
    } else if c == '"' {
        seq!['\\', '"']
    } else {
        seq![c]
    }
}

/// A text as it stands inside a quoted string.
pub open spec fn escaped(s: Seq<char>) -> Seq<char>
    decreases s.len(),
{
    if s.len() == 0 {
        Seq::empty()
    } else {
        escaped(s.drop_last()) + escaped_char(s.last())
    }
}

/// Checks a search text and escapes it for a quoted string.
pub fn escape_imap_quoted(input: &str) -> (r: AppResult<String>)
    ensures
        verdict(r, search_text_fault(input@)),
        r is Ok ==> r->Ok_0@ == escaped(input@),
{
    match validate_search_text(input) {
        Ok(()) => {},
        Err(e) => {
            return Err(e);
        },
    }
    let v = chars_of(input);
    let mut out = String::new();
    let mut i: usize = 0;
    assert(input@.take(0) =~= Seq::<char>::empty());
    while i < v.len()
        invariant
            i <= v.len(),
            v@ == input@,
            out@ == escaped(input@.take(i as int)),
        decreases v.len() - i,
    {
        let c = v[i];
        proof {
            assert(input@.take(i + 1).drop_last() =~= input@.take(i as int));
            assert(input@.take(i + 1).last() == c);
        }
        let ghost before = out@;
        if c == '\\' {
            out.push('\\');
            out.push('\\');
        } else if c == '"' {
            out.push('\\');
            out.push('"');
        } else {
            out.push(c);
        }
        assert(out@ =~= before + escaped_char(c));
        i += 1;
    }
    assert(input@.take(v.len() as int) =~= input@);
    Ok(out)
}

/// One criterion of a search expression, or the reason why it cannot be
/// built; `Ok(None)` for a filter that the request does not name.
pub type Part = Result<Option<Seq<char>>, Seq<char>>;

/// The criterion `KEYWORD "text"` for an optional text filter.
pub open spec fn text_part(keyword: Seq<char>, text: Option<String>) -> Part {
    match text {
        None => Ok(None),
        Some(t) => match search_text_fault(t@) {
            Some(m) => Err(m),
            None => Ok(Some(keyword + " \""@ + escaped(t@) + "\""@)),
        },
    }
}

/// The criterion `UNSEEN` for a request that asks for unread messages only.
pub open spec fn unseen_part(unread_only: Option<bool>) -> Part {
    if unread_only == Some(true) {
        Ok(Some("UNSEEN"@))
    } else {
        Ok(None)
    }
}

/// The message that rejects a day which the calendar does not hold.
pub open spec fn out_of_range_message() -> Seq<char> {
    "date out of range"@
}

/// The criterion `keyword` followed by the day `day`.
pub open spec fn day_part(keyword: Seq<char>, day: Option<Ymd>) -> Part {
    match day {
        None => Err(out_of_range_message()),
        Some(d) => match imap_text_of_day(d.year as int, d.month as int, d.day as int) {
            None => Err(out_of_range_message()),
            Some(t) => Ok(Some(keyword + t)),
        },
    }
}

/// The criterion `SINCE` for the last `last_days` days, counted back from
/// `today`.
pub open spec fn last_days_part(last_days: Option<u16>, today: Ymd) -> Part {
    match last_days {
        None => Ok(None),
        Some(n) => day_part(
            "SINCE "@,
            day_minus(today.year as int, today.month as int, today.day as int, n as nat),
        ),
    }
}

/// The criterion `SINCE` for the first day of a range.
pub open spec fn start_part(start_date: Option<String>) -> Part {
    match start_date {
        None => Ok(None),
        Some(t) => match day_of_text(t@) {
            None => Err(bad_date_message(t@)),
            Some(d) => day_part("SINCE "@, Some(d)),
        },
    }
}

/// The criterion `BEFORE` for the last day of a range: before the day after
/// it.
pub open spec fn end_part(end_date: Option<String>) -> Part {
    match end_date {
        None => Ok(None),
        Some(t) => match day_of_text(t@) {
            None => Err(bad_date_message(t@)),
            Some(d) => day_part(
                "BEFORE "@,
                day_plus(d.year as int, d.month as int, d.day as int, 1),
            ),
        },
    }
}

/// The criteria so far with one more, or the first reason why a criterion
/// cannot be built.
pub open spec fn with_part(so_far: Result<Seq<Seq<char>>, Seq<char>>, part: Part) -> Result<
    Seq<Seq<char>>,
    Seq<char>,
> {
    match so_far {
        Err(m) => Err(m),
        Ok(parts) => match part {
            Err(m) => Err(m),
            Ok(None) => Ok(parts),
            Ok(Some(p)) => Ok(parts.push(p)),
        },
    }
}

/// The criteria of a search request, in the order free text, sender,
/// recipient, subject, unread, last days, first day, last day.
pub open spec fn query_parts(input: SearchMessagesInput, today: Ymd) -> Result<
    Seq<Seq<char>>,
    Seq<char>,
> {
    let p = Ok(Seq::empty());
    let p = with_part(p, text_part("TEXT"@, input.query));
    let p = with_part(p, text_part("FROM"@, input.from));
    let p = with_part(p, text_part("TO"@, input.to));
    let p = with_part(p, text_part("SUBJECT"@, input.subject));
    let p = with_part(p, unseen_part(input.unread_only));
    let p = with_part(p, last_days_part(input.last_days, today));
    let p = with_part(p, start_part(input.start_date));
    with_part(p, end_part(input.end_date))
}

/// The texts of `parts` with one space between each two of them.
pub open spec fn spaced(parts: Seq<Seq<char>>) -> Seq<char>
    decreases parts.len(),
{
    if parts.len() == 0 {
        Seq::empty()
    } else if parts.len() == 1 {
        parts[0]
    } else {
        spaced(parts.drop_last()) + seq![' '] + parts.last()
    }
}

/// The search expression of a request: its criteria with spaces between
/// them, or `ALL` for a request without criteria.
pub open spec fn query_text(parts: Seq<Seq<char>>) -> Seq<char> {
    if parts.len() == 0 {
        "ALL"@
    } else {
        spaced(parts)
    }
}

/// `r` is the outcome that goes with `parts`.
pub open spec fn query_outcome(r: AppResult<String>, parts: Result<Seq<Seq<char>>, Seq<char>>) -> bool {
    match parts {
        Ok(ps) => r is Ok && r->Ok_0@ == query_text(ps),
        Err(m) => r is Err && r->Err_0 is InvalidInput && r->Err_0.message() == m,
    }
}

fn push_text_part(parts: &mut Vec<String>, keyword: &str, text: &Option<String>) -> (r: AppResult<
    (),
>)
    ensures
        match with_part(Ok(old(parts).deep_view()), text_part(keyword@, *text)) {
            Ok(ps) => r is Ok && final(parts).deep_view() == ps,
            Err(m) => r is Err && r->Err_0 is InvalidInput && r->Err_0.message() == m,
        },
{
    match text {
        None => Ok(()),
        Some(t) => {
            let e = match escape_imap_quoted(t.as_str()) {
                Ok(e) => e,
                Err(e) => {
                    return Err(e);
                },
            };
            let mut p = concat3(keyword, " \"", e.as_str());
            p.append("\"");
            proof {
                assert(old(parts).deep_view().push(p@) =~= old(parts)@.push(p).map_values(
                    |s: String| s.deep_view(),
                ));
            }
            parts.push(p);
            assert(final(parts).deep_view() =~= old(parts).deep_view().push(p@));
            Ok(())
        },
    }
}

/// The criterion `keyword` followed by a day as the calendar writes it. A
/// day that the calendar could not write is out of range.
pub fn day_criterion(keyword: &str, written: Option<String>) -> (r: AppResult<String>)
    ensures
        match written {
            Some(t) => r is Ok && r->Ok_0@ == keyword@ + t@,
            None => r is Err && r->Err_0 is InvalidInput && r->Err_0.message()
                == out_of_range_message(),
        },
{
    match written {
        Some(t) => Ok(concat2(keyword, t.as_str())),
        None => Err(AppError::invalid("date out of range")),
    }
}

fn push_day_part(parts: &mut Vec<String>, keyword: &str, day: Option<Ymd>) -> (r: AppResult<()>)
    ensures
        match with_part(Ok(old(parts).deep_view()), day_part(keyword@, day)) {
            Ok(ps) => r is Ok && final(parts).deep_view() == ps,
            Err(m) => r is Err && r->Err_0 is InvalidInput && r->Err_0.message() == m,
        },
{
    let written = match day {
        Some(d) => imap_date(d),
        None => None,
    };
    let p = match day_criterion(keyword, written) {
        Ok(p) => p,
        Err(e) => {
            return Err(e);
        },
    };
    parts.push(p);
    assert(final(parts).deep_view() =~= old(parts).deep_view().push(p@));
    Ok(())
}

/// The texts of `parts` with one space between each two of them.
pub fn join_spaced(parts: &Vec<String>) -> (r: String)
    ensures
        r@ == spaced(parts.deep_view()),
{
    let mut r = String::new();
    let mut i: usize = 0;
    let ghost all = parts.deep_view();
    assert(all.take(0) =~= Seq::<Seq<char>>::empty());
    while i < parts.len()
        invariant
            i <= parts.len(),
            all == parts.deep_view(),
            r@ == spaced(all.take(i as int)),
        decreases parts.len() - i,
    {
        proof {
            assert(all.take(i + 1).drop_last() =~= all.take(i as int));
            assert(all.take(i + 1).last() == parts@[i as int]@);
        }
        if i > 0 {
            r.push(' ');
        }
        r.append(parts[i].as_str());
        proof {
            if i == 0 {
                assert(r@ =~= parts@[0]@);
            }
        }
        i += 1;
    }
    assert(all.take(parts.len() as int) =~= all);
    r
}

/// Builds the search expression of a request, with `today` as the day from
/// which `last_days` counts back.
pub fn build_search_query_at(input: &SearchMessagesInput, today: Ymd) -> (r: AppResult<String>)
    ensures
        query_outcome(r, query_parts(*input, today)),
{
    let mut parts: Vec<String> = Vec::new();
    assert(parts.deep_view() =~= Seq::<Seq<char>>::empty());
    match push_text_part(&mut parts, "TEXT", &input.query) {
        Ok(()) => {},
        Err(e) => {
            return Err(e);
        },
    }
    match push_text_part(&mut parts, "FROM", &input.from) {
        Ok(()) => {},
        Err(e) => {
            return Err(e);
        },
    }
    match push_text_part(&mut parts, "TO", &input.to) {
        Ok(()) => {},
        Err(e) => {
            return Err(e);
        },
    }
    match push_text_part(&mut parts, "SUBJECT", &input.subject) {
        Ok(()) => {},
        Err(e) => {
            return Err(e);
        },
    }
    if let Some(true) = input.unread_only {
        let p = "UNSEEN".to_owned();
        let ghost before = parts.deep_view();
        parts.push(p);
        assert(parts.deep_view() =~= before.push("UNSEEN"@));
    }
    if let Some(n) = input.last_days {
        match push_day_part(&mut parts, "SINCE ", days_before(today, n)) {
            Ok(()) => {},
            Err(e) => {
                return Err(e);
            },
        }
    }
    if let Some(start) = &input.start_date {
        let d = match parse_ymd(start.as_str()) {
            Ok(d) => d,
            Err(e) => {
                return Err(e);
            },
        };
        match push_day_part(&mut parts, "SINCE ", Some(d)) {
            Ok(()) => {},
            Err(e) => {
                return Err(e);
            },
        }
    }
    if let Some(end) = &input.end_date {
        let d = match parse_ymd(end.as_str()) {
            Ok(d) => d,
            Err(e) => {
                return Err(e);
            },
        };
        match push_day_part(&mut parts, "BEFORE ", day_after(d)) {
            Ok(()) => {},
            Err(e) => {
                return Err(e);
            },
        }
    }
    if parts.len() == 0 {
        Ok("ALL".to_owned())
    } else {
        Ok(join_spaced(&parts))
    }
}

/// Builds the search expression of a request. `last_days` counts back from
/// the day it is now: the outcome is that of `build_search_query_at` for
/// some day.
pub fn build_search_query(input: &SearchMessagesInput) -> (r: AppResult<String>)
    ensures
        exists|day: Ymd| query_outcome(r, query_parts(*input, day)),
{
    let day = today();
    let r = build_search_query_at(input, day);
    assert(query_outcome(r, query_parts(*input, day)));
    r
}

} // verus!

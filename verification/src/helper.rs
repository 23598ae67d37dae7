//! Helpers around the client: the days of a recent span, the message of a
//! notification, and the table operations under the names callers know.

use vstd::prelude::*;
use vstd::string::*;
use crate::json::{entry_views, lemma_json_view, member, rendered, Json, JsonView};
use crate::wire::{opt_text_view, text_views};

pub use crate::table::{
    filter_and_extract, get_column_value, get_column_values, merge_dataframes, sort_dataframe, ColumnType,
    ColumnValue, ColumnValues,
};

verus! {

/// The number of the first day that `chrono` can hold: 1 January of the
/// year -262143. Days are counted from 1 January of the year 1, which is
/// day 1.
pub const FIRST_DAY: i32 = -95_746_129;

/// The number of the last day that `chrono` can hold: 31 December of the
/// year 262142.
pub const LAST_DAY: i32 = 95_745_399;

/// Whether `chrono` can hold the day.
pub open spec fn has_date(day: int) -> bool {
    FIRST_DAY <= day <= LAST_DAY
}

/// Whether the day lies in the years 0 to 9999, which are written with
/// four digits.
pub open spec fn has_short_year(day: int) -> bool {
    -365 <= day <= 3_652_059
}

/// A day of the proleptic Gregorian calendar, written as year, month and
/// day with `-` between them, as `chrono` formats it with `%Y-%m-%d`.
/// There is no text for a day that `chrono` cannot hold.
pub uninterp spec fn date_written(day: int) -> Option<Seq<char>>;

/// `chrono::NaiveDate::from_num_days_from_ce_opt`, and then the date
/// formatted with `%Y-%m-%d`. The outcome is a function of the day, which
/// [`date_written`] names; there is a text exactly for the days from
/// [`FIRST_DAY`] to [`LAST_DAY`], and it has ten characters for a day in
/// the years 0 to 9999.
#[verifier::external_body]
fn date_text(day: i32) -> (r: Option<String>)
    ensures
        opt_text_view(r) == date_written(day as int),
        r.is_some() == has_date(day as int),
        r matches Some(text) ==> (has_short_year(day as int) ==> text@.len() == 10),
{
    chrono::NaiveDate::from_num_days_from_ce_opt(day).map(|d| d.format("%Y-%m-%d").to_string())
}

/// The day that lies `k + 1` days before `today`: yesterday for `k` 0.
pub open spec fn back(today: int, k: int) -> int {
    today - (k + 1)
}

/// How many of the `x` days before `today` the calendar holds, counting
/// back from the day before `today`: all `x`, or as many as there are down
/// to the first day; none where the day before `today` is beyond the last.
pub open spec fn reach(today: int, x: int) -> int {
    if x <= 0 || today - 1 > LAST_DAY || today <= FIRST_DAY {
        0
    } else if x <= today - FIRST_DAY {
        x
    } else {
        today - FIRST_DAY
    }
}

/// The days before `today`, latest first: yesterday, the day before, and
/// so on, each one day before the one it follows; `x` of them, or fewer
/// where the calendar ends.
pub open spec fn days_back(today: int, x: int) -> Seq<Seq<char>> {
    Seq::new(reach(today, x) as nat, |k: int| date_written(back(today, k)).unwrap())
}

/// The last `x` days before `today`, latest first: yesterday, the day
/// before, and so on, each as year, month and day; see [`days_back`]. There
/// are `x` of them, none for an `x` below 1, and fewer only where the
/// calendar ends. Each is written with ten characters where it lies in the
/// years 0 to 9999. `today` is the number of the current day, which the
/// caller reads from the clock.
pub fn last_x_days(today: i32, x: i64) -> (r: Vec<String>)
    ensures
        text_views(r@) == days_back(today as int, x as int),
        r@.len() == reach(today as int, x as int),
        forall|k: int| 0 <= k < r@.len() ==> has_date(#[trigger] back(today as int, k)),
        forall|k: int|
            0 <= k < r@.len() && has_short_year(back(today as int, k)) ==> (#[trigger] r@[k])@.len() == 10,
{
    let mut out: Vec<String> = Vec::new();
    let mut k: i64 = 0;
    while k < x
        invariant
            0 <= k,
            k <= x || (x < 0 && k == 0),
            out@.len() == k,
            k == reach(today as int, k as int),
            forall|m: int| 0 <= m < k ==> has_date(#[trigger] back(today as int, m)),
            forall|m: int| 0 <= m < k ==> date_written(back(today as int, m)) == Some((#[trigger] out@[m])@),
            forall|m: int|
                0 <= m < k && has_short_year(back(today as int, m)) ==> (#[trigger] out@[m])@.len() == 10,
        decreases x - k,
    {
        let day: i64 = today as i64 - (k + 1);
        let text = if day < i32::MIN as i64 {
            None
        } else {
            date_text(day as i32)
        };
        match text {
            Some(text) => {
                out.push(text);
            },
            None => {
                proof {
                    assert(!has_date(back(today as int, k as int)));
                    assert(reach(today as int, x as int) == k);
                    assert(text_views(out@) =~= days_back(today as int, x as int));
                }
                return out;
            },
        }
        k += 1;
    }
    proof {
        assert(reach(today as int, x as int) == k);
        assert(text_views(out@) =~= days_back(today as int, x as int));
    }
    out
}

/// The body of a notification: the message under `content`.
pub open spec fn notice_body(message: Seq<char>) -> JsonView {
    JsonView::Object(seq![("content"@, JsonView::Text(message))])
}

/// The body that is posted to the webhook for a message.
pub fn discord_body(message: &str) -> (r: Json)
    ensures
        r@ == notice_body(message@),
{
    let mut entries: Vec<(String, Json)> = Vec::new();
    entries.push((String::from_str("content"), Json::Text(String::from_str(message))));
    let r = Json::Object(entries);
    proof {
        lemma_json_view(r);
        assert(entry_views(entries@) =~= seq![("content"@, JsonView::Text(message@))]);
    }
    r
}

/// The message with the trader to notify: where the webhook's answer names
/// a user with an id, the message is followed by a mention of that id as
/// the answer writes it; else it stays as it is.
pub open spec fn with_mention(message: Seq<char>, answer: JsonView) -> Seq<char> {
    match member(answer, "user"@) {
        Some(user) => match member(user, "id"@) {
            Some(id) => message + " <@"@ + rendered(id, false) + ">"@,
            None => message,
        },
        None => message,
    }
}

/// The message to post after the webhook has answered the first post.
pub fn discord_mention(message: &str, answer: &Json) -> (r: String)
    ensures
        r@ == with_mention(message@, answer@),
{
    let id = match answer.get("user") {
        Some(user) => user.get("id"),
        None => None,
    };
    match id {
        Some(id) => {
            let mut r = String::from_str(message);
            r.append(" <@");
            r.append(id.to_text().as_str());
            r.append(">");
            r
        },
        None => String::from_str(message),
    }
}

} // verus!

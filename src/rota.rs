//! The rota itself: the roster in the order of a day's seed, and the lines
//! that show a week of it.
use crate::calendar::CalendarDay;
use crate::seed::{date_seed, seed_from_date};
use crate::shuffle::{shuffle_names, shuffled};
use vstd::prelude::*;

verus! {

/// How many days a schedule shows: today and the seven after it.
pub const SCHEDULE_DAYS: usize = 8;

/// The roster used unless another is given.
pub open spec fn default_names() -> Seq<Seq<char>> {
    seq![
        "abrooks"@,
        "alecthomas"@,
        "brad"@,
        "deniseli"@,
        "gak"@,
        "jonathanj"@,
        "juho"@,
        "matt2e"@,
        "safeer"@,
        "stuartwdouglas"@,
        "tlongwell"@,
        "tom"@,
        "wesbillman"@,
        "worstell"@,
    ]
}

/// The texts of a list of names.
pub open spec fn texts(names: Seq<String>) -> Seq<Seq<char>> {
    names.map_values(|s: String| s@)
}

/// Names joined by `", "`.
pub open spec fn joined(names: Seq<Seq<char>>) -> Seq<char>
    decreases names.len(),
{
    if names.len() == 0 {
        Seq::empty()
    } else if names.len() == 1 {
        names[0]
    } else {
        joined(names.drop_last()) + ", "@ + names.last()
    }
}

/// The line that shows a day and its order of names.
pub open spec fn line_text(d: CalendarDay, names: Seq<Seq<char>>) -> Seq<char> {
    d.iso_text() + "Z: "@ + joined(names)
}

/// The order of `roster` on day `d`, with the day's seed read in the byte
/// order given by `little`.
pub open spec fn day_order(d: CalendarDay, roster: Seq<String>, little: bool) -> Seq<String> {
    shuffled(date_seed(d, little), roster)
}

/// Relies on std's `String::push_str`: `t` is appended to `s`.
#[verifier::external_body]
fn append(s: &mut String, t: &str)
    ensures
        final(s)@ == old(s)@ + t@,
{
    s.push_str(t);
}

/// The roster used unless another is given.
pub fn default_roster() -> (r: Vec<String>)
    ensures
        texts(r@) == default_names(),
{
    let mut r: Vec<String> = Vec::new();
    r.push("abrooks".to_owned());
    r.push("alecthomas".to_owned());
    r.push("brad".to_owned());
    r.push("deniseli".to_owned());
    r.push("gak".to_owned());
    r.push("jonathanj".to_owned());
    r.push("juho".to_owned());
    r.push("matt2e".to_owned());
    r.push("safeer".to_owned());
    r.push("stuartwdouglas".to_owned());
    r.push("tlongwell".to_owned());
    r.push("tom".to_owned());
    r.push("wesbillman".to_owned());
    r.push("worstell".to_owned());
    assert(texts(r@) =~= default_names());
    r
}

/// The roster in the order of day `date`: shuffled with the day's seed.
pub fn get_names(date: &CalendarDay, roster: &Vec<String>) -> (r: Vec<String>)
    requires
        date.wf(),
    ensures
        r@ == day_order(*date, roster@, true) || r@ == day_order(*date, roster@, false),
        r@.to_multiset() == roster@.to_multiset(),
{
    let seed = seed_from_date(date);
    shuffle_names(seed, roster)
}

/// Names joined by `", "`.
pub fn join_names(names: &Vec<String>) -> (r: String)
    ensures
        r@ == joined(texts(names@)),
{
    let mut out = String::new();
    let mut i: usize = 0;
    while i < names.len()
        invariant
            i <= names@.len(),
            out@ == joined(texts(names@).take(i as int)),
        decreases names@.len() - i,
    {
        let ghost before = texts(names@).take(i as int);
        let ghost after = texts(names@).take(i + 1);
        assert(after.drop_last() =~= before);
        if i > 0 {
            append(&mut out, ", ");
        }
        append(&mut out, names[i].as_str());
        i = i + 1;
    }
    assert(texts(names@).take(i as int) =~= texts(names@));
    out
}

/// The line that shows day `day` and its order of names:
/// `YYYY-MM-DDZ: ` and the names joined by `", "`.
pub fn schedule_line(day: &CalendarDay, names: &Vec<String>) -> (r: String)
    requires
        day.wf(),
    ensures
        r@ == line_text(*day, texts(names@)),
{
    let mut out = day.to_iso_string();
    append(&mut out, "Z: ");
    let joined_names = join_names(names);
    append(&mut out, joined_names.as_str());
    out
}

/// The line of day `d` in a schedule of `roster`, with the day's seed read in
/// the byte order given by `little`.
pub open spec fn day_line(d: CalendarDay, roster: Seq<String>, little: bool) -> Seq<char> {
    line_text(d, texts(day_order(d, roster, little)))
}

/// One line for `today` and for each of the seven days after it, each showing
/// the roster in the order of its day; the schedule ends early only at the
/// last day of year 9999.
pub fn week_schedule(today: &CalendarDay, roster: &Vec<String>) -> (r: Vec<String>)
    requires
        today.wf(),
    ensures
        1 <= r@.len() <= SCHEDULE_DAYS,
        forall|k: int|
            0 <= k < r@.len() ==> (#[trigger] r@[k]@ == day_line(
                today.after(k as nat),
                roster@,
                true,
            ) || r@[k]@ == day_line(today.after(k as nat), roster@, false)),
        r@.len() < SCHEDULE_DAYS ==> today.after((r@.len() - 1) as nat).is_last(),
{
    let mut lines: Vec<String> = Vec::new();
    let mut day = *today;
    let mut k: usize = 0;
    while k < SCHEDULE_DAYS
        invariant
            k <= SCHEDULE_DAYS,
            lines@.len() == k,
            day.wf(),
            day == today.after(k as nat),
            forall|j: int|
                0 <= j < k ==> (#[trigger] lines@[j]@ == day_line(
                    today.after(j as nat),
                    roster@,
                    true,
                ) || lines@[j]@ == day_line(today.after(j as nat), roster@, false)),
        decreases SCHEDULE_DAYS - k,
    {
        let names = get_names(&day, roster);
        let line = schedule_line(&day, &names);
        assert(line@ == day_line(day, roster@, true) || line@ == day_line(day, roster@, false));
        let ghost prev = lines@;
        lines.push(line);
        assert forall|j: int|
            0 <= j < k + 1 implies (#[trigger] lines@[j]@
                == day_line(today.after(j as nat), roster@, true) || lines@[j]@ == day_line(
                today.after(j as nat),
                roster@,
                false,
            )) by {
            if j < k {
                assert(lines@[j]@ == prev[j]@);
            } else {
                assert(lines@[j] == line);
            }
        }
        k = k + 1;
        match day.following() {
            Some(next) => {
                day = next;
            },
            None => {
                return lines;
            },
        }
    }
    lines
}

} // verus!

//! The persisted form of a schedule: weekdays as the digits 0 (Monday) to 6
//! (Sunday) separated by commas, times of day as `HH:MM`, and the expected
//! applications as names separated by commas.

use crate::models::{schedule_views, Schedule, ScheduleView};
use crate::text::{join_texts, join_with, parse_u32, reads_as_u32, texts};
use crate::time::{TimeOfDay, Weekday};
use chrono::Timelike;
use vstd::prelude::*;
use vstd::std_specs::iter::IteratorSpec;

verus! {

/// The parts of a text that commas separate. A text without a comma is one
/// part; the empty text is one empty part.
pub open spec fn fields(s: Seq<char>) -> Seq<Seq<char>>
    decreases s.len(),
{
    if s.len() == 0 {
        seq![Seq::empty()]
    } else if s.last() == ',' {
        fields(s.drop_last()).push(Seq::empty())
    } else {
        let before = fields(s.drop_last());
        before.drop_last().push(before.last().push(s.last()))
    }
}

/// The parts written one after the other with a comma between neighbours.
pub open spec fn join_commas(parts: Seq<Seq<char>>) -> Seq<char> {
    join_with(parts, seq![','])
}

/// The parts that are not empty, in order.
pub open spec fn non_empty(parts: Seq<Seq<char>>) -> Seq<Seq<char>>
    decreases parts.len(),
{
    if parts.len() == 0 {
        Seq::empty()
    } else if parts.last().len() == 0 {
        non_empty(parts.drop_last())
    } else {
        non_empty(parts.drop_last()).push(parts.last())
    }
}

/// The digit that stands for a weekday.
pub open spec fn day_digit(day: Weekday) -> char {
    match day {
        Weekday::Mon => '0',
        Weekday::Tue => '1',
        Weekday::Wed => '2',
        Weekday::Thu => '3',
        Weekday::Fri => '4',
        Weekday::Sat => '5',
        Weekday::Sun => '6',
    }
}

/// The part that stands for a weekday: its digit alone.
pub open spec fn day_field(day: Weekday) -> Seq<char> {
    seq![day_digit(day)]
}

/// The weekday that a part stands for: the part reads as a number from 0
/// to 6.
pub open spec fn day_of_field(field: Seq<char>) -> Option<Weekday> {
    match reads_as_u32(field) {
        Some(n) => Weekday::at(n as nat),
        None => None,
    }
}

/// The weekdays that the parts stand for, in order; parts that stand for
/// none are passed over.
pub open spec fn days_of_fields(parts: Seq<Seq<char>>) -> Seq<Weekday>
    decreases parts.len(),
{
    if parts.len() == 0 {
        Seq::empty()
    } else {
        match day_of_field(parts.last()) {
            Some(day) => days_of_fields(parts.drop_last()).push(day),
            None => days_of_fields(parts.drop_last()),
        }
    }
}

/// The persisted text of a list of weekdays.
pub open spec fn days_text(days: Seq<Weekday>) -> Seq<char> {
    join_commas(days.map_values(|d: Weekday| day_field(d)))
}

/// The weekdays that a persisted text holds.
pub open spec fn days_from_text(text: Seq<char>) -> Seq<Weekday> {
    days_of_fields(fields(text))
}

/// The persisted text of a list of application names.
pub open spec fn apps_text(apps: Seq<Seq<char>>) -> Seq<char> {
    join_commas(apps)
}

/// The application names that a persisted text holds.
pub open spec fn apps_from_text(text: Seq<char>) -> Seq<Seq<char>> {
    non_empty(fields(text))
}

/// The character of a decimal digit.
pub open spec fn digit_char(n: int) -> char {
    if n == 0 {
        '0'
    } else if n == 1 {
        '1'
    } else if n == 2 {
        '2'
    } else if n == 3 {
        '3'
    } else if n == 4 {
        '4'
    } else if n == 5 {
        '5'
    } else if n == 6 {
        '6'
    } else if n == 7 {
        '7'
    } else if n == 8 {
        '8'
    } else {
        '9'
    }
}

/// The text `HH:MM` for an hour and a minute, two digits each.
pub open spec fn hhmm_of(hour: int, minute: int) -> Seq<char> {
    seq![
        digit_char(hour / 10),
        digit_char(hour % 10),
        ':',
        digit_char(minute / 10),
        digit_char(minute % 10),
    ]
}

/// The text `HH:MM` of a time of day: its hour and its minute.
pub open spec fn hhmm_text(t: TimeOfDay) -> Seq<char> {
    hhmm_of(t.secs as int / 3600, (t.secs as int % 3600) / 60)
}

/// The time of day at the start of the minute that `t` lies in: what is
/// left of a time once it has been written as `HH:MM`.
pub open spec fn to_the_minute(t: TimeOfDay) -> TimeOfDay {
    TimeOfDay { secs: (t.secs - t.secs % 60) as u32, frac: 0 }
}

/// Whether every name can stand in a list separated by commas: none is empty
/// and none holds a comma.
pub open spec fn plain_names(names: Seq<Seq<char>>) -> bool {
    forall|i: int| 0 <= i < names.len() ==> (#[trigger] names[i]).len() > 0 && !names[i].contains(',')
}

/// What `chrono` reads from a text as a time in the form `%H:%M`: seconds
/// since midnight and the fraction, or nothing where it rejects the text.
pub uninterp spec fn hhmm_parts(text: Seq<char>) -> Option<(u32, u32)>;

/// The time of day that a persisted text holds, if it holds one.
pub open spec fn time_from_text(text: Seq<char>) -> Option<TimeOfDay> {
    match hhmm_parts(text) {
        Some(parts) => Some(TimeOfDay { secs: parts.0, frac: parts.1 }),
        None => None,
    }
}

/// Writes a time of day with `chrono::NaiveTime::format` and the pattern
/// `%H:%M`, after building the `NaiveTime` with
/// `from_num_seconds_from_midnight_opt`.
///
/// Trusted: `%H` writes the hour and `%M` the minute, each as two digits
/// padded with a zero, so the text is `HH:MM`. A well-formed time is one that
/// `from_num_seconds_from_midnight_opt` accepts.
#[verifier::external_body]
pub(crate) fn format_hhmm(t: &TimeOfDay) -> (text: String)
    requires
        t.wf(),
    ensures
        text@ == hhmm_text(*t),
{
    let time = chrono::NaiveTime::from_num_seconds_from_midnight_opt(t.secs, t.frac).unwrap();
    time.format("%H:%M").to_string()
}

/// Reads a time of day with `chrono::NaiveTime::parse_from_str` and the
/// pattern `%H:%M`, and hands out the seconds since midnight and the
/// fraction of what was read.
///
/// Trusted: the outcome depends on the text alone, and a time that was read
/// is one that `NaiveTime` can hold, so well formed. A text of two digits, a
/// colon and two digits that names an hour below 24 and a minute below 60 is
/// read as that hour and minute with no seconds and no fraction: `%H` and
/// `%M` each take up to two digits, the colon is matched as it stands, and
/// the time is built from hour, minute and zero seconds. Which other texts
/// are accepted is not stated.
#[verifier::external_body]
pub(crate) fn parse_hhmm(text: &str) -> (parts: Option<(u32, u32)>)
    ensures
        parts == hhmm_parts(text@),
        parts.is_some() ==> (TimeOfDay { secs: parts.unwrap().0, frac: parts.unwrap().1 }).wf(),
        forall|hour: int, minute: int|
            0 <= hour < 24 && 0 <= minute < 60 && text@ == #[trigger] hhmm_of(hour, minute)
                ==> parts == Some(((hour * 3600 + minute * 60) as u32, 0u32)),
{
    match chrono::NaiveTime::parse_from_str(text, "%H:%M") {
        Ok(time) => Some((time.num_seconds_from_midnight(), time.nanosecond())),
        Err(_) => None,
    }
}

/// The text fields of a persisted schedule.
#[derive(Debug, Clone)]
pub struct ScheduleFields {
    pub name: String,
    pub start_time: String,
    pub end_time: String,
    pub days: String,
    pub expected_apps: String,
    pub check_interval_secs: u32,
    pub grace_period_secs: u32,
    pub enabled: bool,
}

/// What a [`ScheduleFields`] holds.
pub struct ScheduleFieldsView {
    pub name: Seq<char>,
    pub start_time: Seq<char>,
    pub end_time: Seq<char>,
    pub days: Seq<char>,
    pub expected_apps: Seq<char>,
    pub check_interval_secs: u32,
    pub grace_period_secs: u32,
    pub enabled: bool,
}

impl View for ScheduleFields {
    type V = ScheduleFieldsView;

    open spec fn view(&self) -> ScheduleFieldsView {
        ScheduleFieldsView {
            name: self.name@,
            start_time: self.start_time@,
            end_time: self.end_time@,
            days: self.days@,
            expected_apps: self.expected_apps@,
            check_interval_secs: self.check_interval_secs,
            grace_period_secs: self.grace_period_secs,
            enabled: self.enabled,
        }
    }
}

/// The persisted fields of a schedule.
pub open spec fn fields_of(schedule: ScheduleView) -> ScheduleFieldsView {
    ScheduleFieldsView {
        name: schedule.name,
        start_time: hhmm_text(schedule.start_time),
        end_time: hhmm_text(schedule.end_time),
        days: days_text(schedule.days),
        expected_apps: apps_text(schedule.expected_apps),
        check_interval_secs: schedule.check_interval_secs,
        grace_period_secs: schedule.grace_period_secs,
        enabled: schedule.enabled,
    }
}

/// The time at the full hour `hour` of the day.
pub open spec fn full_hour(hour: u32) -> TimeOfDay {
    TimeOfDay { secs: (hour * 3600) as u32, frac: 0 }
}

/// The schedule stored under `id` with the given fields, once its times have
/// been read. A start that could not be read is 09:00, an end that could not
/// be read is 17:00.
pub open spec fn schedule_of(
    id: i64,
    fields: ScheduleFieldsView,
    start: Option<TimeOfDay>,
    end: Option<TimeOfDay>,
) -> ScheduleView {
    ScheduleView {
        id: Some(id),
        name: fields.name,
        start_time: match start {
            Some(t) => t,
            None => full_hour(9),
        },
        end_time: match end {
            Some(t) => t,
            None => full_hour(17),
        },
        days: days_from_text(fields.days),
        expected_apps: apps_from_text(fields.expected_apps),
        check_interval_secs: fields.check_interval_secs,
        grace_period_secs: fields.grace_period_secs,
        enabled: fields.enabled,
    }
}

/// The schedules that are enabled, in order.
pub open spec fn enabled_of(all: Seq<ScheduleView>) -> Seq<ScheduleView>
    decreases all.len(),
{
    if all.len() == 0 {
        Seq::empty()
    } else if all.last().enabled {
        enabled_of(all.drop_last()).push(all.last())
    } else {
        enabled_of(all.drop_last())
    }
}

/// The digit that stands for a weekday.
pub fn day_char(day: Weekday) -> (c: char)
    ensures
        c == day_digit(day),
{
    match day {
        Weekday::Mon => '0',
        Weekday::Tue => '1',
        Weekday::Wed => '2',
        Weekday::Thu => '3',
        Weekday::Fri => '4',
        Weekday::Sat => '5',
        Weekday::Sun => '6',
    }
}

/// Cuts a text at its commas.
pub fn split_commas(text: &str) -> (parts: Vec<String>)
    ensures
        texts(parts@) == fields(text@),
{
    let mut parts: Vec<String> = Vec::new();
    let mut current = String::new();
    let mut rest = text.chars();
    assert(text@.take(0) =~= Seq::<char>::empty());
    assert(text@.skip(0) =~= text@);
    assert(texts(parts@).push(current@) =~= fields(text@.take(0)));
    loop
        invariant
            rest.decrease() is Some,
            rest.remaining().len() <= text@.len(),
            rest.remaining() == text@.skip(text@.len() - rest.remaining().len()),
            texts(parts@).push(current@) == fields(
                text@.take(text@.len() - rest.remaining().len()),
            ),
        ensures
            texts(parts@).push(current@) == fields(text@),
        decreases rest.decrease()->0,
    {
        let ghost at = text@.len() - rest.remaining().len();
        let ghost done = texts(parts@);
        let ghost word = current@;
        match rest.next() {
            Some(c) => {
                proof {
                    let next = text@.take(at + 1);
                    assert(c == text@[at]);
                    assert(rest.remaining() =~= text@.skip(at + 1));
                    assert(next.drop_last() =~= text@.take(at));
                    assert(next.last() == c);
                    assert(done.push(word).drop_last() =~= done);
                    assert(done.push(word).last() == word);
                }
                if c == ',' {
                    parts.push(current);
                    current = String::new();
                    assert(texts(parts@) =~= done.push(word));
                } else {
                    current.push(c);
                }
            },
            None => {
                assert(text@.take(at) =~= text@);
                break ;
            },
        }
    }
    let ghost done = texts(parts@);
    parts.push(current);
    assert(texts(parts@) =~= done.push(current@));
    parts
}

/// Writes a list of weekdays in its persisted form.
pub fn encode_days(days: &Vec<Weekday>) -> (text: String)
    ensures
        text@ == days_text(days@),
{
    let mut text = String::new();
    let mut i: usize = 0;
    assert(days_text(days@.take(0)) =~= Seq::<char>::empty());
    while i < days.len()
        invariant
            i <= days.len(),
            text@ == days_text(days@.take(i as int)),
        decreases days.len() - i,
    {
        proof {
            let before = days@.take(i as int).map_values(|d: Weekday| day_field(d));
            let after = days@.take(i + 1).map_values(|d: Weekday| day_field(d));
            assert(after.drop_last() =~= before);
            assert(after.last() == day_field(days@[i as int]));
            assert(text@ + seq![','] + day_field(days@[i as int]) =~= text@.push(',').push(
                day_digit(days@[i as int]),
            ));
            assert(after.len() == 1 ==> after[0] =~= Seq::<char>::empty().push(
                day_digit(days@[i as int]),
            ));
        }
        if i > 0 {
            text.push(',');
        }
        text.push(day_char(days[i]));
        i += 1;
    }
    assert(days@.take(i as int) =~= days@);
    text
}

/// Reads a list of weekdays from its persisted form. Parts that do not read
/// as a number from 0 to 6 are passed over.
pub fn decode_days(text: &str) -> (days: Vec<Weekday>)
    ensures
        days@ == days_from_text(text@),
{
    let parts = split_commas(text);
    let mut days: Vec<Weekday> = Vec::new();
    let mut i: usize = 0;
    assert(texts(parts@).take(0) =~= Seq::<Seq<char>>::empty());
    while i < parts.len()
        invariant
            i <= parts.len(),
            days@ == days_of_fields(texts(parts@).take(i as int)),
        decreases parts.len() - i,
    {
        proof {
            let after = texts(parts@).take(i + 1);
            assert(after.drop_last() =~= texts(parts@).take(i as int));
            assert(after.last() == parts@[i as int]@);
        }
        match parse_u32(parts[i].as_str()) {
            Some(n) => {
                match Weekday::from_days_from_monday(n) {
                    Some(day) => {
                        days.push(day);
                    },
                    None => {},
                }
            },
            None => {},
        }
        i += 1;
    }
    assert(texts(parts@).take(i as int) =~= texts(parts@));
    days
}

/// Writes a list of application names in its persisted form.
pub fn encode_apps(apps: &Vec<String>) -> (text: String)
    ensures
        text@ == apps_text(texts(apps@)),
{
    proof {
        reveal_strlit(",");
        assert(","@ =~= seq![',']);
    }
    join_texts(apps, ",")
}

/// Reads a list of application names from its persisted form. Empty parts
/// are passed over.
pub fn decode_apps(text: &str) -> (apps: Vec<String>)
    ensures
        texts(apps@) == apps_from_text(text@),
{
    let parts = split_commas(text);
    let mut apps: Vec<String> = Vec::new();
    let mut i: usize = 0;
    assert(texts(parts@).take(0) =~= Seq::<Seq<char>>::empty());
    assert(texts(apps@) =~= Seq::<Seq<char>>::empty());
    while i < parts.len()
        invariant
            i <= parts.len(),
            texts(apps@) == non_empty(texts(parts@).take(i as int)),
        decreases parts.len() - i,
    {
        let ghost kept = texts(apps@);
        proof {
            let after = texts(parts@).take(i + 1);
            assert(after.drop_last() =~= texts(parts@).take(i as int));
            assert(after.last() == parts@[i as int]@);
        }
        if !parts[i].as_str().is_empty() {
            apps.push(parts[i].clone());
            assert(texts(apps@) =~= kept.push(parts@[i as int]@));
        }
        i += 1;
    }
    assert(texts(parts@).take(i as int) =~= texts(parts@));
    apps
}

/// Reads a time of day from its persisted form, as far as it holds one. The
/// text written for a time reads back as that time to the minute.
pub fn parse_time(text: &str) -> (t: Option<TimeOfDay>)
    ensures
        t == time_from_text(text@),
        t.is_some() ==> t.unwrap().wf(),
        forall|written: TimeOfDay|
            written.wf() && text@ == #[trigger] hhmm_text(written) ==> t == Some(
                to_the_minute(written),
            ),
{
    let parts = parse_hhmm(text);
    proof {
        assert forall|written: TimeOfDay|
            written.wf() && text@ == #[trigger] hhmm_text(written) implies parts == Some(
            (to_the_minute(written).secs, 0u32),
        ) by {
            let hour = written.secs as int / 3600;
            let minute = (written.secs as int % 3600) / 60;
            assert(text@ == hhmm_of(hour, minute));
            assert(hour * 3600 + minute * 60 == written.secs - written.secs % 60);
        }
    }
    match parts {
        Some(parts) => Some(TimeOfDay { secs: parts.0, frac: parts.1 }),
        None => None,
    }
}

/// Writes a schedule in its persisted form. The id is not among the fields:
/// the store keeps it beside them.
pub fn encode_schedule(schedule: &Schedule) -> (fields: ScheduleFields)
    requires
        schedule.start_time.wf(),
        schedule.end_time.wf(),
    ensures
        fields@ == fields_of(schedule@),
{
    ScheduleFields {
        name: schedule.name.clone(),
        start_time: format_hhmm(&schedule.start_time),
        end_time: format_hhmm(&schedule.end_time),
        days: encode_days(&schedule.days),
        expected_apps: encode_apps(&schedule.expected_apps),
        check_interval_secs: schedule.check_interval_secs,
        grace_period_secs: schedule.grace_period_secs,
        enabled: schedule.enabled,
    }
}

/// Builds the schedule stored under `id` from its persisted fields, the two
/// times already read. A start that could not be read is 09:00, an end that
/// could not be read is 17:00.
pub fn schedule_from_fields(
    id: i64,
    fields: &ScheduleFields,
    start: Option<TimeOfDay>,
    end: Option<TimeOfDay>,
) -> (schedule: Schedule)
    ensures
        schedule@ == schedule_of(id, fields@, start, end),
{
    Schedule {
        id: Some(id),
        name: fields.name.clone(),
        start_time: match start {
            Some(t) => t,
            None => TimeOfDay { secs: 32_400, frac: 0 },
        },
        end_time: match end {
            Some(t) => t,
            None => TimeOfDay { secs: 61_200, frac: 0 },
        },
        days: decode_days(fields.days.as_str()),
        expected_apps: decode_apps(fields.expected_apps.as_str()),
        check_interval_secs: fields.check_interval_secs,
        grace_period_secs: fields.grace_period_secs,
        enabled: fields.enabled,
    }
}

/// Reads the schedule stored under `id` from its persisted fields. Fields
/// that were written for a schedule with plain application names give that
/// schedule back under `id`, its two times to the minute.
pub fn decode_schedule(id: i64, fields: &ScheduleFields) -> (schedule: Schedule)
    ensures
        schedule@ == schedule_of(
            id,
            fields@,
            time_from_text(fields.start_time@),
            time_from_text(fields.end_time@),
        ),
        schedule.start_time.wf(),
        schedule.end_time.wf(),
        forall|written: ScheduleView|
            written.start_time.wf() && written.end_time.wf() && plain_names(written.expected_apps)
                && fields@ == #[trigger] fields_of(written) ==> schedule@ == (ScheduleView {
                id: Some(id),
                start_time: to_the_minute(written.start_time),
                end_time: to_the_minute(written.end_time),
                ..written
            }),
{
    let start = parse_time(fields.start_time.as_str());
    let end = parse_time(fields.end_time.as_str());
    proof {
        assert forall|written: ScheduleView|
            written.start_time.wf() && written.end_time.wf() && plain_names(written.expected_apps)
                && fields@ == #[trigger] fields_of(written) implies schedule_of(
            id,
            fields@,
            start,
            end,
        ) == (ScheduleView {
            id: Some(id),
            start_time: to_the_minute(written.start_time),
            end_time: to_the_minute(written.end_time),
            ..written
        }) by {
            assert(fields.start_time@ == hhmm_text(written.start_time));
            assert(fields.end_time@ == hhmm_text(written.end_time));
            lemma_days_round_trip(written.days);
            lemma_apps_round_trip(written.expected_apps);
        }
    }
    schedule_from_fields(id, fields, start, end)
}

/// Keeps the schedules that are enabled, in order.
pub fn enabled_only(all: Vec<Schedule>) -> (kept: Vec<Schedule>)
    ensures
        schedule_views(kept@) == enabled_of(schedule_views(all@)),
{
    let mut rest = all;
    let mut found: Vec<Schedule> = Vec::new();
    assert(schedule_views(found@).reverse() =~= Seq::<ScheduleView>::empty());
    while rest.len() > 0
        invariant
            enabled_of(schedule_views(all@)) == enabled_of(schedule_views(rest@)) + schedule_views(
                found@,
            ).reverse(),
        decreases rest.len(),
    {
        let ghost before = schedule_views(rest@);
        let ghost seen = schedule_views(found@);
        let last = rest.pop().unwrap();
        assert(schedule_views(rest@) =~= before.drop_last());
        assert(before.last() == last@);
        if last.enabled {
            found.push(last);
            assert(schedule_views(found@) =~= seen.push(last@));
            assert(seen.push(last@).reverse() =~= seq![last@] + seen.reverse());
            assert(enabled_of(before.drop_last()).push(last@) + seen.reverse() =~= enabled_of(
                before.drop_last(),
            ) + (seq![last@] + seen.reverse()));
        }
    }
    assert(enabled_of(schedule_views(rest@)) =~= Seq::<ScheduleView>::empty());
    let ghost target = schedule_views(found@).reverse();
    assert(enabled_of(schedule_views(all@)) =~= target);
    let mut kept: Vec<Schedule> = Vec::new();
    assert(schedule_views(kept@) + schedule_views(found@).reverse() =~= target);
    while found.len() > 0
        invariant
            schedule_views(kept@) + schedule_views(found@).reverse() == target,
        decreases found.len(),
    {
        let ghost before = schedule_views(found@);
        let ghost done = schedule_views(kept@);
        let last = found.pop().unwrap();
        assert(schedule_views(found@) =~= before.drop_last());
        assert(before.last() == last@);
        kept.push(last);
        assert(schedule_views(kept@) =~= done.push(last@));
        assert(before.reverse() =~= seq![last@] + before.drop_last().reverse());
        assert(done.push(last@) + before.drop_last().reverse() =~= done + (seq![last@]
            + before.drop_last().reverse()));
    }
    assert(schedule_views(found@).reverse() =~= Seq::<ScheduleView>::empty());
    assert(schedule_views(kept@) + Seq::<ScheduleView>::empty() =~= schedule_views(kept@));
    kept
}

/// Every text has at least one part.
pub proof fn lemma_fields_some(s: Seq<char>)
    ensures
        fields(s).len() >= 1,
    decreases s.len(),
{
    if s.len() > 0 {
        lemma_fields_some(s.drop_last());
    }
}

/// Characters other than commas that follow a text lengthen its last part.
pub proof fn lemma_fields_extend(s: Seq<char>, tail: Seq<char>)
    requires
        !tail.contains(','),
    ensures
        fields(s).len() >= 1,
        fields(s + tail) == fields(s).drop_last().push(fields(s).last() + tail),
    decreases tail.len(),
{
    lemma_fields_some(s);
    if tail.len() == 0 {
        assert(s + tail =~= s);
        assert(fields(s).last() + tail =~= fields(s).last());
        assert(fields(s).drop_last().push(fields(s).last()) =~= fields(s));
    } else {
        let shorter = tail.drop_last();
        assert(!shorter.contains(',')) by {
            if shorter.contains(',') {
                let i = choose|i: int| 0 <= i < shorter.len() && shorter[i] == ',';
                assert(tail[i] == ',');
            }
        }
        assert(tail.last() != ',') by {
            assert(tail[tail.len() - 1] == tail.last());
        }
        lemma_fields_extend(s, shorter);
        assert((s + tail).drop_last() =~= s + shorter);
        assert((s + tail).last() == tail.last());
        let before = fields(s + shorter);
        assert(before.last() == fields(s).last() + shorter);
        assert(before.drop_last() =~= fields(s).drop_last());
        assert(before.last().push(tail.last()) =~= fields(s).last() + tail);
    }
}

/// Parts without commas, at least one of them, are found again in the text
/// that joins them.
pub proof fn lemma_fields_of_join(parts: Seq<Seq<char>>)
    requires
        parts.len() >= 1,
        forall|i: int| 0 <= i < parts.len() ==> !(#[trigger] parts[i]).contains(','),
    ensures
        fields(join_commas(parts)) == parts,
    decreases parts.len(),
{
    let empty = Seq::<char>::empty();
    if parts.len() == 1 {
        lemma_fields_extend(empty, parts[0]);
        assert(empty + parts[0] =~= parts[0]);
        assert(fields(empty) =~= seq![empty]);
        assert(fields(parts[0]) =~= parts);
    } else {
        let earlier = parts.drop_last();
        assert forall|i: int| 0 <= i < earlier.len() implies !(#[trigger] earlier[i]).contains(
            ',',
        ) by {
            assert(earlier[i] == parts[i]);
        }
        lemma_fields_of_join(earlier);
        let head = join_commas(earlier) + seq![','];
        assert(head.drop_last() =~= join_commas(earlier));
        assert(head.last() == ',');
        assert(fields(head) == earlier.push(empty));
        assert(parts.last() == parts[parts.len() - 1]);
        lemma_fields_extend(head, parts.last());
        assert(empty + parts.last() =~= parts.last());
        assert(fields(head).drop_last() =~= earlier);
        assert(earlier.push(parts.last()) =~= parts);
    }
}

/// The part that stands for a weekday is read back as that weekday.
pub proof fn lemma_day_field_read_back(day: Weekday)
    ensures
        day_of_field(day_field(day)) == Some(day),
        !day_field(day).contains(','),
{
    let field = day_field(day);
    assert(field.len() == 1);
    assert(field[0] == day_digit(day));
    assert(field.drop_last() =~= Seq::<char>::empty());
    assert(field.last() == day_digit(day));
    reveal_with_fuel(crate::text::digits_value, 2);
    assert(crate::text::digits_value(field) == day.index());
    assert(!field.contains(',')) by {
        if field.contains(',') {
            let i = choose|i: int| 0 <= i < field.len() && field[i] == ',';
            assert(field[0] == ',');
        }
    }
}

/// Weekdays survive the persisted form: the text written for a list of
/// weekdays reads back as the same list, in the same order.
pub proof fn lemma_days_round_trip(days: Seq<Weekday>)
    ensures
        days_from_text(days_text(days)) == days,
{
    let parts = days.map_values(|d: Weekday| day_field(d));
    if days.len() == 0 {
        assert(join_commas(parts) =~= Seq::<char>::empty());
        assert(fields(Seq::<char>::empty()) =~= seq![Seq::<char>::empty()]);
        let only = seq![Seq::<char>::empty()];
        assert(only.drop_last() =~= Seq::<Seq<char>>::empty());
        assert(only.last() =~= Seq::<char>::empty());
        assert(reads_as_u32(only.last()).is_none());
        reveal_with_fuel(days_of_fields, 2);
        assert(days_of_fields(only) =~= Seq::<Weekday>::empty());
        assert(days =~= Seq::<Weekday>::empty());
    } else {
        assert forall|i: int| 0 <= i < parts.len() implies !(#[trigger] parts[i]).contains(',') by {
            lemma_day_field_read_back(days[i]);
        }
        lemma_fields_of_join(parts);
        lemma_days_of_day_fields(days);
    }
}

/// The parts that stand for a list of weekdays are read back as that list.
pub proof fn lemma_days_of_day_fields(days: Seq<Weekday>)
    ensures
        days_of_fields(days.map_values(|d: Weekday| day_field(d))) == days,
    decreases days.len(),
{
    let parts = days.map_values(|d: Weekday| day_field(d));
    if days.len() == 0 {
        assert(days_of_fields(parts) =~= days);
    } else {
        lemma_days_of_day_fields(days.drop_last());
        assert(parts.drop_last() =~= days.drop_last().map_values(|d: Weekday| day_field(d)));
        assert(parts.last() == day_field(days.last()));
        lemma_day_field_read_back(days.last());
        assert(days.drop_last().push(days.last()) =~= days);
    }
}

/// Application names survive the persisted form when none of them is empty
/// or holds a comma.
pub proof fn lemma_apps_round_trip(apps: Seq<Seq<char>>)
    requires
        plain_names(apps),
    ensures
        apps_from_text(apps_text(apps)) == apps,
{
    if apps.len() == 0 {
        assert(join_commas(apps) =~= Seq::<char>::empty());
        let only = seq![Seq::<char>::empty()];
        assert(fields(Seq::<char>::empty()) =~= only);
        assert(only.drop_last() =~= Seq::<Seq<char>>::empty());
        assert(only.last().len() == 0);
        reveal_with_fuel(non_empty, 2);
        assert(non_empty(only) =~= Seq::<Seq<char>>::empty());
        assert(apps =~= Seq::<Seq<char>>::empty());
    } else {
        lemma_fields_of_join(apps);
        lemma_non_empty_keeps(apps);
    }
}

/// A schedule survives the persisted form, its times apart: when none of the
/// expected applications is empty or holds a comma, the fields written for
/// the schedule, together with its two times, give the schedule back under
/// the id it is stored with.
pub proof fn lemma_schedule_round_trip(id: i64, schedule: ScheduleView)
    requires
        plain_names(schedule.expected_apps),
    ensures
        schedule_of(
            id,
            fields_of(schedule),
            Some(schedule.start_time),
            Some(schedule.end_time),
        ) == (ScheduleView { id: Some(id), ..schedule }),
{
    lemma_days_round_trip(schedule.days);
    lemma_apps_round_trip(schedule.expected_apps);
}

/// A list without empty parts is its own list of non-empty parts.
pub proof fn lemma_non_empty_keeps(parts: Seq<Seq<char>>)
    requires
        forall|i: int| 0 <= i < parts.len() ==> (#[trigger] parts[i]).len() > 0,
    ensures
        non_empty(parts) == parts,
    decreases parts.len(),
{
    if parts.len() == 0 {
        assert(non_empty(parts) =~= parts);
    } else {
        let earlier = parts.drop_last();
        assert forall|i: int| 0 <= i < earlier.len() implies (#[trigger] earlier[i]).len() > 0 by {
            assert(earlier[i] == parts[i]);
        }
        lemma_non_empty_keeps(earlier);
        assert(parts.last() == parts[parts.len() - 1]);
        assert(earlier.push(parts.last()) =~= parts);
    }
}

} // verus!

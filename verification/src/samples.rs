//! Sample contribution data for trying the graph out: a busy year and a
//! year of weekend work.

use crate::date::civil_day_number;
use crate::date::date_text_of;
use crate::date::is_day_of_month;
use crate::date::is_valid_day;
use crate::date::weekday_of;
use crate::date::Date;
use crate::date::MAX_YEAR;
use crate::date::MIN_YEAR;
use std::collections::HashMap;
use vstd::prelude::*;

verus! {

/// The day number of January 1 of `year`.
pub open spec fn first_of_year(year: int) -> int {
    civil_day_number(year, 1, 1)
}

/// The day number of December 31 of `year`.
pub open spec fn last_of_year(year: int) -> int {
    civil_day_number(year, 12, 31)
}

/// Whether a day falls on a Saturday or a Sunday.
pub open spec fn is_weekend(day: int) -> bool {
    weekday_of(day) == 0 || weekday_of(day) == 6
}

/// The sum of the bytes of `text`.
pub open spec fn byte_sum(text: Seq<u8>) -> int
    decreases text.len(),
{
    if text.len() == 0 {
        0
    } else {
        byte_sum(text.drop_last()) + text.last()
    }
}

/// `byte_sum` adds up bytes: nothing sums to 0, one byte to itself, and
/// the sum over two texts put together is the sum of their sums.
pub proof fn lemma_byte_sum_adds_up(s: Seq<u8>, t: Seq<u8>, b: u8)
    ensures
        byte_sum(Seq::empty()) == 0,
        byte_sum(seq![b]) == b,
        byte_sum(s + t) == byte_sum(s) + byte_sum(t),
    decreases t.len(),
{
    assert(seq![b].drop_last() =~= Seq::<u8>::empty());
    if t.len() > 0 {
        lemma_byte_sum_adds_up(s, t.drop_last(), b);
        assert((s + t).drop_last() =~= s + t.drop_last());
    } else {
        assert(s + t =~= s);
    }
}

/// The pseudo-random hash of a date: 13 times the sum of the bytes of its
/// text.
pub open spec fn date_hash(day: int) -> int {
    13 * byte_sum(date_text_of(day))
}

/// Generators of sample data, keyed by day number.
pub struct MockData;

impl MockData {
    /// The pseudo-random draw for a date: its hash modulo 100 (a percentile
    /// to hold against a density) and the count it would get, the hash
    /// modulo 15 plus 1.
    pub fn random_draw(date: Date) -> (r: (u32, u32))
        ensures
            r.0 == date_hash(date@) % 100,
            r.1 == date_hash(date@) % 15 + 1,
            r.0 == (13 * byte_sum(date_text_of(date@))) % 100,
            r.1 == (13 * byte_sum(date_text_of(date@))) % 15 + 1,
    {
        let text = date.text();
        let mut sum: u32 = 0;
        let mut i: usize = 0;
        while i < text.len()
            invariant
                i <= text@.len(),
                text@.len() <= 13,
                sum == byte_sum(text@.subrange(0, i as int)),
                sum <= 255 * i,
            decreases text@.len() - i,
        {
            proof {
                assert(text@.subrange(0, i + 1).drop_last() == text@.subrange(0, i as int));
            }
            sum = sum + text[i] as u32;
            i = i + 1;
        }
        proof {
            assert(text@.subrange(0, i as int) == text@);
        }
        let hash = sum * 13;
        (hash % 100, hash % 15 + 1)
    }

    /// Pseudo-random contributions over `year`: a date gets a count when
    /// the percentile of its draw is under `cutoff`, and the count is the
    /// one it draws. A cutoff of 40 gives about 40 days in 100.
    pub fn random(year: i32, cutoff: u32) -> (data: HashMap<i32, u32>)
        requires
            MIN_YEAR <= year < MAX_YEAR,
        ensures
            forall|d: i32|
                #[trigger] data@.contains_key(d) <==> first_of_year(year as int) <= d
                    <= last_of_year(year as int) && date_hash(d as int) % 100 < cutoff,
            forall|d: i32|
                #[trigger] data@.contains_key(d) ==> data@[d] == date_hash(d as int) % 15 + 1,
            forall|d: i32|
                #[trigger] data@.contains_key(d) <==> first_of_year(year as int) <= d
                    <= last_of_year(year as int) && (13 * byte_sum(date_text_of(d as int))) % 100
                    < cutoff,
            forall|d: i32|
                #[trigger] data@.contains_key(d) ==> data@[d] == (13 * byte_sum(
                    date_text_of(d as int),
                )) % 15 + 1,
    {
        let mut data: HashMap<i32, u32> = HashMap::new();
        let start = Date::from_ymd(year, 1, 1).unwrap().day_number();
        let end = Date::from_ymd(year, 12, 31).unwrap().day_number();
        let mut curr = start;
        while curr <= end
            invariant
                is_valid_day(start as int),
                is_valid_day(end as int),
                start == first_of_year(year as int),
                end == last_of_year(year as int),
                start <= curr <= end + 1 || curr == start,
                forall|d: i32| #[trigger]
                    data@.contains_key(d) <==> start <= d < curr && date_hash(d as int) % 100
                        < cutoff,
                forall|d: i32| #[trigger]
                    data@.contains_key(d) ==> data@[d] == date_hash(d as int) % 15 + 1,
            decreases end + 1 - curr,
        {
            let date = Date::from_day_number(curr).unwrap();
            let (percentile, count) = MockData::random_draw(date);
            if percentile < cutoff {
                data.insert(curr, count);
            }
            curr = curr + 1;
        }
        data
    }

    /// A contribution on every day of `year`: 5 plus the day of the month
    /// modulo 10.
    pub fn heavy_activity(year: i32) -> (data: HashMap<i32, u32>)
        requires
            MIN_YEAR <= year < MAX_YEAR,
        ensures
            forall|d: i32|
                #[trigger] data@.contains_key(d) <==> first_of_year(year as int) <= d
                    <= last_of_year(year as int),
            forall|d: i32|
                #[trigger] data@.contains_key(d) ==> exists|dom: int|
                    is_day_of_month(d as int, dom) && data@[d] == 5 + dom % 10,
    {
        let mut data: HashMap<i32, u32> = HashMap::new();
        let start = Date::from_ymd(year, 1, 1).unwrap().day_number();
        let end = Date::from_ymd(year, 12, 31).unwrap().day_number();
        let mut curr = start;
        while curr <= end
            invariant
                is_valid_day(start as int),
                is_valid_day(end as int),
                start == first_of_year(year as int),
                end == last_of_year(year as int),
                start <= curr <= end + 1 || curr == start,
                forall|d: i32| #[trigger]
                    data@.contains_key(d) <==> start <= d < curr,
                forall|d: i32|
                    #[trigger] data@.contains_key(d) ==> exists|dom: int|
                        is_day_of_month(d as int, dom) && data@[d] == 5 + dom % 10,
            decreases end + 1 - curr,
        {
            let date = Date::from_day_number(curr).unwrap();
            data.insert(curr, 5 + (date.day() % 10));
            curr = curr + 1;
        }
        data
    }

    /// Contributions on the Saturdays and Sundays of `year`: 8 plus the day
    /// of the month modulo 5.
    pub fn weekend_warrior(year: i32) -> (data: HashMap<i32, u32>)
        requires
            MIN_YEAR <= year < MAX_YEAR,
        ensures
            forall|d: i32|
                #[trigger] data@.contains_key(d) <==> first_of_year(year as int) <= d
                    <= last_of_year(year as int) && is_weekend(d as int),
            forall|d: i32|
                #[trigger] data@.contains_key(d) ==> exists|dom: int|
                    is_day_of_month(d as int, dom) && data@[d] == 8 + dom % 5,
    {
        let mut data: HashMap<i32, u32> = HashMap::new();
        let start = Date::from_ymd(year, 1, 1).unwrap().day_number();
        let end = Date::from_ymd(year, 12, 31).unwrap().day_number();
        let mut curr = start;
        while curr <= end
            invariant
                is_valid_day(start as int),
                is_valid_day(end as int),
                start == first_of_year(year as int),
                end == last_of_year(year as int),
                start <= curr <= end + 1 || curr == start,
                forall|d: i32| #[trigger]
                    data@.contains_key(d) <==> start <= d < curr && is_weekend(d as int),
                forall|d: i32|
                    #[trigger] data@.contains_key(d) ==> exists|dom: int|
                        is_day_of_month(d as int, dom) && data@[d] == 8 + dom % 5,
            decreases end + 1 - curr,
        {
            let date = Date::from_day_number(curr).unwrap();
            let weekday = date.weekday_from_sunday();
            if weekday == 6 || weekday == 0 {
                data.insert(curr, 8 + (date.day() % 5));
            }
            curr = curr + 1;
        }
        data
    }
}

} // verus!

//! Days of the week and the cycle between them.

use vstd::prelude::*;
use crate::text::str_equals;

verus! {

/// A day of the week.
#[derive(Debug, Clone, Copy, PartialEq, Eq, Structural)]
pub enum Weekday {
    Mon,
    Tue,
    Wed,
    Thu,
    Fri,
    Sat,
    Sun,
}

/// The position of `d` in the week, Monday first.
pub open spec fn day_index(d: Weekday) -> int {
    match d {
        Weekday::Mon => 0,
        Weekday::Tue => 1,
        Weekday::Wed => 2,
        Weekday::Thu => 3,
        Weekday::Fri => 4,
        Weekday::Sat => 5,
        Weekday::Sun => 6,
    }
}

/// The day at position `i` of the week (taken modulo seven).
pub open spec fn day_at(i: int) -> Weekday {
    let k = i % 7;
    if k == 0 {
        Weekday::Mon
    } else if k == 1 {
        Weekday::Tue
    } else if k == 2 {
        Weekday::Wed
    } else if k == 3 {
        Weekday::Thu
    } else if k == 4 {
        Weekday::Fri
    } else if k == 5 {
        Weekday::Sat
    } else {
        Weekday::Sun
    }
}

/// The three-letter lower-case name of a day.
pub open spec fn day_name(d: Weekday) -> Seq<char> {
    match d {
        Weekday::Mon => "mon"@,
        Weekday::Tue => "tue"@,
        Weekday::Wed => "wed"@,
        Weekday::Thu => "thu"@,
        Weekday::Fri => "fri"@,
        Weekday::Sat => "sat"@,
        Weekday::Sun => "sun"@,
    }
}

pub proof fn lemma_day_at_index(d: Weekday)
    ensures
        day_at(day_index(d)) == d,
        0 <= day_index(d) < 7,
{
}

/// Whole weeks do not change the day.
pub proof fn lemma_day_at_shift(i: int, w: int)
    ensures
        day_at(i - 7 * w) == day_at(i),
{
    assert((i - 7 * w) % 7 == i % 7) by (nonlinear_arith);
}

pub proof fn lemma_day_index_at(i: int)
    ensures
        day_index(day_at(i)) == i % 7,
{
}

impl Weekday {
    /// The day after this one.
    pub open spec fn succ_spec(self) -> Weekday {
        day_at(day_index(self) + 1)
    }

    /// The day before this one; Monday is preceded by Sunday.
    pub fn pred(self) -> (r: Self)
        ensures
            day_index(r) == (day_index(self) + 6) % 7,
            r == day_at(day_index(self) + 6),
    {
        match self {
            Weekday::Mon => Self::Sun,
            Weekday::Tue => Self::Mon,
            Weekday::Wed => Self::Tue,
            Weekday::Thu => Self::Wed,
            Weekday::Fri => Self::Thu,
            Weekday::Sat => Self::Fri,
            Weekday::Sun => Self::Sat,
        }
    }

    /// The day after this one; Sunday is followed by Monday.
    pub fn succ(self) -> (r: Self)
        ensures
            day_index(r) == (day_index(self) + 1) % 7,
            r == self.succ_spec(),
    {
        match self {
            Weekday::Mon => Self::Tue,
            Weekday::Tue => Self::Wed,
            Weekday::Wed => Self::Thu,
            Weekday::Thu => Self::Fri,
            Weekday::Fri => Self::Sat,
            Weekday::Sat => Self::Sun,
            Weekday::Sun => Self::Mon,
        }
    }

    /// Reads a day from its three-letter lower-case name.
    pub fn from_name(s: &str) -> (r: Option<Self>)
        ensures
            r matches Some(d) ==> day_name(d) == s@,
            r is None ==> forall|d: Weekday| day_name(d) != s@,
    {
        proof {
            reveal_strlit("mon");
            reveal_strlit("tue");
            reveal_strlit("wed");
            reveal_strlit("thu");
            reveal_strlit("fri");
            reveal_strlit("sat");
            reveal_strlit("sun");
        }
        if str_equals(s, "mon") {
            Some(Weekday::Mon)
        } else if str_equals(s, "tue") {
            Some(Weekday::Tue)
        } else if str_equals(s, "wed") {
            Some(Weekday::Wed)
        } else if str_equals(s, "thu") {
            Some(Weekday::Thu)
        } else if str_equals(s, "fri") {
            Some(Weekday::Fri)
        } else if str_equals(s, "sat") {
            Some(Weekday::Sat)
        } else if str_equals(s, "sun") {
            Some(Weekday::Sun)
        } else {
            None
        }
    }
}

/// The three-letter lower-case name of a day, as used on the wire.
pub fn weekday_to_lowercase_str(weekday: &Weekday) -> (r: &'static str)
    ensures
        r@ == day_name(*weekday),
{
    match *weekday {
        Weekday::Mon => "mon",
        Weekday::Tue => "tue",
        Weekday::Wed => "wed",
        Weekday::Thu => "thu",
        Weekday::Fri => "fri",
        Weekday::Sat => "sat",
        Weekday::Sun => "sun",
    }
}

impl core::str::FromStr for Weekday {
    type Err = ();

    fn from_str(s: &str) -> Result<Self, Self::Err> {
        match Weekday::from_name(s) {
            Some(d) => Ok(d),
            None => Err(()),
        }
    }
}

} // verus!

//! The built-in functions and the shape of their argument lists.
use crate::text::same_text;
use vstd::prelude::*;

verus! {

/// The shape of a built-in function's argument list.
#[derive(Debug, Clone, Copy, PartialEq, Eq, Structural)]
pub enum Arity {
    /// One expression.
    Single,
    /// Two expressions.
    Dual,
    /// An expression, and a body that is evaluated for each of its items.
    Closure,
}

#[derive(Debug, Clone, Copy, PartialEq, Eq, Structural)]
pub enum BuiltInFunction {
    Len,
    Contains,
    Flatten,
    Upper,
    Lower,
    Trim,
    StartsWith,
    EndsWith,
    Matches,
    Extract,
    FuzzyMatch,
    Split,
    Abs,
    Sum,
    Avg,
    Min,
    Max,
    Rand,
    Median,
    Mode,
    Floor,
    Ceil,
    Round,
    IsNumeric,
    String,
    Number,
    Bool,
    Type,
    Keys,
    Values,
    Date,
    Time,
    Duration,
    Year,
    DayOfWeek,
    DayOfMonth,
    DayOfYear,
    WeekOfYear,
    MonthOfYear,
    MonthString,
    DateString,
    WeekdayString,
    StartOf,
    EndOf,
    All,
    SomeOf,
    NoneOf,
    One,
    Filter,
    MapEach,
    FlatMap,
    Count,
}

/// The built-in function of a given name, if there is one.
pub open spec fn built_in(name: Seq<char>) -> Option<BuiltInFunction> {
    if exists|function: BuiltInFunction| function.name() == name {
        Some(choose|function: BuiltInFunction| function.name() == name)
    } else {
        None
    }
}

/// The length of a built-in function's name, and the characters that tell it from the other
/// names of that length.
spec fn signature(function: BuiltInFunction) -> (int, char, char, char) {
    match function {
        BuiltInFunction::Len => (3, 'l', 'e', 'n'),
        BuiltInFunction::Contains => (8, 'c', 'o', 's'),
        BuiltInFunction::Flatten => (7, 'f', 'l', 'n'),
        BuiltInFunction::Upper => (5, 'u', 'p', 'r'),
        BuiltInFunction::Lower => (5, 'l', 'o', 'r'),
        BuiltInFunction::Trim => (4, 't', 'r', 'm'),
        BuiltInFunction::StartsWith => (10, 's', 't', 'h'),
        BuiltInFunction::EndsWith => (8, 'e', 'n', 'h'),
        BuiltInFunction::Matches => (7, 'm', 'a', 's'),
        BuiltInFunction::Extract => (7, 'e', 'x', 't'),
        BuiltInFunction::FuzzyMatch => (10, 'f', 'u', 'h'),
        BuiltInFunction::Split => (5, 's', 'p', 't'),
        BuiltInFunction::Abs => (3, 'a', 'b', 's'),
        BuiltInFunction::Sum => (3, 's', 'u', 'm'),
        BuiltInFunction::Avg => (3, 'a', 'v', 'g'),
        BuiltInFunction::Min => (3, 'm', 'i', 'n'),
        BuiltInFunction::Max => (3, 'm', 'a', 'x'),
        BuiltInFunction::Rand => (4, 'r', 'a', 'd'),
        BuiltInFunction::Median => (6, 'm', 'e', 'n'),
        BuiltInFunction::Mode => (4, 'm', 'o', 'e'),
        BuiltInFunction::Floor => (5, 'f', 'l', 'r'),
        BuiltInFunction::Ceil => (4, 'c', 'e', 'l'),
        BuiltInFunction::Round => (5, 'r', 'o', 'd'),
        BuiltInFunction::IsNumeric => (9, 'i', 's', 'c'),
        BuiltInFunction::String => (6, 's', 't', 'g'),
        BuiltInFunction::Number => (6, 'n', 'u', 'r'),
        BuiltInFunction::Bool => (4, 'b', 'o', 'l'),
        BuiltInFunction::Type => (4, 't', 'y', 'e'),
        BuiltInFunction::Keys => (4, 'k', 'e', 's'),
        BuiltInFunction::Values => (6, 'v', 'a', 's'),
        BuiltInFunction::Date => (4, 'd', 'a', 'e'),
        BuiltInFunction::Time => (4, 't', 'i', 'e'),
        BuiltInFunction::Duration => (8, 'd', 'u', 'n'),
        BuiltInFunction::Year => (4, 'y', 'e', 'r'),
        BuiltInFunction::DayOfWeek => (9, 'd', 'a', 'k'),
        BuiltInFunction::DayOfMonth => (10, 'd', 'a', 'h'),
        BuiltInFunction::DayOfYear => (9, 'd', 'a', 'r'),
        BuiltInFunction::WeekOfYear => (10, 'w', 'e', 'r'),
        BuiltInFunction::MonthOfYear => (11, 'm', 'o', 'r'),
        BuiltInFunction::MonthString => (11, 'm', 'o', 'g'),
        BuiltInFunction::DateString => (10, 'd', 'a', 'g'),
        BuiltInFunction::WeekdayString => (13, 'w', 'e', 'g'),
        BuiltInFunction::StartOf => (7, 's', 't', 'f'),
        BuiltInFunction::EndOf => (5, 'e', 'n', 'f'),
        BuiltInFunction::All => (3, 'a', 'l', 'l'),
        BuiltInFunction::SomeOf => (4, 's', 'o', 'e'),
        BuiltInFunction::NoneOf => (4, 'n', 'o', 'e'),
        BuiltInFunction::One => (3, 'o', 'n', 'e'),
        BuiltInFunction::Filter => (6, 'f', 'i', 'r'),
        BuiltInFunction::MapEach => (3, 'm', 'a', 'p'),
        BuiltInFunction::FlatMap => (7, 'f', 'l', 'p'),
        BuiltInFunction::Count => (5, 'c', 'o', 't'),
    }
}

proof fn lemma_signature(function: BuiltInFunction)
    ensures
        signature(function) == ({
            let name = function.name();
            (name.len() as int, name[0], name[1], name[name.len() - 1])
        }),
{
    match function {
        BuiltInFunction::Len => reveal_strlit("len"),
        BuiltInFunction::Contains => reveal_strlit("contains"),
        BuiltInFunction::Flatten => reveal_strlit("flatten"),
        BuiltInFunction::Upper => reveal_strlit("upper"),
        BuiltInFunction::Lower => reveal_strlit("lower"),
        BuiltInFunction::Trim => reveal_strlit("trim"),
        BuiltInFunction::StartsWith => reveal_strlit("startsWith"),
        BuiltInFunction::EndsWith => reveal_strlit("endsWith"),
        BuiltInFunction::Matches => reveal_strlit("matches"),
        BuiltInFunction::Extract => reveal_strlit("extract"),
        BuiltInFunction::FuzzyMatch => reveal_strlit("fuzzyMatch"),
        BuiltInFunction::Split => reveal_strlit("split"),
        BuiltInFunction::Abs => reveal_strlit("abs"),
        BuiltInFunction::Sum => reveal_strlit("sum"),
        BuiltInFunction::Avg => reveal_strlit("avg"),
        BuiltInFunction::Min => reveal_strlit("min"),
        BuiltInFunction::Max => reveal_strlit("max"),
        BuiltInFunction::Rand => reveal_strlit("rand"),
        BuiltInFunction::Median => reveal_strlit("median"),
        BuiltInFunction::Mode => reveal_strlit("mode"),
        BuiltInFunction::Floor => reveal_strlit("floor"),
        BuiltInFunction::Ceil => reveal_strlit("ceil"),
        BuiltInFunction::Round => reveal_strlit("round"),
        BuiltInFunction::IsNumeric => reveal_strlit("isNumeric"),
        BuiltInFunction::String => reveal_strlit("string"),
        BuiltInFunction::Number => reveal_strlit("number"),
        BuiltInFunction::Bool => reveal_strlit("bool"),
        BuiltInFunction::Type => reveal_strlit("type"),
        BuiltInFunction::Keys => reveal_strlit("keys"),
        BuiltInFunction::Values => reveal_strlit("values"),
        BuiltInFunction::Date => reveal_strlit("date"),
        BuiltInFunction::Time => reveal_strlit("time"),
        BuiltInFunction::Duration => reveal_strlit("duration"),
        BuiltInFunction::Year => reveal_strlit("year"),
        BuiltInFunction::DayOfWeek => reveal_strlit("dayOfWeek"),
        BuiltInFunction::DayOfMonth => reveal_strlit("dayOfMonth"),
        BuiltInFunction::DayOfYear => reveal_strlit("dayOfYear"),
        BuiltInFunction::WeekOfYear => reveal_strlit("weekOfYear"),
        BuiltInFunction::MonthOfYear => reveal_strlit("monthOfYear"),
        BuiltInFunction::MonthString => reveal_strlit("monthString"),
        BuiltInFunction::DateString => reveal_strlit("dateString"),
        BuiltInFunction::WeekdayString => reveal_strlit("weekdayString"),
        BuiltInFunction::StartOf => reveal_strlit("startOf"),
        BuiltInFunction::EndOf => reveal_strlit("endOf"),
        BuiltInFunction::All => reveal_strlit("all"),
        BuiltInFunction::SomeOf => reveal_strlit("some"),
        BuiltInFunction::NoneOf => reveal_strlit("none"),
        BuiltInFunction::One => reveal_strlit("one"),
        BuiltInFunction::Filter => reveal_strlit("filter"),
        BuiltInFunction::MapEach => reveal_strlit("map"),
        BuiltInFunction::FlatMap => reveal_strlit("flatMap"),
        BuiltInFunction::Count => reveal_strlit("count"),
    }
}

/// No two built-in functions share a name: the name of a function leads back to it.
pub proof fn names_are_unique(function: BuiltInFunction)
    ensures
        built_in(function.name()) == Some(function),
{
    let found = built_in(function.name())->0;
    assert(found.name() == function.name());
    lemma_signature(function);
    lemma_signature(found);
}

impl BuiltInFunction {
    /// The name by which the function is called.
    pub open spec fn name(self) -> Seq<char> {
        match self {
            BuiltInFunction::Len => "len"@,
            BuiltInFunction::Contains => "contains"@,
            BuiltInFunction::Flatten => "flatten"@,
            BuiltInFunction::Upper => "upper"@,
            BuiltInFunction::Lower => "lower"@,
            BuiltInFunction::Trim => "trim"@,
            BuiltInFunction::StartsWith => "startsWith"@,
            BuiltInFunction::EndsWith => "endsWith"@,
            BuiltInFunction::Matches => "matches"@,
            BuiltInFunction::Extract => "extract"@,
            BuiltInFunction::FuzzyMatch => "fuzzyMatch"@,
            BuiltInFunction::Split => "split"@,
            BuiltInFunction::Abs => "abs"@,
            BuiltInFunction::Sum => "sum"@,
            BuiltInFunction::Avg => "avg"@,
            BuiltInFunction::Min => "min"@,
            BuiltInFunction::Max => "max"@,
            BuiltInFunction::Rand => "rand"@,
            BuiltInFunction::Median => "median"@,
            BuiltInFunction::Mode => "mode"@,
            BuiltInFunction::Floor => "floor"@,
            BuiltInFunction::Ceil => "ceil"@,
            BuiltInFunction::Round => "round"@,
            BuiltInFunction::IsNumeric => "isNumeric"@,
            BuiltInFunction::String => "string"@,
            BuiltInFunction::Number => "number"@,
            BuiltInFunction::Bool => "bool"@,
            BuiltInFunction::Type => "type"@,
            BuiltInFunction::Keys => "keys"@,
            BuiltInFunction::Values => "values"@,
            BuiltInFunction::Date => "date"@,
            BuiltInFunction::Time => "time"@,
            BuiltInFunction::Duration => "duration"@,
            BuiltInFunction::Year => "year"@,
            BuiltInFunction::DayOfWeek => "dayOfWeek"@,
            BuiltInFunction::DayOfMonth => "dayOfMonth"@,
            BuiltInFunction::DayOfYear => "dayOfYear"@,
            BuiltInFunction::WeekOfYear => "weekOfYear"@,
            BuiltInFunction::MonthOfYear => "monthOfYear"@,
            BuiltInFunction::MonthString => "monthString"@,
            BuiltInFunction::DateString => "dateString"@,
            BuiltInFunction::WeekdayString => "weekdayString"@,
            BuiltInFunction::StartOf => "startOf"@,
            BuiltInFunction::EndOf => "endOf"@,
            BuiltInFunction::All => "all"@,
            BuiltInFunction::SomeOf => "some"@,
            BuiltInFunction::NoneOf => "none"@,
            BuiltInFunction::One => "one"@,
            BuiltInFunction::Filter => "filter"@,
            BuiltInFunction::MapEach => "map"@,
            BuiltInFunction::FlatMap => "flatMap"@,
            BuiltInFunction::Count => "count"@,
        }
    }

    /// Finds a built-in function by the name by which it is called.
    pub fn from_name(name: &str) -> (function: Option<BuiltInFunction>)
        ensures
            function == built_in(name@),
    {
        let found = Self::find(name);
        proof {
            if let Some(function) = found {
                names_are_unique(function);
            }
        }
        found
    }

    fn find(name: &str) -> (found: Option<BuiltInFunction>)
        ensures
            match found {
                Some(function) => function.name() == name@,
                None => forall|function: BuiltInFunction| function.name() != name@,
            },
    {
        if same_text(name, "len") {
            Some(BuiltInFunction::Len)
        } else if same_text(name, "contains") {
            Some(BuiltInFunction::Contains)
        } else if same_text(name, "flatten") {
            Some(BuiltInFunction::Flatten)
        } else if same_text(name, "upper") {
            Some(BuiltInFunction::Upper)
        } else if same_text(name, "lower") {
            Some(BuiltInFunction::Lower)
        } else if same_text(name, "trim") {
            Some(BuiltInFunction::Trim)
        } else if same_text(name, "startsWith") {
            Some(BuiltInFunction::StartsWith)
        } else if same_text(name, "endsWith") {
            Some(BuiltInFunction::EndsWith)
        } else if same_text(name, "matches") {
            Some(BuiltInFunction::Matches)
        } else if same_text(name, "extract") {
            Some(BuiltInFunction::Extract)
        } else if same_text(name, "fuzzyMatch") {
            Some(BuiltInFunction::FuzzyMatch)
        } else if same_text(name, "split") {
            Some(BuiltInFunction::Split)
        } else if same_text(name, "abs") {
            Some(BuiltInFunction::Abs)
        } else if same_text(name, "sum") {
            Some(BuiltInFunction::Sum)
        } else if same_text(name, "avg") {
            Some(BuiltInFunction::Avg)
        } else if same_text(name, "min") {
            Some(BuiltInFunction::Min)
        } else if same_text(name, "max") {
            Some(BuiltInFunction::Max)
        } else if same_text(name, "rand") {
            Some(BuiltInFunction::Rand)
        } else if same_text(name, "median") {
            Some(BuiltInFunction::Median)
        } else if same_text(name, "mode") {
            Some(BuiltInFunction::Mode)
        } else if same_text(name, "floor") {
            Some(BuiltInFunction::Floor)
        } else if same_text(name, "ceil") {
            Some(BuiltInFunction::Ceil)
        } else if same_text(name, "round") {
            Some(BuiltInFunction::Round)
        } else if same_text(name, "isNumeric") {
            Some(BuiltInFunction::IsNumeric)
        } else if same_text(name, "string") {
            Some(BuiltInFunction::String)
        } else if same_text(name, "number") {
            Some(BuiltInFunction::Number)
        } else if same_text(name, "bool") {
            Some(BuiltInFunction::Bool)
        } else if same_text(name, "type") {
            Some(BuiltInFunction::Type)
        } else if same_text(name, "keys") {
            Some(BuiltInFunction::Keys)
        } else if same_text(name, "values") {
            Some(BuiltInFunction::Values)
        } else if same_text(name, "date") {
            Some(BuiltInFunction::Date)
        } else if same_text(name, "time") {
            Some(BuiltInFunction::Time)
        } else if same_text(name, "duration") {
            Some(BuiltInFunction::Duration)
        } else if same_text(name, "year") {
            Some(BuiltInFunction::Year)
        } else if same_text(name, "dayOfWeek") {
            Some(BuiltInFunction::DayOfWeek)
        } else if same_text(name, "dayOfMonth") {
            Some(BuiltInFunction::DayOfMonth)
        } else if same_text(name, "dayOfYear") {
            Some(BuiltInFunction::DayOfYear)
        } else if same_text(name, "weekOfYear") {
            Some(BuiltInFunction::WeekOfYear)
        } else if same_text(name, "monthOfYear") {
            Some(BuiltInFunction::MonthOfYear)
        } else if same_text(name, "monthString") {
            Some(BuiltInFunction::MonthString)
        } else if same_text(name, "dateString") {
            Some(BuiltInFunction::DateString)
        } else if same_text(name, "weekdayString") {
            Some(BuiltInFunction::WeekdayString)
        } else if same_text(name, "startOf") {
            Some(BuiltInFunction::StartOf)
        } else if same_text(name, "endOf") {
            Some(BuiltInFunction::EndOf)
        } else if same_text(name, "all") {
            Some(BuiltInFunction::All)
        } else if same_text(name, "some") {
            Some(BuiltInFunction::SomeOf)
        } else if same_text(name, "none") {
            Some(BuiltInFunction::NoneOf)
        } else if same_text(name, "one") {
            Some(BuiltInFunction::One)
        } else if same_text(name, "filter") {
            Some(BuiltInFunction::Filter)
        } else if same_text(name, "map") {
            Some(BuiltInFunction::MapEach)
        } else if same_text(name, "flatMap") {
            Some(BuiltInFunction::FlatMap)
        } else if same_text(name, "count") {
            Some(BuiltInFunction::Count)
        } else {
            None
        }
    }

    /// The functions that take two expressions.
    pub open spec fn is_dual(self) -> bool {
        ||| self is Contains
        ||| self is StartsWith
        ||| self is EndsWith
        ||| self is Matches
        ||| self is Extract
        ||| self is FuzzyMatch
        ||| self is Split
        ||| self is StartOf
        ||| self is EndOf
    }

    /// The functions whose second argument is a body.
    pub open spec fn is_closure(self) -> bool {
        ||| self is All
        ||| self is SomeOf
        ||| self is NoneOf
        ||| self is One
        ||| self is Filter
        ||| self is MapEach
        ||| self is FlatMap
        ||| self is Count
    }

    /// The shape of the function's argument list.
    pub open spec fn arity_of(self) -> Arity {
        if self.is_closure() {
            Arity::Closure
        } else if self.is_dual() {
            Arity::Dual
        } else {
            Arity::Single
        }
    }

    /// Returns the shape of the function's argument list.
    pub fn arity(&self) -> (arity: Arity)
        ensures
            arity == self.arity_of(),
    {
        match self {
            BuiltInFunction::Contains
            | BuiltInFunction::StartsWith
            | BuiltInFunction::EndsWith
            | BuiltInFunction::Matches
            | BuiltInFunction::Extract
            | BuiltInFunction::FuzzyMatch
            | BuiltInFunction::Split
            | BuiltInFunction::StartOf
            | BuiltInFunction::EndOf => Arity::Dual,
            BuiltInFunction::All
            | BuiltInFunction::SomeOf
            | BuiltInFunction::NoneOf
            | BuiltInFunction::One
            | BuiltInFunction::Filter
            | BuiltInFunction::MapEach
            | BuiltInFunction::FlatMap
            | BuiltInFunction::Count => Arity::Closure,
            _ => Arity::Single,
        }
    }
}

} // verus!

//! Scaling byte sizes and counts to short quantities with a unit, for
//! tables that people read.

use vstd::prelude::*;

verus! {

/// A binary unit of bytes.
#[derive(Clone, Copy, Debug, PartialEq, Eq, Structural)]
pub enum ByteUnit {
    /// 2^10 bytes.
    KB,
    /// 2^20 bytes.
    MB,
    /// 2^30 bytes.
    GB,
    /// 2^40 bytes.
    TB,
}

impl ByteUnit {
    /// The number of bytes in one unit.
    pub open spec fn spec_bytes(self) -> u64 {
        match self {
            ByteUnit::KB => 1024,
            ByteUnit::MB => 1048576,
            ByteUnit::GB => 1073741824,
            ByteUnit::TB => 1099511627776,
        }
    }

    /// The text that follows a quantity in this unit.
    pub open spec fn spec_suffix(self) -> Seq<char> {
        match self {
            ByteUnit::KB => "kB"@,
            ByteUnit::MB => "MB"@,
            ByteUnit::GB => "GB"@,
            ByteUnit::TB => "TB"@,
        }
    }

    /// Quantities just above one unit are shown with one decimal in
    /// megabytes and gigabytes, and whole in the other units.
    pub open spec fn has_tenths(self) -> bool {
        self == ByteUnit::MB || self == ByteUnit::GB
    }

    /// Returns the number of bytes in one unit.
    pub fn bytes(self) -> (bytes: u64)
        ensures
            bytes == self.spec_bytes(),
    {
        match self {
            ByteUnit::KB => 1024,
            ByteUnit::MB => 1048576,
            ByteUnit::GB => 1073741824,
            ByteUnit::TB => 1099511627776,
        }
    }

    /// Returns the text that follows a quantity in this unit.
    pub fn suffix(self) -> (suffix: &'static str)
        ensures
            suffix@ == self.spec_suffix(),
    {
        match self {
            ByteUnit::KB => "kB",
            ByteUnit::MB => "MB",
            ByteUnit::GB => "GB",
            ByteUnit::TB => "TB",
        }
    }
}

/// How a number of bytes is shown.
#[derive(Clone, Copy, Debug, PartialEq, Eq, Structural)]
pub enum BytesForm {
    /// The number of bytes itself, without a unit.
    Plain(u64),
    /// A whole number of units, rounded down.
    Whole(u64, ByteUnit),
    /// The number of bytes divided by the unit, with one decimal.
    Tenths(ByteUnit),
}

/// A number of bytes to show in a short form.
#[derive(Clone, Copy, Debug, PartialEq, Eq, Structural)]
pub struct HumanBytes(pub u64);

impl HumanBytes {
    /// The largest unit that the number of bytes reaches, if any.
    pub open spec fn spec_unit(self) -> Option<ByteUnit> {
        if self.0 >= ByteUnit::TB.spec_bytes() {
            Some(ByteUnit::TB)
        } else if self.0 >= ByteUnit::GB.spec_bytes() {
            Some(ByteUnit::GB)
        } else if self.0 >= ByteUnit::MB.spec_bytes() {
            Some(ByteUnit::MB)
        } else if self.0 >= ByteUnit::KB.spec_bytes() {
            Some(ByteUnit::KB)
        } else {
            None
        }
    }

    /// The form in which the number of bytes is shown: in the largest unit
    /// that it reaches; with one decimal while it is below 9.9 megabytes or
    /// gigabytes, else whole.
    pub open spec fn spec_form(self) -> BytesForm {
        match self.spec_unit() {
            None => BytesForm::Plain(self.0),
            Some(unit) => if unit.has_tenths() && self.0 < 10 * unit.spec_bytes()
                - unit.spec_bytes() / 10 {
                BytesForm::Tenths(unit)
            } else {
                BytesForm::Whole(self.0 / unit.spec_bytes(), unit)
            },
        }
    }

    /// Returns the form in which the number of bytes is shown.
    pub fn form(&self) -> (form: BytesForm)
        ensures
            form == self.spec_form(),
    {
        let tb: u64 = ByteUnit::TB.bytes();
        let gb: u64 = ByteUnit::GB.bytes();
        let mb: u64 = ByteUnit::MB.bytes();
        let kb: u64 = ByteUnit::KB.bytes();
        if self.0 >= tb {
            BytesForm::Whole(self.0 / tb, ByteUnit::TB)
        } else if self.0 >= 10 * gb - gb / 10 {
            BytesForm::Whole(self.0 / gb, ByteUnit::GB)
        } else if self.0 >= gb {
            BytesForm::Tenths(ByteUnit::GB)
        } else if self.0 >= 10 * mb - mb / 10 {
            BytesForm::Whole(self.0 / mb, ByteUnit::MB)
        } else if self.0 >= mb {
            BytesForm::Tenths(ByteUnit::MB)
        } else if self.0 >= kb {
            BytesForm::Whole(self.0 / kb, ByteUnit::KB)
        } else {
            BytesForm::Plain(self.0)
        }
    }
}

/// A decimal unit of counting.
#[derive(Clone, Copy, Debug, PartialEq, Eq, Structural)]
pub enum CountUnit {
    /// 10^3.
    Thousand,
    /// 10^6.
    Million,
    /// 10^9.
    Billion,
    /// 10^12.
    Trillion,
    /// 10^15.
    Quadrillion,
}

impl CountUnit {
    /// The number that one unit stands for.
    pub open spec fn spec_value(self) -> u64 {
        match self {
            CountUnit::Thousand => 1_000,
            CountUnit::Million => 1_000_000,
            CountUnit::Billion => 1_000_000_000,
            CountUnit::Trillion => 1_000_000_000_000,
            CountUnit::Quadrillion => 1_000_000_000_000_000,
        }
    }

    /// The text that follows a quantity in this unit.
    pub open spec fn spec_suffix(self) -> Seq<char> {
        match self {
            CountUnit::Thousand => "k"@,
            CountUnit::Million => "M"@,
            CountUnit::Billion => "B"@,
            CountUnit::Trillion => "T"@,
            CountUnit::Quadrillion => "Q"@,
        }
    }

    /// Returns the number that one unit stands for.
    pub fn value(self) -> (value: u64)
        ensures
            value == self.spec_value(),
    {
        match self {
            CountUnit::Thousand => 1_000,
            CountUnit::Million => 1_000_000,
            CountUnit::Billion => 1_000_000_000,
            CountUnit::Trillion => 1_000_000_000_000,
            CountUnit::Quadrillion => 1_000_000_000_000_000,
        }
    }

    /// Returns the text that follows a quantity in this unit.
    pub fn suffix(self) -> (suffix: &'static str)
        ensures
            suffix@ == self.spec_suffix(),
    {
        match self {
            CountUnit::Thousand => "k",
            CountUnit::Million => "M",
            CountUnit::Billion => "B",
            CountUnit::Trillion => "T",
            CountUnit::Quadrillion => "Q",
        }
    }
}

/// How a count is shown.
#[derive(Clone, Copy, Debug, PartialEq, Eq, Structural)]
pub enum CountForm {
    /// The count itself, without a unit.
    Plain(u64),
    /// A whole number of units, rounded down.
    Whole(u64, CountUnit),
}

/// A count to show in a short form.
#[derive(Clone, Copy, Debug, PartialEq, Eq, Structural)]
pub struct HumanCount(pub u64);

impl HumanCount {
    /// The largest unit that the count reaches, if any.
    pub open spec fn spec_unit(self) -> Option<CountUnit> {
        if self.0 >= CountUnit::Quadrillion.spec_value() {
            Some(CountUnit::Quadrillion)
        } else if self.0 >= CountUnit::Trillion.spec_value() {
            Some(CountUnit::Trillion)
        } else if self.0 >= CountUnit::Billion.spec_value() {
            Some(CountUnit::Billion)
        } else if self.0 >= CountUnit::Million.spec_value() {
            Some(CountUnit::Million)
        } else if self.0 >= CountUnit::Thousand.spec_value() {
            Some(CountUnit::Thousand)
        } else {
            None
        }
    }

    /// The form in which the count is shown: whole, in the largest unit that
    /// it reaches.
    pub open spec fn spec_form(self) -> CountForm {
        match self.spec_unit() {
            None => CountForm::Plain(self.0),
            Some(unit) => CountForm::Whole(self.0 / unit.spec_value(), unit),
        }
    }

    /// Returns the form in which the count is shown.
    pub fn form(&self) -> (form: CountForm)
        ensures
            form == self.spec_form(),
    {
        let quadrillion: u64 = CountUnit::Quadrillion.value();
        let trillion: u64 = CountUnit::Trillion.value();
        let billion: u64 = CountUnit::Billion.value();
        let million: u64 = CountUnit::Million.value();
        let thousand: u64 = CountUnit::Thousand.value();
        if self.0 >= quadrillion {
            CountForm::Whole(self.0 / quadrillion, CountUnit::Quadrillion)
        } else if self.0 >= trillion {
            CountForm::Whole(self.0 / trillion, CountUnit::Trillion)
        } else if self.0 >= billion {
            CountForm::Whole(self.0 / billion, CountUnit::Billion)
        } else if self.0 >= million {
            CountForm::Whole(self.0 / million, CountUnit::Million)
        } else if self.0 >= thousand {
            CountForm::Whole(self.0 / thousand, CountUnit::Thousand)
        } else {
            CountForm::Plain(self.0)
        }
    }
}

} // verus!

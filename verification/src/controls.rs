//! Screen-mode state and small text helpers for the surrounding interface.

use vstd::prelude::*;

verus! {

/// Which screen the application is showing.
#[derive(Clone, Copy, Debug, PartialEq, Eq, Structural)]
pub enum AppMode {
    Normal,
    SatelliteConfig,
}

/// What the satellite-configuration screen is doing.
#[derive(Clone, Copy, Debug, PartialEq, Eq, Structural)]
pub enum ConfigEditMode {
    List,
    Edit,
    Add,
}

/// The field under the cursor on the satellite-configuration form.
#[derive(Clone, Copy, Debug, PartialEq, Eq, Structural)]
pub enum ConfigField {
    Name,
    TleLine1,
    TleLine2,
    LaunchDate,
    LaunchSite,
    CountryOfOrigin,
    Operator,
    SatelliteType,
    DownlinkFrequency,
    UplinkFrequency,
    Notes,
}

/// The field after `f` on the form, wrapping around.
pub open spec fn spec_next_field(f: ConfigField) -> ConfigField {
    match f {
        ConfigField::Name => ConfigField::TleLine1,
        ConfigField::TleLine1 => ConfigField::TleLine2,
        ConfigField::TleLine2 => ConfigField::LaunchDate,
        ConfigField::LaunchDate => ConfigField::LaunchSite,
        ConfigField::LaunchSite => ConfigField::CountryOfOrigin,
        ConfigField::CountryOfOrigin => ConfigField::Operator,
        ConfigField::Operator => ConfigField::SatelliteType,
        ConfigField::SatelliteType => ConfigField::DownlinkFrequency,
        ConfigField::DownlinkFrequency => ConfigField::UplinkFrequency,
        ConfigField::UplinkFrequency => ConfigField::Notes,
        ConfigField::Notes => ConfigField::Name,
    }
}

/// The field before `f` on the form, wrapping around.
pub open spec fn spec_prev_field(f: ConfigField) -> ConfigField {
    match f {
        ConfigField::Name => ConfigField::Notes,
        ConfigField::TleLine1 => ConfigField::Name,
        ConfigField::TleLine2 => ConfigField::TleLine1,
        ConfigField::LaunchDate => ConfigField::TleLine2,
        ConfigField::LaunchSite => ConfigField::LaunchDate,
        ConfigField::CountryOfOrigin => ConfigField::LaunchSite,
        ConfigField::Operator => ConfigField::CountryOfOrigin,
        ConfigField::SatelliteType => ConfigField::Operator,
        ConfigField::DownlinkFrequency => ConfigField::SatelliteType,
        ConfigField::UplinkFrequency => ConfigField::DownlinkFrequency,
        ConfigField::Notes => ConfigField::UplinkFrequency,
    }
}

/// Moving forward and back over the form fields are inverse to each other.
pub proof fn lemma_field_order_round_trip(f: ConfigField)
    ensures
        spec_prev_field(spec_next_field(f)) == f,
        spec_next_field(spec_prev_field(f)) == f,
{
}

impl ConfigField {
    /// The next field on the form, wrapping around.
    pub fn next(&self) -> (r: ConfigField)
        ensures
            r == spec_next_field(*self),
    {
        match self {
            ConfigField::Name => ConfigField::TleLine1,
            ConfigField::TleLine1 => ConfigField::TleLine2,
            ConfigField::TleLine2 => ConfigField::LaunchDate,
            ConfigField::LaunchDate => ConfigField::LaunchSite,
            ConfigField::LaunchSite => ConfigField::CountryOfOrigin,
            ConfigField::CountryOfOrigin => ConfigField::Operator,
            ConfigField::Operator => ConfigField::SatelliteType,
            ConfigField::SatelliteType => ConfigField::DownlinkFrequency,
            ConfigField::DownlinkFrequency => ConfigField::UplinkFrequency,
            ConfigField::UplinkFrequency => ConfigField::Notes,
            ConfigField::Notes => ConfigField::Name,
        }
    }

    /// The previous field on the form, wrapping around.
    pub fn prev(&self) -> (r: ConfigField)
        ensures
            r == spec_prev_field(*self),
    {
        match self {
            ConfigField::Name => ConfigField::Notes,
            ConfigField::TleLine1 => ConfigField::Name,
            ConfigField::TleLine2 => ConfigField::TleLine1,
            ConfigField::LaunchDate => ConfigField::TleLine2,
            ConfigField::LaunchSite => ConfigField::LaunchDate,
            ConfigField::CountryOfOrigin => ConfigField::LaunchSite,
            ConfigField::Operator => ConfigField::CountryOfOrigin,
            ConfigField::SatelliteType => ConfigField::Operator,
            ConfigField::DownlinkFrequency => ConfigField::SatelliteType,
            ConfigField::UplinkFrequency => ConfigField::DownlinkFrequency,
            ConfigField::Notes => ConfigField::UplinkFrequency,
        }
    }

    /// The field's caption on the form.
    pub fn label(&self) -> (r: &str)
        ensures
            self is Name ==> r@ == "Name"@,
            self is TleLine1 ==> r@ == "TLE Line 1"@,
            self is TleLine2 ==> r@ == "TLE Line 2"@,
            self is LaunchDate ==> r@ == "Launch Date"@,
            self is LaunchSite ==> r@ == "Launch Site"@,
            self is CountryOfOrigin ==> r@ == "Country"@,
            self is Operator ==> r@ == "Operator"@,
            self is SatelliteType ==> r@ == "Type"@,
            self is DownlinkFrequency ==> r@ == "Downlink (MHz)"@,
            self is UplinkFrequency ==> r@ == "Uplink (MHz)"@,
            self is Notes ==> r@ == "Notes"@,
    {
        match self {
            ConfigField::Name => "Name",
            ConfigField::TleLine1 => "TLE Line 1",
            ConfigField::TleLine2 => "TLE Line 2",
            ConfigField::LaunchDate => "Launch Date",
            ConfigField::LaunchSite => "Launch Site",
            ConfigField::CountryOfOrigin => "Country",
            ConfigField::Operator => "Operator",
            ConfigField::SatelliteType => "Type",
            ConfigField::DownlinkFrequency => "Downlink (MHz)",
            ConfigField::UplinkFrequency => "Uplink (MHz)",
            ConfigField::Notes => "Notes",
        }
    }
}

/// The ten decimal digit characters.
pub open spec fn digit_char(d: int) -> char {
    if d == 0 {
        '0'
    } else if d == 1 {
        '1'
    } else if d == 2 {
        '2'
    } else if d == 3 {
        '3'
    } else if d == 4 {
        '4'
    } else if d == 5 {
        '5'
    } else if d == 6 {
        '6'
    } else if d == 7 {
        '7'
    } else if d == 8 {
        '8'
    } else {
        '9'
    }
}

/// Decimal digits of a positive number, most significant first (empty for
/// zero and below).
pub open spec fn spec_decimal(n: int) -> Seq<char>
    decreases n,
{
    if n <= 0 {
        Seq::empty()
    } else {
        spec_decimal(n / 10).push(digit_char(n % 10))
    }
}

/// Decimal rendering of a nonnegative number.
pub open spec fn spec_decimal_string(n: int) -> Seq<char> {
    if n == 0 {
        seq!['0']
    } else {
        spec_decimal(n)
    }
}

/// One decimal digit as text.
fn digit_str(d: i64) -> (r: &'static str)
    requires
        0 <= d <= 9,
    ensures
        r@ == seq![digit_char(d as int)],
{
    proof {
        reveal_strlit("0");
        reveal_strlit("1");
        reveal_strlit("2");
        reveal_strlit("3");
        reveal_strlit("4");
        reveal_strlit("5");
        reveal_strlit("6");
        reveal_strlit("7");
        reveal_strlit("8");
        reveal_strlit("9");
    }
    match d {
        0 => "0",
        1 => "1",
        2 => "2",
        3 => "3",
        4 => "4",
        5 => "5",
        6 => "6",
        7 => "7",
        8 => "8",
        _ => "9",
    }
}

/// Render a nonnegative number in decimal.
pub fn decimal_string(n: i64) -> (r: String)
    requires
        0 <= n,
    ensures
        r@ == spec_decimal_string(n as int),
    decreases n,
{
    if n < 10 {
        proof {
            if n > 0 {
                assert(spec_decimal(0) == Seq::<char>::empty());
                assert(spec_decimal(n as int) == spec_decimal(0).push(digit_char(n as int)));
            }
            assert(Seq::<char>::empty().push(digit_char(n as int)) =~= seq![digit_char(n as int)]);
        }
        digit_str(n).to_owned()
    } else {
        let mut s: String = decimal_string(n / 10);
        s.append(digit_str(n % 10));
        proof {
            assert(spec_decimal(n as int) == spec_decimal(n as int / 10).push(
                digit_char(n as int % 10),
            ));
            assert(spec_decimal(n as int / 10).push(digit_char(n as int % 10)) =~= spec_decimal(
                n as int / 10,
            ) + seq![digit_char(n as int % 10)]);
        }
        s
    }
}

/// Shorten an ASCII string to at most `max_len` characters, ending a shortened
/// string with `...`.
pub fn truncate_string(s: &str, max_len: usize) -> (r: String)
    requires
        s.is_ascii(),
    ensures
        s@.len() <= max_len ==> r@ == s@,
        s@.len() > max_len && max_len >= 3 ==> r@ == s@.subrange(0, max_len - 3) + "..."@,
        s@.len() > max_len && max_len < 3 ==> r@ == s@.subrange(0, 0) + "..."@,
{
    let len: usize = s.unicode_len();
    if len <= max_len {
        s.to_owned()
    } else {
        let cut: usize = if max_len >= 3 {
            max_len - 3
        } else {
            0
        };
        let prefix: &str = s.substring_ascii(0, cut);
        let mut out: String = prefix.to_owned();
        out.append("...");
        out
    }
}

} // verus!

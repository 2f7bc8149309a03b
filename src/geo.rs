//! Geographic labels, their classification from raw lookup data, and the
//! fixed label-to-region routing table.

use vstd::prelude::*;

verus! {

/// Coarse geographic label of a node.
#[derive(Clone, Copy, Debug, PartialEq, Eq, Structural, Hash)]
pub enum GeoLabel {
    Europe,
    NorthAmerica,
    SouthAmerica,
    Africa,
    Asia,
    Oceania,
    MiddleEast,
    Unknown,
}

/// Deployed RPC endpoint location.
#[derive(Clone, Copy, Debug, PartialEq, Eq, Structural, Hash)]
pub enum RoutingRegion {
    Frankfurt,
    NewYork,
    Tokyo,
    Dubai,
}

/// The text under which a label is persisted.
pub open spec fn label_text(l: GeoLabel) -> Seq<char> {
    match l {
        GeoLabel::Europe => "Europe"@,
        GeoLabel::NorthAmerica => "North America"@,
        GeoLabel::SouthAmerica => "South America"@,
        GeoLabel::Africa => "Africa"@,
        GeoLabel::Asia => "Asia"@,
        GeoLabel::Oceania => "Oceania"@,
        GeoLabel::MiddleEast => "Middle East"@,
        GeoLabel::Unknown => "UNKNOWN"@,
    }
}

/// The label persisted under a text, if any.
pub open spec fn label_of_text(s: Seq<char>) -> Option<GeoLabel> {
    if s == "Europe"@ {
        Some(GeoLabel::Europe)
    } else if s == "North America"@ {
        Some(GeoLabel::NorthAmerica)
    } else if s == "South America"@ {
        Some(GeoLabel::SouthAmerica)
    } else if s == "Africa"@ {
        Some(GeoLabel::Africa)
    } else if s == "Asia"@ {
        Some(GeoLabel::Asia)
    } else if s == "Oceania"@ {
        Some(GeoLabel::Oceania)
    } else if s == "Middle East"@ {
        Some(GeoLabel::MiddleEast)
    } else if s == "UNKNOWN"@ {
        Some(GeoLabel::Unknown)
    } else {
        None
    }
}

/// The name of a routing region.
pub open spec fn region_text(r: RoutingRegion) -> Seq<char> {
    match r {
        RoutingRegion::Frankfurt => "Frankfurt"@,
        RoutingRegion::NewYork => "NewYork"@,
        RoutingRegion::Tokyo => "Tokyo"@,
        RoutingRegion::Dubai => "Dubai"@,
    }
}

/// The region that serves traffic when nothing better is known.
pub open spec fn default_region() -> RoutingRegion {
    RoutingRegion::Frankfurt
}

/// The fixed routing table from label to region.
pub open spec fn region_of(l: GeoLabel) -> RoutingRegion {
    match l {
        GeoLabel::Europe | GeoLabel::Africa => RoutingRegion::Frankfurt,
        GeoLabel::NorthAmerica | GeoLabel::SouthAmerica => RoutingRegion::NewYork,
        GeoLabel::Asia | GeoLabel::Oceania => RoutingRegion::Tokyo,
        GeoLabel::MiddleEast => RoutingRegion::Dubai,
        GeoLabel::Unknown => default_region(),
    }
}

/// The region for a persisted label text; unrecognised text gets the default.
pub open spec fn region_for_text(s: Seq<char>) -> RoutingRegion {
    match label_of_text(s) {
        Some(l) => region_of(l),
        None => default_region(),
    }
}

/// Country codes that are classified as Middle East whatever their continent.
pub open spec fn is_override_country(cc: Seq<char>) -> bool {
    cc == "AE"@ || cc == "SA"@ || cc == "QA"@ || cc == "BH"@ || cc == "KW"@ || cc == "OM"@
        || cc == "IR"@ || cc == "IQ"@ || cc == "IL"@ || cc == "JO"@ || cc == "LB"@ || cc
        == "TR"@ || cc == "PK"@ || cc == "IN"@ || cc == "BD"@ || cc == "LK"@ || cc == "EG"@
}

/// The label for a continent code alone.
pub open spec fn continent_label(continent: Seq<char>) -> GeoLabel {
    if continent == "EU"@ {
        GeoLabel::Europe
    } else if continent == "NA"@ {
        GeoLabel::NorthAmerica
    } else if continent == "SA"@ {
        GeoLabel::SouthAmerica
    } else if continent == "AF"@ {
        GeoLabel::Africa
    } else if continent == "AS"@ {
        GeoLabel::Asia
    } else if continent == "OC"@ {
        GeoLabel::Oceania
    } else {
        GeoLabel::Unknown
    }
}

/// Classification of a country code and a continent code.
pub open spec fn classify_spec(cc: Seq<char>, continent: Seq<char>) -> GeoLabel {
    if is_override_country(cc) {
        GeoLabel::MiddleEast
    } else {
        continent_label(continent)
    }
}

/// The text of an optional field; a missing field reads as empty.
pub open spec fn field_text(f: Option<String>) -> Seq<char> {
    match f {
        Some(s) => s@,
        None => Seq::empty(),
    }
}

/// Whether two strings hold the same characters.
pub fn text_eq(a: &str, b: &str) -> (r: bool)
    ensures
        r == (a@ == b@),
{
    let n = a.unicode_len();
    let m = b.unicode_len();
    if n != m {
        return false;
    }
    let mut i: usize = 0;
    while i < n
        invariant
            n == a@.len(),
            m == b@.len(),
            n == m,
            i <= n,
            forall|j: int| 0 <= j < i ==> a@[j] == b@[j],
        decreases n - i,
    {
        if a.get_char(i) != b.get_char(i) {
            return false;
        }
        i += 1;
    }
    assert(a@ =~= b@);
    true
}

impl GeoLabel {
    /// The persisted text of this label.
    pub fn as_str(&self) -> (r: &'static str)
        ensures
            r@ == label_text(*self),
    {
        match self {
            GeoLabel::Europe => "Europe",
            GeoLabel::NorthAmerica => "North America",
            GeoLabel::SouthAmerica => "South America",
            GeoLabel::Africa => "Africa",
            GeoLabel::Asia => "Asia",
            GeoLabel::Oceania => "Oceania",
            GeoLabel::MiddleEast => "Middle East",
            GeoLabel::Unknown => "UNKNOWN",
        }
    }

    /// Reads a persisted label text.
    pub fn from_text(s: &str) -> (r: Option<GeoLabel>)
        ensures
            r == label_of_text(s@),
    {
        if text_eq(s, "Europe") {
            Some(GeoLabel::Europe)
        } else if text_eq(s, "North America") {
            Some(GeoLabel::NorthAmerica)
        } else if text_eq(s, "South America") {
            Some(GeoLabel::SouthAmerica)
        } else if text_eq(s, "Africa") {
            Some(GeoLabel::Africa)
        } else if text_eq(s, "Asia") {
            Some(GeoLabel::Asia)
        } else if text_eq(s, "Oceania") {
            Some(GeoLabel::Oceania)
        } else if text_eq(s, "Middle East") {
            Some(GeoLabel::MiddleEast)
        } else if text_eq(s, "UNKNOWN") {
            Some(GeoLabel::Unknown)
        } else {
            None
        }
    }

    /// The routing region that serves this label.
    pub fn region(&self) -> (r: RoutingRegion)
        ensures
            r == region_of(*self),
    {
        match self {
            GeoLabel::Europe | GeoLabel::Africa => RoutingRegion::Frankfurt,
            GeoLabel::NorthAmerica | GeoLabel::SouthAmerica => RoutingRegion::NewYork,
            GeoLabel::Asia | GeoLabel::Oceania => RoutingRegion::Tokyo,
            GeoLabel::MiddleEast => RoutingRegion::Dubai,
            GeoLabel::Unknown => RoutingRegion::default_region(),
        }
    }
}

impl RoutingRegion {
    /// The region that serves traffic when nothing better is known.
    pub fn default_region() -> (r: RoutingRegion)
        ensures
            r == default_region(),
    {
        RoutingRegion::Frankfurt
    }

    /// The name of this region.
    pub fn as_str(&self) -> (r: &'static str)
        ensures
            r@ == region_text(*self),
    {
        match self {
            RoutingRegion::Frankfurt => "Frankfurt",
            RoutingRegion::NewYork => "NewYork",
            RoutingRegion::Tokyo => "Tokyo",
            RoutingRegion::Dubai => "Dubai",
        }
    }
}

/// Raw result of one geolocation lookup: the fields that classification reads.
#[derive(Debug)]
pub struct IpInfoLite {
    pub continent_code: Option<String>,
    pub country_code: Option<String>,
}

/// Whether a country code belongs to the Middle-East override set.
pub fn is_override_country_code(cc: &str) -> (r: bool)
    ensures
        r == is_override_country(cc@),
{
    text_eq(cc, "AE") || text_eq(cc, "SA") || text_eq(cc, "QA") || text_eq(cc, "BH")
        || text_eq(cc, "KW") || text_eq(cc, "OM") || text_eq(cc, "IR") || text_eq(cc, "IQ")
        || text_eq(cc, "IL") || text_eq(cc, "JO") || text_eq(cc, "LB") || text_eq(cc, "TR")
        || text_eq(cc, "PK") || text_eq(cc, "IN") || text_eq(cc, "BD") || text_eq(cc, "LK")
        || text_eq(cc, "EG")
}

/// Classifies a country code and a continent code into a label.
pub fn classify(country_code: &str, continent_code: &str) -> (r: GeoLabel)
    ensures
        r == classify_spec(country_code@, continent_code@),
{
    if is_override_country_code(country_code) {
        return GeoLabel::MiddleEast;
    }
    if text_eq(continent_code, "EU") {
        GeoLabel::Europe
    } else if text_eq(continent_code, "NA") {
        GeoLabel::NorthAmerica
    } else if text_eq(continent_code, "SA") {
        GeoLabel::SouthAmerica
    } else if text_eq(continent_code, "AF") {
        GeoLabel::Africa
    } else if text_eq(continent_code, "AS") {
        GeoLabel::Asia
    } else if text_eq(continent_code, "OC") {
        GeoLabel::Oceania
    } else {
        GeoLabel::Unknown
    }
}

/// Classifies a lookup result; a missing field counts as an empty code.
pub fn to_geo_label(info: &IpInfoLite) -> (r: GeoLabel)
    ensures
        r == classify_spec(field_text(info.country_code), field_text(info.continent_code)),
{
    let cc: &str = match &info.country_code {
        Some(s) => s.as_str(),
        None => "",
    };
    let continent: &str = match &info.continent_code {
        Some(s) => s.as_str(),
        None => "",
    };
    proof {
        reveal_strlit("");
        assert(""@ =~= Seq::<char>::empty());
    }
    classify(cc, continent)
}

/// The routing region name for a persisted label text; text that names no
/// known label, and the unknown label, get the default region.
pub fn geo_to_region(geo: &str) -> (r: &'static str)
    ensures
        r@ == region_text(region_for_text(geo@)),
{
    match GeoLabel::from_text(geo) {
        Some(l) => l.region().as_str(),
        None => RoutingRegion::default_region().as_str(),
    }
}

} // verus!

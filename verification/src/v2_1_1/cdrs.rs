//! The OCPI 2.1.1 CDRs module: how a driver was authenticated and what a charging period records.

use vstd::prelude::*;

use crate::strings::{eq_ignore_ascii_case, hash_str, str_eq, str_eq_ignore_case};
use crate::types::open_enum::{
    closed_enum_message, closed_enum_value_violations, open_enum_value_violations, validate_closed_enum_value,
};
use crate::types::validate::{Validate, Validator, ViolationCode, ViolationView};
use crate::types::datetime::DateTime;
use crate::types::extensions::Extensions;
use crate::types::number::Number;

verus! {

/// How the driver was authenticated, in OCPI 2.1.1. `COMMAND` arrived in OCPI 2.2; the
/// specification declares this enum closed.
#[derive(Clone, Debug)]
#[non_exhaustive]
pub enum AuthMethod {
    /// An authentication request was sent to the eMSP.
    AuthRequest,
    /// A whitelist was used; no request to the eMSP was performed.
    Whitelist,
    /// A value this version of the specification does not define, preserved verbatim.
    Custom(String),
}

/// The wire value of a [`AuthMethod`].
pub open spec fn auth_method_wire(v: AuthMethod) -> Seq<char> {
    match v {
        AuthMethod::AuthRequest => "AUTH_REQUEST"@,
        AuthMethod::Whitelist => "WHITELIST"@,
        AuthMethod::Custom(s) => s@,
    }
}

/// The defined value whose wire form is exactly `s`, if there is one.
pub open spec fn auth_method_known(s: Seq<char>) -> Option<AuthMethod> {
    if s == "AUTH_REQUEST"@ {
        Some(AuthMethod::AuthRequest)
    } else if s == "WHITELIST"@ {
        Some(AuthMethod::Whitelist)
    } else {
        None
    }
}

/// The defined value whose wire form equals `s` ignoring ASCII case, if there is one.
pub open spec fn auth_method_known_ignore_case(s: Seq<char>) -> Option<AuthMethod> {
    if str_eq_ignore_case(s, "AUTH_REQUEST"@) {
        Some(AuthMethod::AuthRequest)
    } else if str_eq_ignore_case(s, "WHITELIST"@) {
        Some(AuthMethod::Whitelist)
    } else {
        None
    }
}

impl AuthMethod {
    /// Every wire value this version of the specification defines, in declaration order.
    pub fn all_known_wire() -> (r: Vec<&'static str>)
        ensures
            r@.map_values(|w: &str| w@) == seq!["AUTH_REQUEST"@, "WHITELIST"@],
    {
        let mut r = Vec::new();
        r.push("AUTH_REQUEST");
        r.push("WHITELIST");
        r
    }

    /// Every value this version of the specification defines, in declaration order.
    pub fn all_known() -> (r: Vec<AuthMethod>)
        ensures
            r@ == seq![AuthMethod::AuthRequest, AuthMethod::Whitelist],
    {
        let mut r = Vec::new();
        r.push(AuthMethod::AuthRequest);
        r.push(AuthMethod::Whitelist);
        r
    }

    /// The value as it appears on the wire.
    pub fn as_str(&self) -> (s: &str)
        ensures
            s@ == auth_method_wire(*self),
    {
        match self {
            AuthMethod::AuthRequest => "AUTH_REQUEST",
            AuthMethod::Whitelist => "WHITELIST",
            AuthMethod::Custom(v) => v.as_str(),
        }
    }

    /// Whether this is a value the specification defines.
    pub fn is_known(&self) -> (r: bool)
        ensures
            r == !(*self is Custom),
    {
        match self {
            AuthMethod::Custom(_) => false,
            _ => true,
        }
    }

    /// Parses a wire value exactly; any other text is kept as `Custom`.
    pub fn parse(s: &str) -> (r: Self)
        ensures
            match auth_method_known(s@) {
                Some(k) => r == k,
                None => r matches AuthMethod::Custom(x) && x@ == s@,
            },
    {
        if str_eq(s, "AUTH_REQUEST") {
            return AuthMethod::AuthRequest;
        }
        if str_eq(s, "WHITELIST") {
            return AuthMethod::Whitelist;
        }
        AuthMethod::Custom(String::from_str(s))
    }

    /// Parses a wire value ignoring ASCII case for the defined values, for peers that get the
    /// case wrong; `parse` is strict.
    pub fn from_str_ignore_case(s: &str) -> (r: Self)
        ensures
            match auth_method_known_ignore_case(s@) {
                Some(k) => r == k,
                None => r matches AuthMethod::Custom(x) && x@ == s@,
            },
    {
        if eq_ignore_ascii_case(s, "AUTH_REQUEST") {
            return AuthMethod::AuthRequest;
        }
        if eq_ignore_ascii_case(s, "WHITELIST") {
            return AuthMethod::Whitelist;
        }
        AuthMethod::Custom(String::from_str(s))
    }

    /// The wire value, as `Display` writes it.
    pub fn to_string(&self) -> (s: String)
        ensures
            s@ == auth_method_wire(*self),
    {
        String::from_str(self.as_str())
    }
}

impl core::str::FromStr for AuthMethod {
    type Err = core::convert::Infallible;

    fn from_str(s: &str) -> (res: Result<Self, Self::Err>)
        ensures
            res matches Ok(r) && match auth_method_known(s@) {
                Some(k) => r == k,
                None => r matches AuthMethod::Custom(x) && x@ == s@,
            },
    {
        Ok(Self::parse(s))
    }
}

impl From<&str> for AuthMethod {
    fn from(s: &str) -> Self {
        Self::parse(s)
    }
}

impl vstd::std_specs::convert::FromSpecImpl<&str> for AuthMethod {
    open spec fn obeys_from_spec() -> bool {
        false
    }

    open spec fn from_spec(v: &str) -> Self {
        match auth_method_known(v@) {
            Some(k) => k,
            None => vstd::pervasive::arbitrary(),
        }
    }
}

impl PartialEq for AuthMethod {
    fn eq(&self, other: &Self) -> (r: bool) {
        str_eq(self.as_str(), other.as_str())
    }
}

impl vstd::std_specs::cmp::PartialEqSpecImpl for AuthMethod {
    open spec fn obeys_eq_spec() -> bool {
        true
    }

    open spec fn eq_spec(&self, other: &Self) -> bool {
        auth_method_wire(*self) == auth_method_wire(*other)
    }
}

impl Eq for AuthMethod {
}

impl core::hash::Hash for AuthMethod {
    /// Hashes the wire value, so that values equal by their wire value hash alike.
    fn hash<H: core::hash::Hasher>(&self, state: &mut H) {
        hash_str(self.as_str(), state);
    }
}

impl Validate for AuthMethod {
    open spec fn violations(&self) -> Seq<ViolationView> {
        match *self {
            AuthMethod::Custom(value) => closed_enum_value_violations("AuthMethod"@, value@),
            _ => Seq::empty(),
        }
    }

    fn validate_in(&self, v: &mut Validator)
        ensures
            match *self {
                AuthMethod::Custom(value) => final(v)@ == old(v)@ + open_enum_value_violations(
                    "AuthMethod"@,
                    value@,
                ) + seq![
                    (
                        Seq::<char>::empty(),
                        ViolationCode::Inconsistent,
                        closed_enum_message("AuthMethod"@, value@),
                    ),
                ],
                _ => final(v)@ == old(v)@,
            },
    {
        let ghost start = v@;
        match self {
            AuthMethod::Custom(value) => validate_closed_enum_value("AuthMethod", value.as_str(), v),
            _ => {},
        }
        assert(v@ =~= start + self.violations());
    }
}

/// The quantities a charging period can record, in OCPI 2.1.1: six values, which OCPI 2.2 grew
/// to thirteen; the specification declares this enum closed.
#[derive(Clone, Debug)]
#[non_exhaustive]
pub enum CdrDimensionType {
    /// Total amount of energy charged during this period, in kWh.
    Energy,
    /// A flat fee, without a unit.
    Flat,
    /// Sum of the maximum current over all phases, in A.
    MaxCurrent,
    /// Sum of the minimum current over all phases, in A.
    MinCurrent,
    /// Time not charging, in hours.
    ParkingTime,
    /// Time charging, in hours.
    Time,
    /// A value this version of the specification does not define, preserved verbatim.
    Custom(String),
}

/// The wire value of a [`CdrDimensionType`].
pub open spec fn cdr_dimension_type_wire(v: CdrDimensionType) -> Seq<char> {
    match v {
        CdrDimensionType::Energy => "ENERGY"@,
        CdrDimensionType::Flat => "FLAT"@,
        CdrDimensionType::MaxCurrent => "MAX_CURRENT"@,
        CdrDimensionType::MinCurrent => "MIN_CURRENT"@,
        CdrDimensionType::ParkingTime => "PARKING_TIME"@,
        CdrDimensionType::Time => "TIME"@,
        CdrDimensionType::Custom(s) => s@,
    }
}

/// The defined value whose wire form is exactly `s`, if there is one.
pub open spec fn cdr_dimension_type_known(s: Seq<char>) -> Option<CdrDimensionType> {
    if s == "ENERGY"@ {
        Some(CdrDimensionType::Energy)
    } else if s == "FLAT"@ {
        Some(CdrDimensionType::Flat)
    } else if s == "MAX_CURRENT"@ {
        Some(CdrDimensionType::MaxCurrent)
    } else if s == "MIN_CURRENT"@ {
        Some(CdrDimensionType::MinCurrent)
    } else if s == "PARKING_TIME"@ {
        Some(CdrDimensionType::ParkingTime)
    } else if s == "TIME"@ {
        Some(CdrDimensionType::Time)
    } else {
        None
    }
}

/// The defined value whose wire form equals `s` ignoring ASCII case, if there is one.
pub open spec fn cdr_dimension_type_known_ignore_case(s: Seq<char>) -> Option<CdrDimensionType> {
    if str_eq_ignore_case(s, "ENERGY"@) {
        Some(CdrDimensionType::Energy)
    } else if str_eq_ignore_case(s, "FLAT"@) {
        Some(CdrDimensionType::Flat)
    } else if str_eq_ignore_case(s, "MAX_CURRENT"@) {
        Some(CdrDimensionType::MaxCurrent)
    } else if str_eq_ignore_case(s, "MIN_CURRENT"@) {
        Some(CdrDimensionType::MinCurrent)
    } else if str_eq_ignore_case(s, "PARKING_TIME"@) {
        Some(CdrDimensionType::ParkingTime)
    } else if str_eq_ignore_case(s, "TIME"@) {
        Some(CdrDimensionType::Time)
    } else {
        None
    }
}

impl CdrDimensionType {
    /// Every wire value this version of the specification defines, in declaration order.
    pub fn all_known_wire() -> (r: Vec<&'static str>)
        ensures
            r@.map_values(|w: &str| w@) == seq![
                "ENERGY"@,
                "FLAT"@,
                "MAX_CURRENT"@,
                "MIN_CURRENT"@,
                "PARKING_TIME"@,
                "TIME"@,
            ],
    {
        let mut r = Vec::new();
        r.push("ENERGY");
        r.push("FLAT");
        r.push("MAX_CURRENT");
        r.push("MIN_CURRENT");
        r.push("PARKING_TIME");
        r.push("TIME");
        r
    }

    /// Every value this version of the specification defines, in declaration order.
    pub fn all_known() -> (r: Vec<CdrDimensionType>)
        ensures
            r@ == seq![
                CdrDimensionType::Energy,
                CdrDimensionType::Flat,
                CdrDimensionType::MaxCurrent,
                CdrDimensionType::MinCurrent,
                CdrDimensionType::ParkingTime,
                CdrDimensionType::Time,
            ],
    {
        let mut r = Vec::new();
        r.push(CdrDimensionType::Energy);
        r.push(CdrDimensionType::Flat);
        r.push(CdrDimensionType::MaxCurrent);
        r.push(CdrDimensionType::MinCurrent);
        r.push(CdrDimensionType::ParkingTime);
        r.push(CdrDimensionType::Time);
        r
    }

    /// The value as it appears on the wire.
    pub fn as_str(&self) -> (s: &str)
        ensures
            s@ == cdr_dimension_type_wire(*self),
    {
        match self {
            CdrDimensionType::Energy => "ENERGY",
            CdrDimensionType::Flat => "FLAT",
            CdrDimensionType::MaxCurrent => "MAX_CURRENT",
            CdrDimensionType::MinCurrent => "MIN_CURRENT",
            CdrDimensionType::ParkingTime => "PARKING_TIME",
            CdrDimensionType::Time => "TIME",
            CdrDimensionType::Custom(v) => v.as_str(),
        }
    }

    /// Whether this is a value the specification defines.
    pub fn is_known(&self) -> (r: bool)
        ensures
            r == !(*self is Custom),
    {
        match self {
            CdrDimensionType::Custom(_) => false,
            _ => true,
        }
    }

    /// Parses a wire value exactly; any other text is kept as `Custom`.
    pub fn parse(s: &str) -> (r: Self)
        ensures
            match cdr_dimension_type_known(s@) {
                Some(k) => r == k,
                None => r matches CdrDimensionType::Custom(x) && x@ == s@,
            },
    {
        if str_eq(s, "ENERGY") {
            return CdrDimensionType::Energy;
        }
        if str_eq(s, "FLAT") {
            return CdrDimensionType::Flat;
        }
        if str_eq(s, "MAX_CURRENT") {
            return CdrDimensionType::MaxCurrent;
        }
        if str_eq(s, "MIN_CURRENT") {
            return CdrDimensionType::MinCurrent;
        }
        if str_eq(s, "PARKING_TIME") {
            return CdrDimensionType::ParkingTime;
        }
        if str_eq(s, "TIME") {
            return CdrDimensionType::Time;
        }
        CdrDimensionType::Custom(String::from_str(s))
    }

    /// Parses a wire value ignoring ASCII case for the defined values, for peers that get the
    /// case wrong; `parse` is strict.
    pub fn from_str_ignore_case(s: &str) -> (r: Self)
        ensures
            match cdr_dimension_type_known_ignore_case(s@) {
                Some(k) => r == k,
                None => r matches CdrDimensionType::Custom(x) && x@ == s@,
            },
    {
        if eq_ignore_ascii_case(s, "ENERGY") {
            return CdrDimensionType::Energy;
        }
        if eq_ignore_ascii_case(s, "FLAT") {
            return CdrDimensionType::Flat;
        }
        if eq_ignore_ascii_case(s, "MAX_CURRENT") {
            return CdrDimensionType::MaxCurrent;
        }
        if eq_ignore_ascii_case(s, "MIN_CURRENT") {
            return CdrDimensionType::MinCurrent;
        }
        if eq_ignore_ascii_case(s, "PARKING_TIME") {
            return CdrDimensionType::ParkingTime;
        }
        if eq_ignore_ascii_case(s, "TIME") {
            return CdrDimensionType::Time;
        }
        CdrDimensionType::Custom(String::from_str(s))
    }

    /// The wire value, as `Display` writes it.
    pub fn to_string(&self) -> (s: String)
        ensures
            s@ == cdr_dimension_type_wire(*self),
    {
        String::from_str(self.as_str())
    }
}

impl core::str::FromStr for CdrDimensionType {
    type Err = core::convert::Infallible;

    fn from_str(s: &str) -> (res: Result<Self, Self::Err>)
        ensures
            res matches Ok(r) && match cdr_dimension_type_known(s@) {
                Some(k) => r == k,
                None => r matches CdrDimensionType::Custom(x) && x@ == s@,
            },
    {
        Ok(Self::parse(s))
    }
}

impl From<&str> for CdrDimensionType {
    fn from(s: &str) -> Self {
        Self::parse(s)
    }
}

impl vstd::std_specs::convert::FromSpecImpl<&str> for CdrDimensionType {
    open spec fn obeys_from_spec() -> bool {
        false
    }

    open spec fn from_spec(v: &str) -> Self {
        match cdr_dimension_type_known(v@) {
            Some(k) => k,
            None => vstd::pervasive::arbitrary(),
        }
    }
}

impl PartialEq for CdrDimensionType {
    fn eq(&self, other: &Self) -> (r: bool) {
        str_eq(self.as_str(), other.as_str())
    }
}

impl vstd::std_specs::cmp::PartialEqSpecImpl for CdrDimensionType {
    open spec fn obeys_eq_spec() -> bool {
        true
    }

    open spec fn eq_spec(&self, other: &Self) -> bool {
        cdr_dimension_type_wire(*self) == cdr_dimension_type_wire(*other)
    }
}

impl Eq for CdrDimensionType {
}

impl core::hash::Hash for CdrDimensionType {
    /// Hashes the wire value, so that values equal by their wire value hash alike.
    fn hash<H: core::hash::Hasher>(&self, state: &mut H) {
        hash_str(self.as_str(), state);
    }
}

impl Validate for CdrDimensionType {
    open spec fn violations(&self) -> Seq<ViolationView> {
        match *self {
            CdrDimensionType::Custom(value) => closed_enum_value_violations("CdrDimensionType"@, value@),
            _ => Seq::empty(),
        }
    }

    fn validate_in(&self, v: &mut Validator)
        ensures
            match *self {
                CdrDimensionType::Custom(value) => final(v)@ == old(v)@ + open_enum_value_violations(
                    "CdrDimensionType"@,
                    value@,
                ) + seq![
                    (
                        Seq::<char>::empty(),
                        ViolationCode::Inconsistent,
                        closed_enum_message("CdrDimensionType"@, value@),
                    ),
                ],
                _ => final(v)@ == old(v)@,
            },
    {
        let ghost start = v@;
        match self {
            CdrDimensionType::Custom(value) => validate_closed_enum_value("CdrDimensionType", value.as_str(), v),
            _ => {},
        }
        assert(v@ =~= start + self.violations());
    }
}

/// One measured dimension of a charging period.
#[derive(Debug)]
pub struct CdrDimension {
    /// Type of CDR dimension.
    pub dimension_type: CdrDimensionType,
    /// Volume of the dimension consumed.
    pub volume: Number,
    /// Undocumented JSON fields, preserved verbatim.
    pub extensions: Extensions,
}

impl CdrDimension {
    /// Creates a dimension measurement, with no undocumented fields.
    pub fn new(dimension_type: CdrDimensionType, volume: Number) -> (d: Self)
        ensures
            d.dimension_type == dimension_type,
            d.volume == volume,
            d.extensions.spec_fields().len() == 0,
    {
        CdrDimension { dimension_type, volume, extensions: Extensions::new() }
    }
}

/// A period of a session with the volumes it recorded.
#[derive(Debug)]
pub struct ChargingPeriod {
    /// Start of the charging period.
    pub start_date_time: DateTime,
    /// Relevant values for this charging period.
    pub dimensions: Vec<CdrDimension>,
    /// Undocumented JSON fields, preserved verbatim.
    pub extensions: Extensions,
}

/// Where the first of `dims` of type `d` stands, types compared by their wire value.
pub open spec fn first_of_type(dims: Seq<CdrDimension>, d: CdrDimensionType) -> Option<int> {
    if exists|i: int| 0 <= i < dims.len() && cdr_dimension_type_wire(#[trigger] dims[i].dimension_type)
        == cdr_dimension_type_wire(d) {
        Some(
            choose|i: int|
                0 <= i < dims.len() && cdr_dimension_type_wire(dims[i].dimension_type) == cdr_dimension_type_wire(d)
                    && forall|j: int|
                    0 <= j < i ==> cdr_dimension_type_wire(#[trigger] dims[j].dimension_type)
                        != cdr_dimension_type_wire(d),
        )
    } else {
        None
    }
}

impl ChargingPeriod {
    /// The volume recorded for one dimension in this period: that of the first measurement of
    /// that type.
    pub fn volume(&self, dimension: CdrDimensionType) -> (r: Option<Number>)
        ensures
            match first_of_type(self.dimensions@, dimension) {
                Some(i) => r == Some(self.dimensions@[i].volume),
                None => r is None,
            },
    {
        let mut i: usize = 0;
        while i < self.dimensions.len()
            invariant
                i <= self.dimensions@.len(),
                forall|j: int|
                    0 <= j < i ==> cdr_dimension_type_wire(#[trigger] self.dimensions@[j].dimension_type)
                        != cdr_dimension_type_wire(dimension),
            decreases self.dimensions@.len() - i,
        {
            if self.dimensions[i].dimension_type == dimension {
                proof {
                    let dims = self.dimensions@;
                    let k = i as int;
                    let c = choose|x: int|
                        0 <= x < dims.len() && cdr_dimension_type_wire(dims[x].dimension_type)
                            == cdr_dimension_type_wire(dimension) && forall|j: int|
                            0 <= j < x ==> cdr_dimension_type_wire(#[trigger] dims[j].dimension_type)
                                != cdr_dimension_type_wire(dimension);
                    assert(0 <= k < dims.len() && cdr_dimension_type_wire(dims[k].dimension_type)
                        == cdr_dimension_type_wire(dimension));
                    if c < k {
                        assert(cdr_dimension_type_wire(dims[c].dimension_type) != cdr_dimension_type_wire(dimension));
                    } else if c > k {
                        assert(cdr_dimension_type_wire(dims[k].dimension_type) != cdr_dimension_type_wire(dimension));
                    }
                }
                return Some(self.dimensions[i].volume);
            }
            i = i + 1;
        }
        None
    }
}

} // verus!

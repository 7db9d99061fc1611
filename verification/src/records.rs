//! The closed TYPE and CLASS value domains of RFC 1035 resource records
//! (sections 3.2.2 and 3.2.4), with their numeric codes and display strings.

use vstd::prelude::*;

use crate::error::DnsError;

verus! {

/// TYPE fields used in resource records - RFC 1035 3.2.2.
#[derive(Debug, Clone, Copy, PartialEq, Eq, Structural)]
pub enum RecordType {
    /// 1 a host address
    A,
    /// 2 an authoritative name server
    NS,
    /// 3 a mail destination (obsolete - use MX)
    MD,
    /// 4 a mail forwarder (obsolete - use MX)
    MF,
    /// 5 the canonical name for an alias
    CNAME,
    /// 6 marks the start of a zone of authority
    SOA,
    /// 7 a mailbox hostname (experimental)
    MB,
    /// 8 a mail group member (experimental)
    MG,
    /// 9 a mail rename hostname (experimental)
    MR,
    /// 10 a null RR (experimental)
    NULL,
    /// 11 a well known service description
    WKS,
    /// 12 a hostname pointer
    PTR,
    /// 13 host information
    HINFO,
    /// 14 mailbox or mail list information
    MINFO,
    /// 15 mail exchange
    MX,
    /// 16 text strings
    TXT,
}

/// The wire code of a record type.
pub open spec fn type_code(t: RecordType) -> u16 {
    match t {
        RecordType::A => 1,
        RecordType::NS => 2,
        RecordType::MD => 3,
        RecordType::MF => 4,
        RecordType::CNAME => 5,
        RecordType::SOA => 6,
        RecordType::MB => 7,
        RecordType::MG => 8,
        RecordType::MR => 9,
        RecordType::NULL => 10,
        RecordType::WKS => 11,
        RecordType::PTR => 12,
        RecordType::HINFO => 13,
        RecordType::MINFO => 14,
        RecordType::MX => 15,
        RecordType::TXT => 16,
    }
}

/// The record type of a wire code, for codes inside the closed domain.
pub open spec fn type_of_code(value: u16) -> RecordType
    recommends
        1 <= value <= 16,
{
    match value {
        1u16 => RecordType::A,
        2u16 => RecordType::NS,
        3u16 => RecordType::MD,
        4u16 => RecordType::MF,
        5u16 => RecordType::CNAME,
        6u16 => RecordType::SOA,
        7u16 => RecordType::MB,
        8u16 => RecordType::MG,
        9u16 => RecordType::MR,
        10u16 => RecordType::NULL,
        11u16 => RecordType::WKS,
        12u16 => RecordType::PTR,
        13u16 => RecordType::HINFO,
        14u16 => RecordType::MINFO,
        15u16 => RecordType::MX,
        _ => RecordType::TXT,
    }
}

/// The canonical short display string of a record type.
pub open spec fn type_str(t: RecordType) -> Seq<char> {
    match t {
        RecordType::A => "A"@,
        RecordType::NS => "NS"@,
        RecordType::MD => "MD"@,
        RecordType::MF => "MF"@,
        RecordType::CNAME => "CNAME"@,
        RecordType::SOA => "SOA"@,
        RecordType::MB => "MB"@,
        RecordType::MG => "MG"@,
        RecordType::MR => "MR"@,
        RecordType::NULL => "NULL"@,
        RecordType::WKS => "WKS"@,
        RecordType::PTR => "PTR"@,
        RecordType::HINFO => "HINFO"@,
        RecordType::MINFO => "MINFO"@,
        RecordType::MX => "MX"@,
        RecordType::TXT => "TXT"@,
    }
}

impl RecordType {
    /// Decode a wire TYPE value; every value outside 1..=16 is rejected.
    pub fn from_u16(value: u16) -> (r: Result<RecordType, DnsError>)
        ensures
            1 <= value <= 16 ==> r == Ok::<RecordType, DnsError>(type_of_code(value)),
            !(1 <= value <= 16) ==> r == Err::<RecordType, DnsError>(DnsError::BadType),
    {
        match value {
            1 => Ok(RecordType::A),
            2 => Ok(RecordType::NS),
            3 => Ok(RecordType::MD),
            4 => Ok(RecordType::MF),
            5 => Ok(RecordType::CNAME),
            6 => Ok(RecordType::SOA),
            7 => Ok(RecordType::MB),
            8 => Ok(RecordType::MG),
            9 => Ok(RecordType::MR),
            10 => Ok(RecordType::NULL),
            11 => Ok(RecordType::WKS),
            12 => Ok(RecordType::PTR),
            13 => Ok(RecordType::HINFO),
            14 => Ok(RecordType::MINFO),
            15 => Ok(RecordType::MX),
            16 => Ok(RecordType::TXT),
            _ => Err(DnsError::BadType),
        }
    }

    /// Encode this record type as its wire TYPE value.
    pub fn to_u16(&self) -> (r: u16)
        ensures
            r == type_code(*self),
    {
        match self {
            RecordType::A => 1,
            RecordType::NS => 2,
            RecordType::MD => 3,
            RecordType::MF => 4,
            RecordType::CNAME => 5,
            RecordType::SOA => 6,
            RecordType::MB => 7,
            RecordType::MG => 8,
            RecordType::MR => 9,
            RecordType::NULL => 10,
            RecordType::WKS => 11,
            RecordType::PTR => 12,
            RecordType::HINFO => 13,
            RecordType::MINFO => 14,
            RecordType::MX => 15,
            RecordType::TXT => 16,
        }
    }

    /// The canonical short display string of this record type.
    pub fn get_str(&self) -> (r: &'static str)
        ensures
            r@ == type_str(*self),
    {
        match self {
            RecordType::A => "A",
            RecordType::NS => "NS",
            RecordType::MD => "MD",
            RecordType::MF => "MF",
            RecordType::CNAME => "CNAME",
            RecordType::SOA => "SOA",
            RecordType::MB => "MB",
            RecordType::MG => "MG",
            RecordType::MR => "MR",
            RecordType::NULL => "NULL",
            RecordType::WKS => "WKS",
            RecordType::PTR => "PTR",
            RecordType::HINFO => "HINFO",
            RecordType::MINFO => "MINFO",
            RecordType::MX => "MX",
            RecordType::TXT => "TXT",
        }
    }
}

/// Every defined TYPE code decodes to the variant that encodes back to it,
/// and every variant's code decodes back to the variant.
pub proof fn lemma_record_type_round_trip(value: u16, t: RecordType)
    ensures
        1 <= value <= 16 ==> type_code(type_of_code(value)) == value,
        type_of_code(type_code(t)) == t,
        1 <= type_code(t) <= 16,
{
}

/// CLASS fields appearing in resource records - RFC 1035 3.2.4.
#[derive(Debug, Clone, Copy, PartialEq, Eq, Structural)]
pub enum RecordClass {
    /// 1 the Internet
    IN,
    /// 2 the CSNET class (obsolete)
    CS,
    /// 3 the CHAOS class
    CH,
    /// 4 Hesiod
    HS,
}

/// The wire code of a record class.
pub open spec fn class_code(c: RecordClass) -> u16 {
    match c {
        RecordClass::IN => 1,
        RecordClass::CS => 2,
        RecordClass::CH => 3,
        RecordClass::HS => 4,
    }
}

/// The record class of a wire code, for codes inside the closed domain.
pub open spec fn class_of_code(value: u16) -> RecordClass
    recommends
        1 <= value <= 4,
{
    match value {
        1u16 => RecordClass::IN,
        2u16 => RecordClass::CS,
        3u16 => RecordClass::CH,
        _ => RecordClass::HS,
    }
}

/// The canonical short display string of a record class.
pub open spec fn class_str(c: RecordClass) -> Seq<char> {
    match c {
        RecordClass::IN => "IN"@,
        RecordClass::CS => "CS"@,
        RecordClass::CH => "CH"@,
        RecordClass::HS => "HS"@,
    }
}

impl RecordClass {
    /// Decode a wire CLASS value; every value outside 1..=4 is rejected.
    pub fn from_u16(value: u16) -> (r: Result<RecordClass, DnsError>)
        ensures
            1 <= value <= 4 ==> r == Ok::<RecordClass, DnsError>(class_of_code(value)),
            !(1 <= value <= 4) ==> r == Err::<RecordClass, DnsError>(DnsError::BadClass),
    {
        match value {
            1 => Ok(RecordClass::IN),
            2 => Ok(RecordClass::CS),
            3 => Ok(RecordClass::CH),
            4 => Ok(RecordClass::HS),
            _ => Err(DnsError::BadClass),
        }
    }

    /// Encode this record class as its wire CLASS value.
    pub fn to_u16(&self) -> (r: u16)
        ensures
            r == class_code(*self),
    {
        match self {
            RecordClass::IN => 1,
            RecordClass::CS => 2,
            RecordClass::CH => 3,
            RecordClass::HS => 4,
        }
    }

    /// The canonical short display string of this record class.
    pub fn get_str(&self) -> (r: &'static str)
        ensures
            r@ == class_str(*self),
    {
        match self {
            RecordClass::IN => "IN",
            RecordClass::CS => "CS",
            RecordClass::CH => "CH",
            RecordClass::HS => "HS",
        }
    }
}

/// Every defined CLASS code decodes to the variant that encodes back to it,
/// and every variant's code decodes back to the variant.
pub proof fn lemma_record_class_round_trip(value: u16, c: RecordClass)
    ensures
        1 <= value <= 4 ==> class_code(class_of_code(value)) == value,
        class_of_code(class_code(c)) == c,
        1 <= class_code(c) <= 4,
{
}

} // verus!

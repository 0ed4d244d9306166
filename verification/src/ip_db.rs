//! Countries of IP addresses, from a MaxMind database.

use crate::address::IpAddress;
use crate::node::text_of;
use maxminddb::{geoip2, MaxMindDbError, Reader};
use vstd::prelude::*;

verus! {

/// A MaxMind database that has been opened.
#[verifier::external_body]
pub struct IpDb {
    reader: Reader<Vec<u8>>,
}

/// maxminddb's error.
#[verifier::external_type_specification]
#[verifier::external_body]
pub struct ExMaxMindDbError(maxminddb::MaxMindDbError);

/// The bytes of the file that an opened database holds.
pub uninterp spec fn database(db: IpDb) -> Seq<u8>;

/// What the record of an IP address in a database gives as the ISO code of the country.
///
/// The outermost option is empty where the look-up or the decoding of the record fails, the next
/// one where the database has no record of the address, and the innermost one where the record
/// does not hold the code.
pub uninterp spec fn city_lookup(
    database: Seq<u8>,
    ip: IpAddress,
) -> Option<Option<Option<Seq<char>>>>;

/// The bytes that stand before the metadata of a database.
pub open spec fn metadata_marker() -> Seq<u8> {
    seq![0xab, 0xcd, 0xef, 0x4d, 0x61, 0x78, 0x4d, 0x69, 0x6e, 0x64, 0x2e, 0x63, 0x6f, 0x6d]
}

/// Whether the bytes hold the marker of a database's metadata.
pub open spec fn holds_marker(bytes: Seq<u8>) -> bool {
    exists|i: int|
        0 <= i <= bytes.len() && metadata_marker().is_prefix_of(#[trigger] bytes.skip(i))
}

/// Calls `maxminddb::Reader::from_source`: opens a database that is held in memory. Bytes without
/// the marker of a database's metadata do not open.
///
/// Which of the other bytes open is left unsaid: maxminddb also asks whether the platform's clock
/// can represent the file's build time.
#[verifier::external_body]
fn open_reader(bytes: Vec<u8>) -> (res: Result<IpDb, MaxMindDbError>)
    ensures
        res matches Ok(db) ==> database(db) == bytes@ && holds_marker(bytes@),
{
    Reader::from_source(bytes).map(|reader| IpDb { reader })
}

/// Calls `maxminddb::Reader::lookup`, and `LookupResult::decode` on what it gives: the record of
/// an IP address, of which the country's ISO code is kept. The result is named by
/// [`city_lookup`].
#[verifier::external_body]
fn lookup_city(db: &IpDb, ip: IpAddress) -> (res: Result<Option<Option<String>>, MaxMindDbError>)
    ensures
        match res {
            Ok(None) => city_lookup(database(*db), ip) == Some(None::<Option<Seq<char>>>),
            Ok(Some(None)) => city_lookup(database(*db), ip) == Some(Some(None::<Seq<char>>)),
            Ok(Some(Some(code))) => city_lookup(database(*db), ip) == Some(Some(Some(code@))),
            Err(_) => city_lookup(database(*db), ip) is None,
        },
{
    let address = match ip {
        IpAddress::V4(bits) => bits.to_be_bytes().into(),
        IpAddress::V6(bits) => bits.to_be_bytes().into(),
    };
    let city = db.reader.lookup(address)?.decode::<geoip2::City>()?;
    Ok(city.map(|record| record.country.iso_code.map(|code| code.to_string())))
}

/// Why a database could not be opened.
#[derive(Debug, Clone, Copy, PartialEq, Eq)]
pub enum IpDbError {
    /// The bytes are not those of a database that can be read.
    Unreadable,
}

/// The country of a record that was looked up, if the look-up came to one.
pub open spec fn country_of_record(record: Option<Option<Option<Seq<char>>>>) -> Option<Seq<char>> {
    match record {
        Some(Some(Some(code))) => Some(code),
        _ => None,
    }
}

/// The country of a record that was looked up, whatever the look-up came to.
pub fn record_country<E>(record: Result<Option<Option<String>>, E>) -> (res: Option<String>)
    ensures
        match record {
            Ok(Some(Some(code))) => res == Some(code),
            _ => res is None,
        },
{
    match record {
        Ok(Some(Some(code))) => Some(code),
        _ => None,
    }
}

/// The database that was opened, or why there is none.
pub fn opened<E>(reader: Result<IpDb, E>) -> (res: Result<IpDb, IpDbError>)
    ensures
        match reader {
            Ok(db) => res == Ok::<IpDb, IpDbError>(db),
            Err(_) => res == Err::<IpDb, IpDbError>(IpDbError::Unreadable),
        },
{
    match reader {
        Ok(db) => Ok(db),
        Err(_) => Err(IpDbError::Unreadable),
    }
}

impl IpDb {
    /// Opens a database that is held in memory, where maxminddb can open it.
    ///
    /// Bytes without the marker of a database's metadata are refused.
    pub fn open(bytes: Vec<u8>) -> (res: Result<IpDb, IpDbError>)
        ensures
            match res {
                Ok(db) => database(db) == bytes@ && holds_marker(bytes@),
                Err(error) => error == IpDbError::Unreadable,
            },
    {
        opened(open_reader(bytes))
    }

    /// The ISO code of the country that an IP address is in, if the database knows it.
    pub fn country(&self, ip: IpAddress) -> (res: Option<String>)
        ensures
            text_of(res) == country_of_record(city_lookup(database(*self), ip)),
    {
        record_country(lookup_city(self, ip))
    }
}

} // verus!

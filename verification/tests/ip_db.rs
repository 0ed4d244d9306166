//! Countries of IP addresses.

use kademlia_exporter::address::IpAddress;
use kademlia_exporter::ip_db::{opened, record_country, IpDb, IpDbError};

fn string(text: &str) -> Vec<u8> {
    let mut bytes = vec![0x40 | text.len() as u8];
    bytes.extend_from_slice(text.as_bytes());
    bytes
}

/// The bytes of a MaxMind database of IPv4 addresses.
///
/// The lowest quarter of the addresses is in Germany. The record of the second quarter has no
/// country, that of the third quarter is not a map, and the last quarter has no record.
fn database() -> Vec<u8> {
    let mut germany = vec![0xe1];
    germany.extend(string("country"));
    germany.push(0xe1);
    germany.extend(string("iso_code"));
    germany.extend(string("DE"));
    let nowhere = vec![0xe0];
    let broken = string("xy");

    let nodes: u8 = 3;
    let first_record = nodes + 16;
    let second_record = first_record + germany.len() as u8;
    let third_record = second_record + nowhere.len() as u8;
    let mut bytes: Vec<u8> = vec![];
    for record in [1, 2, first_record, second_record, third_record, nodes] {
        bytes.extend([0, 0, record]);
    }
    bytes.extend([0; 16]);
    bytes.extend(germany);
    bytes.extend(nowhere);
    bytes.extend(broken);

    bytes.extend(b"\xab\xcd\xefMaxMind.com");
    bytes.push(0xe9);
    bytes.extend(string("binary_format_major_version"));
    bytes.extend([0xa1, 2]);
    bytes.extend(string("binary_format_minor_version"));
    bytes.push(0xa0);
    bytes.extend(string("build_epoch"));
    bytes.extend([0x04, 0x02, 0x5f, 0, 0, 0]);
    bytes.extend(string("database_type"));
    bytes.extend(string("Test-City"));
    bytes.extend(string("description"));
    bytes.push(0xe1);
    bytes.extend(string("en"));
    bytes.extend(string("Test"));
    bytes.extend(string("ip_version"));
    bytes.extend([0xa1, 4]);
    bytes.extend(string("languages"));
    bytes.extend([0x01, 0x04]);
    bytes.extend(string("en"));
    bytes.extend(string("node_count"));
    bytes.extend([0xc1, nodes]);
    bytes.extend(string("record_size"));
    bytes.extend([0xa1, 24]);
    bytes
}

#[test]
fn bytes_that_are_no_database_are_refused() {
    assert_eq!(IpDb::open(vec![]).err(), Some(IpDbError::Unreadable));
    assert_eq!(IpDb::open(vec![1, 2, 3]).err(), Some(IpDbError::Unreadable));
    let mut cut = database();
    cut.truncate(40);
    assert_eq!(IpDb::open(cut).err(), Some(IpDbError::Unreadable));
}

#[test]
fn bytes_without_the_marker_of_the_metadata_are_refused() {
    let mut bytes = database();
    let marker = bytes
        .windows(14)
        .position(|window| window == b"\xab\xcd\xefMaxMind.com")
        .unwrap();
    bytes[marker] = 0;
    assert_eq!(IpDb::open(bytes).err(), Some(IpDbError::Unreadable));
    let bare = b"\xab\xcd\xefMaxMind.com".to_vec();
    assert_eq!(IpDb::open(bare).err(), Some(IpDbError::Unreadable));
}

#[test]
fn a_database_is_opened_or_unreadable() {
    let db = IpDb::open(database()).ok().unwrap();
    let db = opened::<u8>(Ok(db)).ok().unwrap();
    assert_eq!(db.country(IpAddress::V4(0)), Some("DE".to_string()));
    assert_eq!(opened::<u8>(Err(1)).err(), Some(IpDbError::Unreadable));
}

#[test]
fn an_address_has_the_country_of_its_record() {
    let db = IpDb::open(database()).ok().unwrap();
    assert_eq!(db.country(IpAddress::V4(0)), Some("DE".to_string()));
    assert_eq!(db.country(IpAddress::V4(0x01020304)), Some("DE".to_string()));
    assert_eq!(db.country(IpAddress::V4(0x3fffffff)), Some("DE".to_string()));
}

#[test]
fn an_address_without_a_country_has_none() {
    let db = IpDb::open(database()).ok().unwrap();
    // The record does not tell a country.
    assert_eq!(db.country(IpAddress::V4(0x40000000)), None);
    // The record cannot be read.
    assert_eq!(db.country(IpAddress::V4(0x80000000)), None);
    // There is no record.
    assert_eq!(db.country(IpAddress::V4(0xc0000000)), None);
    // The database does not cover such addresses.
    assert_eq!(db.country(IpAddress::V6(1 << 127)), None);
}

#[test]
fn a_record_has_a_country_if_it_tells_one() {
    let code = "FR".to_string();
    assert_eq!(
        record_country::<u8>(Ok(Some(Some(code.clone())))),
        Some(code)
    );
    assert_eq!(record_country::<u8>(Ok(Some(None))), None);
    assert_eq!(record_country::<u8>(Ok(None)), None);
    assert_eq!(record_country::<u8>(Err(1)), None);
}

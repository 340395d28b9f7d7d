//! Unit tests for the individual parsers and helpers: both-endian integers,
//! date-times, character encodings, system-use entries and their
//! aggregation, name handling, and path splitting.

use cdfs::both_endian::{both_endian16, both_endian32};
use cdfs::datetime::{parse_iso_date_time, parse_vol_date_time, IsoDateTime};
use cdfs::directory_entry::strip_version;
use cdfs::directory_record::DirectoryEntryHeader;
use cdfs::encoding::CharacterEncoding;
use cdfs::error::ISOError;
use cdfs::extra_meta::aggregate_meta;
use cdfs::isofile::SeekFrom;
use cdfs::path::path_segments;
use cdfs::strutil::{decode_iso_bytes, decode_ucs2_bytes, str_eq_ignore_ascii_case};
use cdfs::susp::{system_use_entries, PosixFileMode, SuspExtension, SystemUseEntry};
use cdfs::{ISO9660, MemoryReader};

fn both32v(v: u32) -> Vec<u8> {
    let mut r = v.to_le_bytes().to_vec();
    r.extend_from_slice(&v.to_be_bytes());
    r
}

fn susp_frame(sig: &[u8; 2], payload: &[u8]) -> Vec<u8> {
    let mut r = vec![sig[0], sig[1], (payload.len() + 4) as u8, 1];
    r.extend_from_slice(payload);
    r
}

#[test]
fn both_endian_prefers_little_endian() {
    // matching representations: no mismatch reported
    let d16 = [0x34u8, 0x12, 0x12, 0x34];
    assert_eq!(both_endian16(&d16, 0), (0x1234, false));
    let d32 = [0x78u8, 0x56, 0x34, 0x12, 0x12, 0x34, 0x56, 0x78];
    assert_eq!(both_endian32(&d32, 0), (0x12345678, false));
    // disagreeing representations: the little-endian value wins and the
    // mismatch is reported
    let bad16 = [0x34u8, 0x12, 0xAA, 0xBB];
    assert_eq!(both_endian16(&bad16, 0), (0x1234, true));
    let bad32 = [0x78u8, 0x56, 0x34, 0x12, 0, 0, 0, 0];
    assert_eq!(both_endian32(&bad32, 0), (0x12345678, true));
}

#[test]
fn record_date_time_fields() {
    let d = [101u8, 2, 3, 4, 5, 6, 8];
    let t = parse_iso_date_time(&d, 0);
    assert_eq!(t.year, 2001);
    assert_eq!(t.month, 2);
    assert_eq!(t.day, 3);
    assert_eq!(t.hour, 4);
    assert_eq!(t.minute, 5);
    assert_eq!(t.second, 6);
    assert_eq!(t.gmt_offset, 8);
    // timezone bytes above 0x7F are negative offsets
    let west = [101u8, 2, 3, 4, 5, 6, 0xFC];
    assert_eq!(parse_iso_date_time(&west, 0).gmt_offset, -4);
}

#[test]
fn volume_date_time_parses_digits_and_sentinels() {
    let set = b"2024013112300099\x04";
    let t = parse_vol_date_time(set, 0).unwrap();
    assert_eq!(t.year, 2024);
    assert_eq!(t.month, 1);
    assert_eq!(t.day, 31);
    assert_eq!(t.hour, 12);
    assert_eq!(t.minute, 30);
    assert_eq!(t.hundredths, 99);
    assert_eq!(t.gmt_offset, 4);
    let zeros = b"0000000000000000\x00";
    assert_eq!(parse_vol_date_time(zeros, 0).unwrap().year, 0);
    let spaces = b"                \x00";
    assert_eq!(parse_vol_date_time(spaces, 0).unwrap().year, 0);
    let bad = b"20240131123000XY\x00";
    assert_eq!(parse_vol_date_time(bad, 0), Err(ISOError::ParseInt));
}

#[test]
fn unix_seconds_of_known_dates() {
    let epoch = IsoDateTime {
        year: 1970,
        month: 1,
        day: 1,
        hour: 0,
        minute: 0,
        second: 0,
        gmt_offset: 0,
    };
    assert_eq!(epoch.to_unix_seconds(), Some(0));
    let y2k = IsoDateTime {
        year: 2000,
        month: 3,
        day: 1,
        hour: 0,
        minute: 0,
        second: 0,
        gmt_offset: 0,
    };
    assert_eq!(y2k.to_unix_seconds(), Some(951868800));
    // one quarter-hour east of GMT makes the instant 900 seconds earlier
    let east = IsoDateTime { gmt_offset: 1, ..epoch };
    assert_eq!(east.to_unix_seconds(), Some(-900));
    let bad = IsoDateTime { month: 13, ..epoch };
    assert_eq!(bad.to_unix_seconds(), None);
}

#[test]
fn character_encoding_field() {
    assert_eq!(CharacterEncoding::parse(&[0x25, 0x2F, 0x40]), Ok(CharacterEncoding::Ucs2Level1));
    assert_eq!(CharacterEncoding::parse(&[0x25, 0x2F, 0x43]), Ok(CharacterEncoding::Ucs2Level2));
    assert_eq!(CharacterEncoding::parse(&[0x25, 0x2F, 0x45]), Ok(CharacterEncoding::Ucs2Level3));
    assert_eq!(CharacterEncoding::parse(&[0u8; 32]), Ok(CharacterEncoding::Iso9660));
    assert_eq!(
        CharacterEncoding::parse(&[0xFFu8; 32]),
        Err(ISOError::InvalidFs("unknown character encoding"))
    );
}

#[test]
fn string_decoding_trims_padding() {
    assert_eq!(decode_iso_bytes(b"HELLO   ").unwrap(), "HELLO");
    assert_eq!(decode_iso_bytes(&[0xFF, 0xFE]), Err(ISOError::Utf8));
    let mut ucs = Vec::new();
    for u in "Hi  ".encode_utf16() {
        ucs.extend_from_slice(&u.to_be_bytes());
    }
    assert_eq!(decode_ucs2_bytes(&ucs).unwrap(), "Hi");
    // a dangling odd pad byte is dropped before decoding
    assert_eq!(decode_ucs2_bytes(&[0x00, 0x48, 0x00]).unwrap(), "H");
    // an unpaired surrogate cannot be decoded
    assert_eq!(decode_ucs2_bytes(&[0xD8, 0x00]), Err(ISOError::Utf16));
}

#[test]
fn ascii_case_insensitive_compare() {
    assert!(str_eq_ignore_ascii_case("GPL_3_0.TXT", "gpl_3_0.txt"));
    assert!(str_eq_ignore_ascii_case("AbC", "aBc"));
    assert!(!str_eq_ignore_ascii_case("ab", "abc"));
    assert!(!str_eq_ignore_ascii_case("ab", "ac"));
}

#[test]
fn version_suffix_stripping() {
    assert_eq!(strip_version("FOO.TXT;1").unwrap(), (String::from("FOO.TXT"), 1));
    assert_eq!(strip_version("FOO.;1").unwrap(), (String::from("FOO"), 1));
    assert_eq!(strip_version("FOO.TXT;32767").unwrap(), (String::from("FOO.TXT"), 32767));
    assert_eq!(strip_version("NOVERSION").unwrap(), (String::from("NOVERSION"), 1));
    assert_eq!(strip_version("BARE."), Ok((String::from("BARE"), 1)));
    assert_eq!(strip_version("X;"), Err(ISOError::ParseInt));
    assert_eq!(strip_version("X;12AB"), Err(ISOError::ParseInt));
    assert_eq!(strip_version("X;99999"), Err(ISOError::ParseInt));
}

#[test]
fn path_segment_splitting() {
    let segs = path_segments("///a//b/");
    let segs: Vec<&str> = segs.iter().map(|s| s.as_str()).collect();
    assert_eq!(segs, &["a", "b"]);
    assert!(path_segments("").is_empty());
    assert!(path_segments("////").is_empty());
    let one = path_segments("name");
    assert_eq!(one.len(), 1);
    assert_eq!(one[0].as_str(), "name");
}

#[test]
fn susp_entry_decoding() {
    let mut area = Vec::new();
    area.extend(susp_frame(b"SP", &[0xBE, 0xEF, 2]));
    area.extend(susp_frame(b"CE", &{
        let mut p = both32v(9);
        p.extend(both32v(16));
        p.extend(both32v(100));
        p
    }));
    area.extend(susp_frame(b"CL", &both32v(77)));
    area.extend(susp_frame(b"RE", &[]));
    area.extend(susp_frame(b"RR", &[0x89]));
    area.extend(susp_frame(b"ZZ", &[1, 2, 3]));
    area.extend(vec![0u8; 7]);  // zero padding ends the area
    let entries = system_use_entries(&area);
    assert_eq!(entries.len(), 6);
    match &entries[0] {
        SystemUseEntry::SuspIndicator(sp) => assert_eq!(sp.skip, 2),
        _ => panic!("expected SP"),
    }
    match &entries[1] {
        SystemUseEntry::ContinuationArea(ce) => {
            assert_eq!(ce.block_location, 9);
            assert_eq!(ce.offset, 16);
            assert_eq!(ce.length, 100);
        },
        _ => panic!("expected CE"),
    }
    match &entries[2] {
        SystemUseEntry::ChildLink(cl) => assert_eq!(cl.0, 77),
        _ => panic!("expected CL"),
    }
    match &entries[3] {
        SystemUseEntry::RelocatedDirectory(re) => assert!(re.0),
        _ => panic!("expected RE"),
    }
    match &entries[4] {
        SystemUseEntry::RockRidge(rr) => assert_eq!(rr.flags, 0x89),
        _ => panic!("expected RR"),
    }
    match &entries[5] {
        SystemUseEntry::Unknown(u) => {
            assert_eq!((u.sig0, u.sig1), (b'Z', b'Z'));
            assert_eq!(u.data, vec![1, 2, 3]);
        },
        _ => panic!("expected unknown entry"),
    }
}

#[test]
fn susp_malformed_payload_is_preserved_as_unknown() {
    // a CE whose payload is too short for its three fields
    let area = susp_frame(b"CE", &[1, 2, 3]);
    let entries = system_use_entries(&area);
    assert_eq!(entries.len(), 1);
    match &entries[0] {
        SystemUseEntry::Unknown(u) => assert_eq!((u.sig0, u.sig1), (b'C', b'E')),
        _ => panic!("expected unknown entry"),
    }
}

#[test]
fn susp_px_with_and_without_inode() {
    let mut p = both32v(0o100644);
    p.extend(both32v(2));
    p.extend(both32v(1000));
    p.extend(both32v(100));
    let entries = system_use_entries(&susp_frame(b"PX", &p));
    match &entries[0] {
        SystemUseEntry::PosixAttributes(a) => {
            assert_eq!(a.mode.bits, 0o100644);
            assert_eq!(a.links, 2);
            assert_eq!(a.uid, 1000);
            assert_eq!(a.gid, 100);
            assert_eq!(a.inode, None);
        },
        _ => panic!("expected PX"),
    }
    let mut p12 = p.clone();
    p12.extend(both32v(4242));
    let entries = system_use_entries(&susp_frame(b"PX", &p12));
    match &entries[0] {
        SystemUseEntry::PosixAttributes(a) => assert_eq!(a.inode, Some(4242)),
        _ => panic!("expected PX"),
    }
}

#[test]
fn susp_er_recognises_rock_ridge() {
    let mut p = vec![10, 0, 0, 1];
    p.extend_from_slice(b"RRIP_1991A");
    let entries = system_use_entries(&susp_frame(b"ER", &p));
    match &entries[0] {
        SystemUseEntry::ExtensionsReference(er) => {
            assert_eq!(er.extensions, vec![SuspExtension::RockRidge1_09]);
        },
        _ => panic!("expected ER"),
    }
    let mut p12 = vec![10, 0, 0, 1];
    p12.extend_from_slice(b"IEEE_P1282");
    let entries = system_use_entries(&susp_frame(b"ER", &p12));
    match &entries[0] {
        SystemUseEntry::ExtensionsReference(er) => {
            assert_eq!(er.extensions, vec![SuspExtension::RockRidge1_12]);
        },
        _ => panic!("expected ER"),
    }
    // an unknown extension identifier leaves the entry opaque
    let mut pu = vec![7, 0, 0, 1];
    pu.extend_from_slice(b"UNKNOWN");
    let entries = system_use_entries(&susp_frame(b"ER", &pu));
    assert!(matches!(&entries[0], SystemUseEntry::Unknown(_)));
}

#[test]
fn nm_chain_concatenation() {
    // the third entry closes the chain, the fourth is ignored
    let mut area = Vec::new();
    area.extend(susp_frame(b"NM", b"\x01one "));
    area.extend(susp_frame(b"NM", b"\x01two "));
    area.extend(susp_frame(b"NM", b"\x00three"));
    area.extend(susp_frame(b"NM", b"\x01four"));
    let entries = system_use_entries(&area);
    let (meta, _cl) = aggregate_meta(&entries);
    assert_eq!(meta.alt_name.as_deref(), Some("one two three"));
}

#[test]
fn sl_chain_concatenation() {
    let mut area = Vec::new();
    area.extend(susp_frame(b"SL", b"\x01\x00\x01a\x00\x01b"));
    area.extend(susp_frame(b"SL", b"\x00\x00\x01c"));
    let entries = system_use_entries(&area);
    let (meta, _cl) = aggregate_meta(&entries);
    assert_eq!(meta.symlink_target.as_deref(), Some("a/b/c"));
}

#[test]
fn sl_root_and_special_components() {
    // root flag at the start yields a leading separator
    let mut area = Vec::new();
    area.extend(susp_frame(b"SL", b"\x00\x08\x00\x00\x03usr"));
    let entries = system_use_entries(&area);
    let (meta, _cl) = aggregate_meta(&entries);
    assert_eq!(meta.symlink_target.as_deref(), Some("/usr"));
    // current and parent flags become dot components
    let mut area2 = Vec::new();
    area2.extend(susp_frame(b"SL", b"\x00\x04\x00\x02\x00"));
    let entries2 = system_use_entries(&area2);
    let (meta2, _cl2) = aggregate_meta(&entries2);
    assert_eq!(meta2.symlink_target.as_deref(), Some("../."));
    assert_eq!(path_segments("../.").len(), 2);
    match &entries2[0] {
        SystemUseEntry::SymbolicLink(l) => assert_eq!(l.records.len(), 2),
        _ => panic!("expected SL"),
    }
}

#[test]
fn tf_timestamps_by_flag_order() {
    // creation (bit 0) and access (bit 2): two timestamps in order
    let mut p = vec![0x05u8];
    p.extend_from_slice(&[100, 1, 2, 3, 4, 5, 0]);
    p.extend_from_slice(&[101, 6, 7, 8, 9, 10, 0]);
    let entries = system_use_entries(&susp_frame(b"TF", &p));
    let (meta, _cl) = aggregate_meta(&entries);
    let c = meta.timestamps.creation.unwrap();
    assert_eq!((c.year, c.month), (2000, 1));
    let a = meta.timestamps.access.unwrap();
    assert_eq!((a.year, a.month), (2001, 6));
    assert!(meta.timestamps.modify.is_none());
}

#[test]
fn aggregate_deduplicates_extensions() {
    // two ER entries announcing the same extension yield it once
    let mut p = vec![10u8, 0, 0, 1];
    p.extend_from_slice(b"RRIP_1991A");
    let mut area = susp_frame(b"ER", &p);
    area.extend(susp_frame(b"ER", &p));
    let entries = system_use_entries(&area);
    assert_eq!(entries.len(), 2);
    let (meta, _cl) = aggregate_meta(&entries);
    assert_eq!(meta.extensions, vec![SuspExtension::RockRidge1_09]);
}

#[test]
fn aggregate_takes_first_px_and_cl() {
    let mut area = Vec::new();
    let mut px1 = both32v(0o100600);
    px1.extend(both32v(1));
    px1.extend(both32v(1));
    px1.extend(both32v(1));
    let mut px2 = both32v(0o100666);
    px2.extend(both32v(9));
    px2.extend(both32v(9));
    px2.extend(both32v(9));
    area.extend(susp_frame(b"PX", &px1));
    area.extend(susp_frame(b"PX", &px2));
    area.extend(susp_frame(b"CL", &both32v(5)));
    area.extend(susp_frame(b"CL", &both32v(6)));
    let entries = system_use_entries(&area);
    let (meta, cl) = aggregate_meta(&entries);
    assert_eq!(meta.attributes.unwrap().mode.bits, 0o100600);
    assert_eq!(cl, Some(5));
    assert!(!meta.relocated);
}

#[test]
fn mode_string_rendering() {
    assert_eq!(PosixFileMode { bits: 0o100644 }.mode_string(), "-rw-r--r--");
    assert_eq!(PosixFileMode { bits: 0o040755 }.mode_string(), "drwxr-xr-x");
    assert_eq!(PosixFileMode { bits: 0o120777 }.mode_string(), "lrwxrwxrwx");
    assert_eq!(PosixFileMode { bits: 0o104755 }.mode_string(), "-rwSr-xr-x");
    assert_eq!(PosixFileMode { bits: 0o104655 }.mode_string(), "-rwsr-xr-x");
    assert_eq!(PosixFileMode { bits: 0o100644 }.permission_bits(), 0o644);
    assert!(PosixFileMode { bits: 0o120777 }.is_symlink());
    assert!(!PosixFileMode { bits: 0o100644 }.is_symlink());
}

#[test]
fn directory_record_rejects_malformed_lengths() {
    // too short for the fixed header
    let short = [10u8; 10];
    assert!(matches!(
        DirectoryEntryHeader::parse(&short, CharacterEncoding::Iso9660),
        Err(ISOError::Parse(_))
    ));
    // a record whose length field undercuts the identifier (the invariant
    // record_length >= 33 + identifier_length + padding)
    let mut rec = vec![0u8; 64];
    rec[0] = 34;
    rec[32] = 20;  // identifier longer than the record admits
    for i in 33..53 {
        rec[i] = b'A';
    }
    assert!(matches!(
        DirectoryEntryHeader::parse(&rec, CharacterEncoding::Iso9660),
        Err(ISOError::Parse(_))
    ));
}

#[test]
fn mount_errors() {
    // an empty source cannot serve the descriptor area
    let err = match ISO9660::new(MemoryReader::new(Vec::new())) {
        Err(e) => e,
        Ok(_) => panic!("mount of an empty source succeeded"),
    };
    assert_eq!(err, ISOError::ReadSize(0));
    // blocks without the standard identifier are rejected
    let junk = vec![0xAAu8; 20 * 2048];
    let err = match ISO9660::new(MemoryReader::new(junk)) {
        Err(e) => e,
        Ok(_) => panic!("mount of a junk source succeeded"),
    };
    assert_eq!(err, ISOError::InvalidFs("unexpected standard identifier"));
    assert!(!err.description().is_empty());
    assert!(!ISOError::Io(String::from("boom")).description().is_empty());
    assert!(!ISOError::TryFromInt.description().is_empty());
}

#[test]
fn file_reader_seek_contract() {
    // a reader is pure state until a read happens, so seek can be tested
    // without a mounted filesystem
    let mut rdr = cdfs::ISOFileReader {
        buf: vec![0u8; 2048],
        buf_lba: None,
        seek: 0,
        start_lba: 0,
        size: 100,
    };
    assert_eq!(rdr.seek(SeekFrom::Start(7)).unwrap(), 7);
    assert_eq!(rdr.seek(SeekFrom::Current(3)).unwrap(), 10);
    assert_eq!(rdr.seek(SeekFrom::End(-10)).unwrap(), 90);
    assert_eq!(rdr.seek(SeekFrom::End(10)).unwrap(), 110);
    assert_eq!(rdr.seek(SeekFrom::Current(-200)), Err(ISOError::Parse("invalid seek")));
    assert_eq!(rdr.seek(SeekFrom::Current(0)).unwrap(), 110);
}

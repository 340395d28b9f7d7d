//! End-to-end tests over ISO images synthesized in memory: a plain
//! ISO 9660 volume, a Joliet volume, and a Rock Ridge volume.

use cdfs::{
    DirectoryEntry, ExtraAttributes, ISODirectory, ISO9660, MemoryReader, SeekFrom,
};

fn both16(v: u16) -> Vec<u8> {
    let le = v.to_le_bytes();
    let be = v.to_be_bytes();
    vec![le[0], le[1], be[0], be[1]]
}

fn both32(v: u32) -> Vec<u8> {
    let mut r = v.to_le_bytes().to_vec();
    r.extend_from_slice(&v.to_be_bytes());
    r
}

fn record(extent: u32, size: u32, flags: u8, id: &[u8], sua: &[u8]) -> Vec<u8> {
    let idl = id.len();
    let pad = if idl % 2 == 0 { 1 } else { 0 };
    let len = 33 + idl + pad + sua.len();
    assert!(len <= 255);
    let mut r = Vec::new();
    r.push(len as u8);
    r.push(0);
    r.extend(both32(extent));
    r.extend(both32(size));
    r.extend_from_slice(&[70, 1, 1, 0, 0, 0, 0]);
    r.push(flags);
    r.push(0);
    r.push(0);
    r.extend(both16(1));
    r.push(idl as u8);
    r.extend_from_slice(id);
    if pad == 1 {
        r.push(0);
    }
    r.extend_from_slice(sua);
    r
}

/// Packs directory records into 2048-byte blocks, zero-padded, never
/// letting a record span a block boundary.
fn dir_extent(records: &[Vec<u8>]) -> Vec<u8> {
    let mut out = Vec::new();
    let mut pos = 0usize;
    for rec in records {
        if pos + rec.len() > 2048 {
            out.extend(vec![0u8; 2048 - pos]);
            pos = 0;
        }
        out.extend_from_slice(rec);
        pos += rec.len();
    }
    if pos > 0 {
        out.extend(vec![0u8; 2048 - pos]);
    }
    out
}

fn susp(sig: &[u8; 2], payload: &[u8]) -> Vec<u8> {
    let mut r = vec![sig[0], sig[1], (payload.len() + 4) as u8, 1];
    r.extend_from_slice(payload);
    r
}

fn nm(flags: u8, name: &str) -> Vec<u8> {
    let mut p = vec![flags];
    p.extend_from_slice(name.as_bytes());
    susp(b"NM", &p)
}

fn px(mode: u32) -> Vec<u8> {
    let mut p = both32(mode);
    p.extend(both32(1));
    p.extend(both32(0));
    p.extend(both32(0));
    susp(b"PX", &p)
}

fn sl(should_continue: u8, comps: &[(u8, &str)]) -> Vec<u8> {
    let mut p = vec![should_continue];
    for (flags, comp) in comps {
        p.push(*flags);
        p.push(comp.len() as u8);
        p.extend_from_slice(comp.as_bytes());
    }
    susp(b"SL", &p)
}

fn ce(block: u32, offset: u32, length: u32) -> Vec<u8> {
    let mut p = both32(block);
    p.extend(both32(offset));
    p.extend(both32(length));
    susp(b"CE", &p)
}

fn er_rrip() -> Vec<u8> {
    let mut p = vec![10, 0, 0, 1];
    p.extend_from_slice(b"RRIP_1991A");
    susp(b"ER", &p)
}

fn sp_entry() -> Vec<u8> {
    susp(b"SP", &[0xBE, 0xEF, 0])
}

fn re_entry() -> Vec<u8> {
    susp(b"RE", &[])
}

fn cl_entry(lba: u32) -> Vec<u8> {
    susp(b"CL", &both32(lba))
}

fn tf_modify(ts: [u8; 7]) -> Vec<u8> {
    let mut p = vec![0x02];
    p.extend_from_slice(&ts);
    susp(b"TF", &p)
}

fn ucs2(s: &str) -> Vec<u8> {
    let mut r = Vec::new();
    for u in s.encode_utf16() {
        r.extend_from_slice(&u.to_be_bytes());
    }
    r
}

fn datetime17_zero() -> Vec<u8> {
    let mut r = vec![b'0'; 16];
    r.push(0);
    r
}

/// Builds a Primary (type 1) or Supplementary (type 2) volume descriptor.
fn descriptor(type_code: u8, joliet: bool, total_blocks: u32, root: &[u8]) -> Vec<u8> {
    assert_eq!(root.len(), 34);
    let mut b = vec![0u8; 2048];
    b[0] = type_code;
    b[1..7].copy_from_slice(b"CD001\x01");
    for i in 8..72 {
        b[i] = b' ';
    }
    b[80..88].copy_from_slice(&both32(total_blocks));
    if joliet {
        b[88] = 0x25;
        b[89] = 0x2F;
        b[90] = 0x45;
    }
    b[120..124].copy_from_slice(&both16(1));
    b[124..128].copy_from_slice(&both16(1));
    b[128..132].copy_from_slice(&both16(2048));
    b[132..140].copy_from_slice(&both32(0));
    b[156..190].copy_from_slice(root);
    for i in 190..813 {
        b[i] = b' ';
    }
    b[813..830].copy_from_slice(&datetime17_zero());
    b[830..847].copy_from_slice(&datetime17_zero());
    b[847..864].copy_from_slice(&datetime17_zero());
    b[864..881].copy_from_slice(&datetime17_zero());
    b[881] = 1;
    b
}

fn terminator() -> Vec<u8> {
    let mut b = vec![0u8; 2048];
    b[0] = 255;
    b[1..7].copy_from_slice(b"CD001\x01");
    b
}

struct Image {
    bytes: Vec<u8>,
}

impl Image {
    fn new(blocks: u32) -> Image {
        Image { bytes: vec![0u8; blocks as usize * 2048] }
    }

    fn write_at(&mut self, lba: u32, data: &[u8]) {
        let start = lba as usize * 2048;
        self.bytes[start..start + data.len()].copy_from_slice(data);
    }
}

fn dot(extent: u32, size: u32, sua: &[u8]) -> Vec<u8> {
    record(extent, size, 2, &[0], sua)
}

fn dotdot(extent: u32, size: u32) -> Vec<u8> {
    record(extent, size, 2, &[1], &[])
}

fn gpl_text() -> Vec<u8> {
    let mut t = String::new();
    for i in 0..500 {
        t.push_str("This sample paragraph stands in for a long license text ");
        t.push_str(&i.to_string());
        t.push('\n');
    }
    t.into_bytes()
}

/// A plain ISO 9660 image: root holds `A` (a directory chain `a/b/c` with
/// 200 numbered files) and `GPL_3_0.TXT`.
fn plain_image() -> Vec<u8> {
    let content = gpl_text();
    let file_blocks = (content.len() + 2047) / 2048;
    let mut img = Image::new(40 + file_blocks as u32);
    let root = 20u32;
    let a = 21;
    let b = 22;
    let c = 23;  // 4 blocks: 23..27
    let gpl = 28;
    img.write_at(16, &descriptor(1, false, 40 + file_blocks as u32, &record(root, 2048, 2, &[0], &[])));
    img.write_at(17, &terminator());
    img.write_at(
        root,
        &dir_extent(&[
            dot(root, 2048, &[]),
            dotdot(root, 2048),
            record(a, 2048, 2, b"A", &[]),
            record(gpl, content.len() as u32, 0, b"GPL_3_0.TXT;1", &[]),
        ]),
    );
    img.write_at(
        a,
        &dir_extent(&[dot(a, 2048, &[]), dotdot(root, 2048), record(b, 2048, 2, b"B", &[])]),
    );
    img.write_at(
        b,
        &dir_extent(&[dot(b, 2048, &[]), dotdot(a, 2048), record(c, 2048 * 4, 2, b"C", &[])]),
    );
    let mut c_records = vec![dot(c, 2048 * 4, &[]), dotdot(b, 2048)];
    for i in 1..=200u32 {
        let id = format!("{};1", i);
        c_records.push(record(0, 0, 0, id.as_bytes(), &[]));
    }
    let c_extent = dir_extent(&c_records);
    assert_eq!(c_extent.len(), 2048 * 4);
    img.write_at(c, &c_extent);
    img.write_at(gpl, &content);
    img.bytes
}

fn collect_filenames(fs: &mut ISO9660<MemoryReader>, dir: &ISODirectory) -> Vec<String> {
    let mut it = dir.contents();
    let mut names = Vec::new();
    while let Some(entry) = fs.next_entry(&mut it) {
        names.push(entry.unwrap().identifier().to_string());
    }
    names
}

fn read_to_end(fs: &mut ISO9660<MemoryReader>, file: &cdfs::ISOFile) -> Vec<u8> {
    let mut rdr = file.read();
    let mut out = Vec::new();
    loop {
        let mut buf = vec![0u8; 999];
        let n = fs.read_file(&mut rdr, &mut buf).unwrap();
        if n == 0 {
            break;
        }
        out.extend_from_slice(&buf[..n]);
    }
    out
}

#[test]
fn test_dir() {
    let mut fs = ISO9660::new(MemoryReader::new(plain_image())).unwrap();
    let root = fs.root();
    let filenames = collect_filenames(&mut fs, &root);
    assert_eq!(filenames, &[".", "..", "A", "GPL_3_0.TXT"]);
}

#[test]
fn test_large_file() {
    let mut fs = ISO9660::new(MemoryReader::new(plain_image())).unwrap();
    let file = match fs.open("gpl_3_0.txt").unwrap().unwrap() {
        DirectoryEntry::File(file) => file,
        _ => panic!("Not a file"),
    };
    let expected = gpl_text();
    assert_eq!(file.size() as usize, expected.len());
    let text = read_to_end(&mut fs, &file);
    assert_eq!(text.len(), expected.len());
    assert_eq!(format!("{:x}", md5::compute(&text)), format!("{:x}", md5::compute(&expected)));
}

#[test]
fn test_seek_round_trip() {
    let mut fs = ISO9660::new(MemoryReader::new(plain_image())).unwrap();
    let file = match fs.open("GPL_3_0.TXT").unwrap().unwrap() {
        DirectoryEntry::File(file) => file,
        _ => panic!("Not a file"),
    };
    let full = read_to_end(&mut fs, &file);
    let mut rdr = file.read();
    let k = 5000u64;
    assert_eq!(rdr.seek(SeekFrom::Start(k)).unwrap(), k);
    let mut buf = vec![0u8; 100];
    let n = fs.read_file(&mut rdr, &mut buf).unwrap();
    assert_eq!(n, 100);
    assert_eq!(&buf[..], &full[5000..5100]);
    // relative and end-anchored seeks land where they should
    assert_eq!(rdr.seek(SeekFrom::Current(-100)).unwrap(), k);
    assert_eq!(rdr.seek(SeekFrom::End(-1)).unwrap(), full.len() as u64 - 1);
    // reading past the end yields zero bytes
    let mut rdr2 = file.read();
    rdr2.seek(SeekFrom::Start(full.len() as u64 + 10)).unwrap();
    let mut buf2 = vec![0u8; 10];
    assert_eq!(fs.read_file(&mut rdr2, &mut buf2).unwrap(), 0);
    // a negative target is rejected
    assert!(rdr2.seek(SeekFrom::Start(0)).is_ok());
    assert!(rdr2.seek(SeekFrom::Current(-1)).is_err());
}

#[test]
fn test_extra_slashes() {
    let mut fs = ISO9660::new(MemoryReader::new(plain_image())).unwrap();
    assert!(fs.open("///a/b/c/1").unwrap().is_some());
    assert!(fs.open("a/b/c/1///").unwrap().is_some());
    assert!(fs.open("a/b//c/1").unwrap().is_some());
    assert!(fs.open("/a/b//c////1/").unwrap().is_some());
}

#[test]
fn test_open_leading_slash_agrees() {
    let mut fs = ISO9660::new(MemoryReader::new(plain_image())).unwrap();
    let with = fs.open("/a/b/c/42").unwrap();
    let without = fs.open("a/b/c/42").unwrap();
    assert_eq!(with.is_some(), without.is_some());
    assert!(with.is_some());
    assert!(fs.open("a/b/c/777").unwrap().is_none());
}

#[test]
fn test_large_dir() {
    let mut fs = ISO9660::new(MemoryReader::new(plain_image())).unwrap();
    let dir = match fs.open("a/b/c").unwrap().unwrap() {
        DirectoryEntry::Directory(dir) => dir,
        _ => panic!("Not a directory"),
    };
    assert_eq!(collect_filenames(&mut fs, &dir).len(), 202);
    assert_eq!(dir.block_count(), 4);
}

#[test]
fn test_metadata_accessors() {
    let mut fs = ISO9660::new(MemoryReader::new(plain_image())).unwrap();
    assert_eq!(fs.block_size(), 2048);
    assert_eq!(fs.volume_set_identifier(), "");
    assert_eq!(fs.publisher_identifier(), "");
    let entry = fs.open("GPL_3_0.TXT").unwrap().unwrap();
    // no Rock Ridge metadata: POSIX accessors are empty, times fall back on
    // the recording time
    assert_eq!(entry.owner(), None);
    assert_eq!(entry.group(), None);
    assert!(entry.mode().is_none());
    assert_eq!(entry.inode(), None);
    assert!(!entry.relocated());
    let t = entry.time();
    assert_eq!(t.year, 1970);
    assert_eq!(entry.modify_time(), t);
    assert_eq!(entry.access_time(), t);
}

/// A Joliet image: the primary hierarchy has short names, the supplementary
/// one long UCS-2 names.
fn joliet_image() -> Vec<u8> {
    let mut img = Image::new(24);
    let proot = 20u32;
    let jroot = 21u32;
    img.write_at(16, &descriptor(1, false, 24, &record(proot, 2048, 2, &[0], &[])));
    img.write_at(17, &descriptor(2, true, 24, &record(jroot, 2048, 2, &[0], &[])));
    img.write_at(18, &terminator());
    img.write_at(
        proot,
        &dir_extent(&[
            dot(proot, 2048, &[]),
            dotdot(proot, 2048),
            record(0, 0, 0, b"README.TXT;1", &[]),
            record(0, 0, 0, b"READ_ME_.TXT;1", &[]),
        ]),
    );
    img.write_at(
        jroot,
        &dir_extent(&[
            dot(jroot, 2048, &[]),
            dotdot(jroot, 2048),
            record(0, 0, 0, &ucs2("Read Me First, Please.txt;1"), &[]),
            record(0, 0, 0, &ucs2("readme.txt;1"), &[]),
        ]),
    );
    img.bytes
}

#[test]
fn joliet_long_filenames_exist() {
    let mut fs = ISO9660::new(MemoryReader::new(joliet_image())).unwrap();
    let root = fs.root();
    let contents = collect_filenames(&mut fs, &root);
    assert_eq!(contents, &[".", "..", "Read Me First, Please.txt", "readme.txt"]);
}

#[test]
fn joliet_short_filenames_exist() {
    let mut fs = ISO9660::new(MemoryReader::new(joliet_image())).unwrap();
    let root = fs.root_at(0).unwrap().clone();
    let contents = collect_filenames(&mut fs, &root);
    assert_eq!(contents, &[".", "..", "README.TXT", "READ_ME_.TXT"]);
    assert!(!fs.is_rr());
}

/// A Rock Ridge image: long names over `NM` chains and a continuation
/// area, symbolic links, a relocated directory, and a child-link stub.
fn rockridge_image() -> Vec<u8> {
    let mut img = Image::new(30);
    let root = 20u32;
    let relocated = 25u32;
    let cont = 26u32;
    let moved = 27u32;
    img.write_at(16, &descriptor(1, false, 30, &record(root, 2048, 2, &[0], &[])));
    img.write_at(17, &terminator());
    let mut dot_sua = sp_entry();
    dot_sua.extend(er_rrip());
    let mut long_sua = nm(1, "Really really ");
    long_sua.extend(ce(cont, 8, 32));
    let mut readme_sua = nm(0, "readme.txt");
    readme_sua.extend(tf_modify([101, 2, 3, 4, 5, 6, 0]));
    let mut symlink_sua = nm(0, "this_is_a_symlink");
    symlink_sua.extend(px(0o120777));
    symlink_sua.extend(sl(1, &[(0, "a"), (0, "b")]));
    symlink_sua.extend(sl(0, &[(0, "c")]));
    let mut abslnk_sua = nm(0, "this_is_an_absolute_symlink");
    abslnk_sua.extend(px(0o120777));
    abslnk_sua.extend(sl(0, &[(0x08, ""), (0, "tmp")]));
    img.write_at(
        root,
        &dir_extent(&[
            dot(root, 2048, &dot_sua),
            dotdot(root, 2048),
            record(0, 0, 0, b"1;1", &cl_entry(relocated)),
            record(0, 0, 0, b"README.TXT;1", &readme_sua),
            record(0, 0, 0, b"READ_ME_.TXT;1", &nm(0, "Read Me First, Please.txt")),
            record(0, 0, 0, b"LONG.TXT;1", &long_sua),
            record(moved, 2048, 2, b"RR_MOVED", &nm(0, "rr_moved")),
            record(0, 0, 0, b"SYMLINK.;1", &symlink_sua),
            record(0, 0, 0, b"ABSLNK.;1", &abslnk_sua),
        ]),
    );
    let mut cont_block = vec![0u8; 8];
    cont_block.extend(nm(1, "really really "));
    cont_block.extend(nm(0, "long.txt"));
    assert_eq!(cont_block.len(), 8 + 32);
    img.write_at(cont, &cont_block);
    img.write_at(relocated, &dir_extent(&[dot(relocated, 2048, &[]), dotdot(moved, 2048)]));
    img.write_at(
        moved,
        &dir_extent(&[
            dot(moved, 2048, &[]),
            dotdot(root, 2048),
            record(relocated, 2048, 2, b"DEEP", &re_entry()),
            // an associated-file record precedes its companion file
            record(0, 0, 4, b"DUP.TXT;1", &[]),
            record(0, 0, 0, b"DUP.TXT;1", &[]),
        ]),
    );
    img.bytes
}

#[test]
fn associated_files_skipped_by_name_resolution() {
    let mut fs = ISO9660::new(MemoryReader::new(rockridge_image())).unwrap();
    // name resolution never yields the associated-file record
    let entry = fs.open("rr_moved/dup.txt").unwrap().unwrap();
    assert!(!entry.header().file_flags.associated_file());
    // plain iteration surfaces both records
    let dir = match fs.open("rr_moved").unwrap().unwrap() {
        DirectoryEntry::Directory(d) => d,
        _ => panic!("not a directory"),
    };
    let names = collect_filenames(&mut fs, &dir);
    assert_eq!(names, &[".", "..", "DEEP", "DUP.TXT", "DUP.TXT"]);
}

#[test]
fn rockridge_default_vd() {
    let mut fs = ISO9660::new(MemoryReader::new(rockridge_image())).unwrap();
    let root = fs.root();
    let contents = collect_filenames(&mut fs, &root);
    assert_eq!(
        contents,
        &[
            ".",
            "..",
            "1",
            "readme.txt",
            "Read Me First, Please.txt",
            "Really really really really long.txt",
            "rr_moved",
            "this_is_a_symlink",
            "this_is_an_absolute_symlink",
        ]
    );
}

#[test]
fn rockridge_primary_vd() {
    let mut fs = ISO9660::new(MemoryReader::new(rockridge_image())).unwrap();
    let root = fs.root_at(0).unwrap().clone();
    let contents = collect_filenames(&mut fs, &root);
    assert_eq!(
        contents,
        &[
            ".",
            "..",
            "1",
            "readme.txt",
            "Read Me First, Please.txt",
            "Really really really really long.txt",
            "rr_moved",
            "this_is_a_symlink",
            "this_is_an_absolute_symlink",
        ]
    );
    assert!(fs.is_rr());
}

#[test]
fn rockridge_symlink_targets() {
    let mut fs = ISO9660::new(MemoryReader::new(rockridge_image())).unwrap();
    match fs.open("this_is_a_symlink").unwrap().unwrap() {
        DirectoryEntry::Symlink(link) => {
            assert_eq!(link.target().unwrap(), "a/b/c");
        },
        _ => panic!("not a symlink"),
    }
    match fs.open("this_is_an_absolute_symlink").unwrap().unwrap() {
        DirectoryEntry::Symlink(link) => {
            assert_eq!(link.target().unwrap(), "/tmp");
        },
        _ => panic!("not a symlink"),
    }
}

#[test]
fn rockridge_child_link_becomes_directory() {
    let mut fs = ISO9660::new(MemoryReader::new(rockridge_image())).unwrap();
    match fs.open("1").unwrap().unwrap() {
        DirectoryEntry::Directory(dir) => {
            assert_eq!(dir.header.extent_loc, 25);
            assert_eq!(dir.header.extent_length, 2048);
        },
        _ => panic!("child-link stub did not become a directory"),
    }
}

#[test]
fn rockridge_relocated_flag() {
    let mut fs = ISO9660::new(MemoryReader::new(rockridge_image())).unwrap();
    let entry = fs.open("rr_moved/deep").unwrap().unwrap();
    assert!(entry.relocated());
    let root_entry = fs.open("rr_moved").unwrap().unwrap();
    assert!(!root_entry.relocated());
}

#[test]
fn rockridge_timestamps() {
    let mut fs = ISO9660::new(MemoryReader::new(rockridge_image())).unwrap();
    let entry = fs.open("readme.txt").unwrap().unwrap();
    let m = entry.modify_time();
    assert_eq!(m.year, 2001);
    assert_eq!(m.month, 2);
    assert_eq!(m.day, 3);
    assert_eq!(m.hour, 4);
    assert_eq!(m.minute, 5);
    assert_eq!(m.second, 6);
    // the recording time still backs the unset kinds
    assert_eq!(entry.create_time().year, 1970);
}

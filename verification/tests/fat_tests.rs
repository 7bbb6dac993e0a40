use venix::fs::fat::fat1216::{
    cluster_chain, dirent_kind, file_block_list, parse_allocation_table, parse_extended_boot_record,
    read_dirent, root_block_list, allocation_table_location, is_fat16_volume, Fat16Fs, FatFileHandle,
    LookupStep, SeekFrom, VNodeKind,
};
use venix::fs::fat::{detect_fat_fs, div_ceil_u16, parse_boot_record, FatFsType};
use venix::sys::syscall::CanonicalError;
use venix::text::{decode_utf16, trim_chars};

fn put16(b: &mut [u8], o: usize, v: u16) {
    b[o..o + 2].copy_from_slice(&v.to_le_bytes());
}

fn put32(b: &mut [u8], o: usize, v: u32) {
    b[o..o + 4].copy_from_slice(&v.to_le_bytes());
}

fn boot_sector() -> Vec<u8> {
    let mut b = vec![0u8; 512];
    b[0..3].copy_from_slice(&[0xEB, 0x3C, 0x90]);
    b[3..11].copy_from_slice(b"MSDOS5.0");
    put16(&mut b, 11, 512);
    b[13] = 4;
    put16(&mut b, 14, 4);
    b[16] = 2;
    put16(&mut b, 17, 512);
    put16(&mut b, 19, 0);
    b[21] = 0xF8;
    put16(&mut b, 22, 64);
    put16(&mut b, 24, 32);
    put16(&mut b, 26, 64);
    put32(&mut b, 28, 0);
    put32(&mut b, 32, 65536);
    b[36] = 0x80;
    b[38] = 0x29;
    put32(&mut b, 39, 0x1234_5678);
    b[43..54].copy_from_slice(b"NO NAME    ");
    b[54..62].copy_from_slice(b"FAT16   ");
    put16(&mut b, 510, 0xAA55);
    b
}

fn fat_bytes() -> Vec<u8> {
    let mut b = vec![0u8; 64 * 512];
    for (i, v) in [0xFFF8u16, 0xFFFF, 3, 4, 0xFFFF].iter().enumerate() {
        put16(&mut b, 2 * i, *v);
    }
    b
}

fn short_entry(b: &mut [u8], index: usize, name: &[u8; 11], attributes: u8, cluster: u16, size: u32) {
    let o = index * 32;
    b[o..o + 11].copy_from_slice(name);
    b[o + 11] = attributes;
    put16(b, o + 26, cluster);
    put32(b, o + 28, size);
}

fn root_directory() -> Vec<u8> {
    let mut d = vec![0u8; 512 * 32];
    short_entry(&mut d, 0, b"VENIX      ", 0x08, 0, 0);
    // a long name entry carrying "hello.txt"
    let o = 32;
    d[o] = 0x41;
    d[o + 11] = 0x0F;
    for (k, c) in "hello".encode_utf16().enumerate() {
        put16(&mut d, o + 1 + 2 * k, c);
    }
    let piece2: [u16; 6] = [b'.' as u16, b't' as u16, b'x' as u16, b't' as u16, 0x0000, 0xFFFF];
    for (k, c) in piece2.iter().enumerate() {
        put16(&mut d, o + 14 + 2 * k, *c);
    }
    put16(&mut d, o + 28, 0xFFFF);
    put16(&mut d, o + 30, 0xFFFF);
    short_entry(&mut d, 2, b"HELLO   TXT", 0x20, 2, 5000);
    short_entry(&mut d, 3, b"README     ", 0x10, 5, 0);
    d[4 * 32] = 0xE5;
    d
}

fn volume() -> Fat16Fs {
    let sector = boot_sector();
    let br = parse_boot_record(&sector);
    let ebr = parse_extended_boot_record(&sector);
    let fat = parse_allocation_table(&br, &fat_bytes());
    Fat16Fs::new(0, br, ebr, fat).expect("a FAT16 volume")
}

#[test]
fn boot_records_and_variant() {
    let sector = boot_sector();
    let br = parse_boot_record(&sector);
    assert_eq!(br.bytes_per_sector, 512);
    assert_eq!(br.root_directory_entries, 512);
    assert_eq!(br.large_sector_count, 65536);
    assert_eq!(detect_fat_fs(br), FatFsType::Fat16);
    let ebr = parse_extended_boot_record(&sector);
    assert_eq!(ebr.signature, 0x29);
    assert_eq!(ebr.volume_id, 0x1234_5678);
    assert_eq!(ebr.boot_signature, 0xAA55);
    assert!(is_fat16_volume(&br, &ebr));
    let mut small = br;
    small.large_sector_count = 4000;
    assert_eq!(detect_fat_fs(small), FatFsType::Fat12);
    let mut no_size = br;
    no_size.bytes_per_sector = 0;
    assert_eq!(detect_fat_fs(no_size), FatFsType::ExFat);
    let mut big_fat = br;
    big_fat.sectors_per_fat = 0;
    assert_eq!(detect_fat_fs(big_fat), FatFsType::Fat32);
    assert_eq!(div_ceil_u16(16384, 512), 32);
    assert_eq!(div_ceil_u16(16385, 512), 33);
}

#[test]
fn a_volume_without_signature_is_not_fat16() {
    let mut sector = boot_sector();
    sector[38] = 0x00;
    let br = parse_boot_record(&sector);
    let ebr = parse_extended_boot_record(&sector);
    assert!(!is_fat16_volume(&br, &ebr));
    assert!(Fat16Fs::new(0, br, ebr, Vec::new()).is_none());
}

#[test]
fn geometry_of_the_volume() {
    let fs = volume();
    assert_eq!(allocation_table_location(&fs.boot_record), (4, 64));
    assert_eq!(fs.root_location(), (132, 32));
    assert_eq!(root_block_list(132, 3), vec![132, 133, 134]);
    assert_eq!(fs.fat.len(), 16384);
}

#[test]
fn cluster_chains_become_blocks() {
    let fs = volume();
    assert_eq!(cluster_chain(&fs.fat, 2), vec![2, 3, 4]);
    assert_eq!(cluster_chain(&fs.fat, 4), vec![4]);
    assert_eq!(file_block_list(&fs, 2), (164..176).collect::<Vec<u64>>());
    assert_eq!(file_block_list(&fs, 4), vec![172, 173, 174, 175]);
}

#[test]
fn file_names_in_the_root_directory() {
    let fs = volume();
    let d = root_directory();
    let (n, c) = fs.get_filename(&d, 0);
    assert_eq!((n, c), (None, 0));
    let (n, c) = fs.get_filename(&d, 1);
    assert_eq!(n, Some("hello.txt".chars().collect::<Vec<char>>()));
    assert_eq!(c, 1);
    let (n, c) = fs.get_filename(&d, 3);
    assert_eq!(n, Some("README".chars().collect::<Vec<char>>()));
    assert_eq!(c, 0);
    assert_eq!(fs.get_filename(&d, 4), (None, 0));
    assert_eq!(fs.get_filename(&d, 5), (None, 0));
}

#[test]
fn looking_names_up() {
    let fs = volume();
    let d = root_directory();
    let name: Vec<char> = "hello.txt".chars().collect();
    let upper: Vec<char> = "HELLO.TXT".chars().collect();
    assert!(matches!(fs.lookup_step(&d, &name, &upper, 0), LookupStep::Continue(1)));
    match fs.lookup_step(&d, &name, &upper, 1) {
        LookupStep::Found(e) => {
            assert_eq!(e.cluster_low, 2);
            assert_eq!(e.file_size, 5000);
            assert_eq!(dirent_kind(&e), VNodeKind::Regular);
        },
        _ => panic!("hello.txt not found"),
    }
    let readme: Vec<char> = "readme".chars().collect();
    let readme_upper: Vec<char> = "README".chars().collect();
    match fs.lookup_step(&d, &readme, &readme_upper, 3) {
        LookupStep::Found(e) => assert_eq!(dirent_kind(&e), VNodeKind::Directory),
        _ => panic!("README not found"),
    }
    let nope: Vec<char> = "nope".chars().collect();
    let nope_upper: Vec<char> = "NOPE".chars().collect();
    assert!(matches!(fs.lookup_step(&d, &nope, &nope_upper, 1), LookupStep::Continue(3)));
    assert!(matches!(fs.lookup_step(&d, &nope, &nope_upper, 3), LookupStep::Continue(4)));
    assert!(matches!(fs.lookup_step(&d, &nope, &nope_upper, 4), LookupStep::Continue(5)));
    assert!(matches!(fs.lookup_step(&d, &nope, &nope_upper, 5), LookupStep::Missing));
}

#[test]
fn directory_entries_past_the_end() {
    let d = root_directory();
    assert!(matches!(read_dirent(&d, 512), Err(CanonicalError::Inval)));
    let e = read_dirent(&d, 2).unwrap();
    assert_eq!(&e.file_name, b"HELLO   TXT");
}

#[test]
fn reading_and_seeking_a_file() {
    let blocks: Vec<u64> = (164..176).collect();
    let mut f = FatFileHandle::new(5000, blocks, 0, 512);
    let plan = f.plan_read(1000).unwrap();
    assert_eq!(plan.blocks, vec![164, 165]);
    assert_eq!(plan.offset_in_first, 0);
    assert_eq!(plan.wanted, 1000);
    let data: Vec<u8> = (0..1024u32).map(|i| (i % 256) as u8).collect();
    let out = f.finish_read(&data, &plan);
    assert_eq!(out, data[0..1000].to_vec());
    assert_eq!(f.current_offset, 1000);
    let plan = f.plan_read(100).unwrap();
    assert_eq!(plan.blocks, vec![165, 166]);
    assert_eq!(plan.offset_in_first, 1000 % 512);
    assert_eq!(f.seek(SeekFrom::End(-8)), Ok(4992));
    assert_eq!(f.plan_read(100).unwrap().wanted, 8);
    assert_eq!(f.seek(SeekFrom::Start(5000)), Ok(5000));
    assert!(f.plan_read(100).is_none());
    assert_eq!(f.seek(SeekFrom::Current(-4000)), Ok(1000));
    assert_eq!(f.poll(0x07), 0x03);
    assert_eq!(f.write(&vec![1]), Err(CanonicalError::Badf));
    assert_eq!(f.ioctl(0x5401, 0), Err(CanonicalError::Inval));
}

#[test]
fn whole_lookups_in_the_root_directory() {
    let fs = volume();
    let d = root_directory();
    let name: Vec<char> = "hello.txt".chars().collect();
    let upper: Vec<char> = "HELLO.TXT".chars().collect();
    match fs.lookup(&d, &name, &upper) {
        Some(Ok(e)) => assert_eq!((e.cluster_low, e.file_size), (2, 5000)),
        _ => panic!("hello.txt not found"),
    }
    let readme: Vec<char> = "readme".chars().collect();
    let readme_upper: Vec<char> = "README".chars().collect();
    match fs.lookup(&d, &readme, &readme_upper) {
        Some(Ok(e)) => assert_eq!(dirent_kind(&e), VNodeKind::Directory),
        _ => panic!("README not found"),
    }
    let nope: Vec<char> = "nope".chars().collect();
    let nope_upper: Vec<char> = "NOPE".chars().collect();
    assert!(matches!(fs.lookup(&d, &nope, &nope_upper), Some(Err(CanonicalError::NoEnt))));
}

#[test]
fn long_names_that_do_not_decode() {
    let fs = volume();
    let mut d = root_directory();
    // an unpaired surrogate in the long name
    put16(&mut d, 32 + 1, 0xD800);
    assert!(fs.scan_filename(&d, 1).is_none());
    assert_eq!(fs.scan_filename(&d, 3), Some((Some("README".chars().collect::<Vec<char>>()), 0)));
    let name: Vec<char> = "hello.txt".chars().collect();
    let upper: Vec<char> = "HELLO.TXT".chars().collect();
    assert!(fs.try_lookup_step(&d, &name, &upper, 1).is_none());
    assert!(matches!(fs.try_lookup_step(&d, &name, &upper, 0), Some(LookupStep::Continue(1))));
    assert!(fs.lookup(&d, &name, &upper).is_none());
}

#[test]
fn utf16_names_decode_like_std() {
    assert_eq!(decode_utf16(&vec![0x61, 0xD83D, 0xDE00, 0x62]), Some(vec!['a', '\u{1F600}', 'b']));
    assert_eq!(decode_utf16(&vec![0x61, 0xDE00]), None);
    assert_eq!(decode_utf16(&vec![0xD83D]), None);
    assert_eq!(decode_utf16(&vec![0xD83D, 0x41]), None);
    for units in [vec![0x48u16, 0x49], vec![0xFFFF, 0xE000], vec![0xDBFF, 0xDFFF]] {
        let ours: Option<String> = decode_utf16(&units).map(|v| v.into_iter().collect());
        assert_eq!(ours, String::from_utf16(&units).ok());
    }
    let padded: Vec<char> = " \u{3000}DISK\t \u{A0}".chars().collect();
    assert_eq!(trim_chars(&padded), vec!['D', 'I', 'S', 'K']);
    assert_eq!(trim_chars(&vec![' ', '\n']), Vec::<char>::new());
    assert_eq!(trim_chars(&vec!['x']), vec!['x']);
}

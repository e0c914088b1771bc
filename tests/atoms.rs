use mp4iter::{
    headers::{bytes2iso8859_1, derive_language_code},
    AtomHeader, ByteStream, DateTime, Endian, FourCC, Hdlr, Mdhd, Mp4Error, Mvhd, ReadOption, SeekFrom, Tkhd, Udta,
};

fn be32(v: u32) -> Vec<u8> {
    v.to_be_bytes().to_vec()
}

fn atom(name: &[u8; 4], payload: &[u8]) -> Vec<u8> {
    let mut v = be32(8 + payload.len() as u32);
    v.extend_from_slice(name);
    v.extend_from_slice(payload);
    v
}

/// moov { mvhd, trak { tkhd, mdia } } followed by a free atom.
fn tree() -> Vec<u8> {
    let trak = atom(b"trak", &[atom(b"tkhd", &[0; 4]), atom(b"mdia", &[])].concat());
    [atom(b"moov", &[atom(b"mvhd", &[1, 2, 3]), trak].concat()), atom(b"free", &[9; 5])].concat()
}

#[test]
fn fourcc_known_and_custom() {
    assert_eq!(FourCC::from_bytes(*b"moov"), FourCC::Moov);
    assert_eq!(FourCC::from_slice(b"co64"), FourCC::Co64);
    assert_eq!(FourCC::from_u32(0x73747363), FourCC::Stsc);
    let custom = FourCC::from_bytes([0xA9, b'x', b'y', b'z']);
    assert_eq!(custom, FourCC::Custom([0xA9, b'x', b'y', b'z']));
    assert_eq!(custom.to_str(), "\u{a9}xyz");
    assert_eq!(custom.to_bytes(), [0xA9, b'x', b'y', b'z']);
    assert_eq!(FourCC::Trak.to_str(), "trak");
    assert_eq!(FourCC::Stco.to_u32(), 0x7374636f);
    assert_eq!(FourCC::from_str("stco"), Some(FourCC::Stco));
    assert_eq!(FourCC::from_str("\u{a9}xyz"), Some(custom));
    assert_eq!(FourCC::from_str("toolong"), None);
    assert_eq!(FourCC::from_str("ab\u{263a}d"), None);
    assert!(FourCC::Udta.is_container());
    assert!(!FourCC::Mdat.is_container());
    assert_eq!(FourCC::Custom(*b"moov"), FourCC::Moov);
}

#[test]
fn header_32_bit() {
    let h = AtomHeader::parse(atom(b"free", &[0; 4]), 40).unwrap();
    assert_eq!(h.name, FourCC::Free);
    assert_eq!(h.atom_size(), 12);
    assert_eq!(h.header_size(), 8);
    assert_eq!(h.data_offset(), 48);
    assert_eq!(h.data_size(), 4);
    assert_eq!(h.offset_next_rel(), 4);
    assert_eq!(h.offset_next_abs(), 52);
    assert_eq!(h.bounds(), (40, 52));
    assert!(h.contains(40) && h.contains(51) && !h.contains(52));
    assert!(h.in_bounds((41, 50)));
    let c = AtomHeader::parse(atom(b"trak", &[0; 4]), 0).unwrap();
    assert!(c.is_container());
    assert_eq!(c.offset_next_rel(), 0);
}

#[test]
fn header_64_bit_size() {
    let mut b = be32(1);
    b.extend_from_slice(b"mdat");
    b.extend(0x1_0000_0000u64.to_be_bytes());
    let h = AtomHeader::parse(b, 0).unwrap();
    assert_eq!(h.header_size(), 16);
    assert!(h.size_64bit);
    assert_eq!(h.atom_size(), 0x1_0000_0000);
    assert_eq!(h.data_offset(), 16);
    assert_eq!(h.offset_next_abs(), 0x1_0000_0000);
    assert_eq!(h.offset_next_rel(), 0x1_0000_0000 - 16);
}

#[test]
fn header_zero_and_small_sizes() {
    let mut b = be32(0);
    b.extend_from_slice(b"free");
    assert_eq!(AtomHeader::parse(b, 7), Err(Mp4Error::ZeroSizeAtom { name: FourCC::Free, offset: 7 }));
    let mut b = be32(5);
    b.extend_from_slice(b"free");
    assert_eq!(AtomHeader::parse(b, 0), Err(Mp4Error::UnexpectedAtomSize { len: 5, offset: 0 }));
    assert!(matches!(AtomHeader::parse(vec![0, 0, 0], 0), Err(Mp4Error::ReadMismatch { .. })));
}

#[test]
fn walk_descends_containers() {
    let mut s = ByteStream::new(tree(), 0);
    let hs = s.headers().unwrap();
    let names: Vec<FourCC> = hs.iter().map(|h| h.name).collect();
    assert_eq!(names, vec![FourCC::Moov, FourCC::Mvhd, FourCC::Trak, FourCC::Tkhd, FourCC::Mdia, FourCC::Free]);
    let offsets: Vec<u64> = hs.iter().map(|h| h.offset).collect();
    assert_eq!(offsets, vec![0, 8, 19, 27, 39, 47]);
    s.reset();
    let again = s.headers().unwrap();
    assert_eq!(hs, again);
}

#[test]
fn find_header_and_sentinel() {
    let mut s = ByteStream::new(tree(), 0);
    let h = s.find_header(FourCC::Tkhd, true).unwrap().unwrap();
    assert_eq!(h.offset, 27);
    assert_eq!(s.pos(), 35);
    assert!(matches!(s.find_header(FourCC::Tkhd, false), Err(Mp4Error::ZeroSizeAtom { .. })));
    s.seek(SeekFrom::Start(h.offset_next_abs())).unwrap();
    assert_eq!(s.find_header(FourCC::Tkhd, false).unwrap(), None);
    assert_eq!(s.find_header_until(FourCC::Tkhd, Some(FourCC::Trak), true).unwrap(), None);
    assert_eq!(s.find_header(FourCC::Stco, true).unwrap(), None);
    let n = s.next_header(true);
    assert!(n.is_err());
}

#[test]
fn closest_atom_to_a_position() {
    let mut s = ByteStream::new(tree(), 0);
    assert_eq!(s.header_closest(Some(30), false).unwrap().name, FourCC::Tkhd);
    assert_eq!(s.header_closest(Some(39), false).unwrap().name, FourCC::Mdia);
    assert_eq!(s.header_closest(Some(20), false).unwrap().name, FourCC::Trak);
    assert_eq!(s.header_closest(Some(48), false).unwrap().name, FourCC::Free);
    assert_eq!(s.header_closest(Some(500), false), Err(Mp4Error::EndOfFile));
}

#[test]
fn stream_reads_and_seeks() {
    let mut s = ByteStream::new(vec![1, 2, 3, 4, 5, 6, 7, 8, 0, 9, 10, 2, 0xAA, 0xBB], 100);
    assert_eq!(s.read_u16().unwrap(), 0x0102);
    assert_eq!(s.read_u32().unwrap(), 0x03040506);
    assert_eq!(s.pos(), 106);
    assert_eq!(s.read_bytes(ReadOption::Until(0)).unwrap(), vec![7, 8, 0]);
    assert_eq!(s.read_bytes(ReadOption::Sized(2)).unwrap(), vec![9, 10]);
    assert_eq!(s.read_bytes(ReadOption::Counted).unwrap(), vec![0xAA, 0xBB]);
    assert!(matches!(s.read_u8(), Err(Mp4Error::ReadMismatch { .. })));
    assert_eq!(s.seek(SeekFrom::Start(100)).unwrap(), 100);
    assert_eq!(s.read_u64().unwrap(), 0x0102030405060708);
    assert_eq!(s.seek(SeekFrom::Current(-2)).unwrap(), 106);
    assert_eq!(s.seek(SeekFrom::End(-1)).unwrap(), 113);
    assert_eq!(s.seek(SeekFrom::Start(50)), Err(Mp4Error::BoundsError(50, 100, 114)));
    assert_eq!(s.seek(SeekFrom::Current(-200)), Err(Mp4Error::NumericOverflow));
    assert_eq!(s.bounds_check(Some((100, 112))), Err(Mp4Error::BoundsError(113, 100, 112)));
    assert_eq!(s.bounds_check(Some((100, 113))), Ok(()));
    assert_eq!(s.remaining_in(None), 1);
    assert_eq!(s.read_iso8859_1(ReadOption::Sized(1)).unwrap(), "\u{bb}");
}

#[test]
fn language_codes() {
    assert_eq!(derive_language_code(0x55C4), "und");
    assert_eq!(derive_language_code(0x15C7), "eng");
}

#[test]
fn handler_name_counted_or_not() {
    let raw = [0x47, 0x6F, 0x50, 0x72, 0x6F, 0x20, 0x4D, 0x45, 0x54];
    assert_eq!(bytes2iso8859_1(&raw).unwrap(), "GoPro MET");
    let mut counted = vec![9u8];
    counted.extend_from_slice(&raw);
    counted.push(0);
    assert_eq!(bytes2iso8859_1(&counted).unwrap(), "GoPro MET");
    assert_eq!(bytes2iso8859_1(b" \0Sound Handler\0 ").unwrap(), "Sound Handler");
    assert_eq!(bytes2iso8859_1(&[]), Err(Mp4Error::MissingHandlerName));
    let mut p = vec![0u8; 4];
    p.extend_from_slice(b"mhlr");
    p.extend_from_slice(b"meta");
    p.extend(vec![0u8; 12]);
    assert_eq!(Hdlr::parse(&p).unwrap_err(), Mp4Error::MissingHandlerName);
    p.extend_from_slice(&raw);
    let h = Hdlr::parse(&p).unwrap();
    assert_eq!(h.component_name(), "GoPro MET");
    assert_eq!(h.component_sub_type(), "meta");
    assert_eq!(h.component_manufacturer(), 0);
}

#[test]
fn fixed_headers_decode() {
    let mut p = vec![0u8; 4];
    for v in [1u32, 2, 90000, 180000] {
        p.extend(be32(v));
    }
    p.extend([0x15, 0xC7, 0, 7]);
    let m = Mdhd::parse(&p).unwrap();
    assert_eq!((m.time_scale(), m.duration_unscaled(), m.quality()), (90000, 180000, 7));
    assert_eq!(m.language(), "eng");
    assert!(matches!(Mdhd::parse(&p[..23]), Err(Mp4Error::ReadMismatch { got: 23, expected: 24 })));
    let mut t = vec![0u8; 84];
    t[12..16].copy_from_slice(&be32(4));
    t[76..80].copy_from_slice(&be32(1280 << 16));
    t[80..84].copy_from_slice(&be32((720 << 16) + 0x8000));
    let tk = Tkhd::parse(&t).unwrap();
    assert_eq!((tk.track_id(), tk.width(), tk.height()), (4, 1280, 720));
    let mut v = vec![0u8; 100];
    v[12..16].copy_from_slice(&be32(1000));
    v[96..100].copy_from_slice(&be32(5));
    let mv = Mvhd::parse(&v).unwrap();
    assert_eq!((mv.time_scale(), mv.next_track_id()), (1000, 5));
}

#[test]
fn user_data_fields_until_padding() {
    let mut p = atom(b"FIRM", b"H22.01");
    p.extend(atom(b"LENS", &[0xFF, 0xFE]));
    p.extend([0u8; 12]);
    let u = Udta::parse(&p);
    assert_eq!(u.iter().len(), 2);
    let firm = u.find(FourCC::from_bytes(*b"FIRM")).unwrap();
    assert_eq!(firm.len(), 6);
    assert_eq!(firm.to_string(), Some("H22.01".to_string()));
    let lens = u.find(FourCC::from_bytes(*b"LENS")).unwrap();
    assert_eq!(lens.to_string(), None);
    assert!(u.find(FourCC::Udta).is_none());
}

#[test]
fn mp4_timestamps_to_calendar() {
    let t0 = DateTime::from_mp4_seconds(0);
    assert_eq!(t0, mp4iter::mp4_time_zero());
    let t = DateTime::from_mp4_seconds(366 * 86400 + 3661);
    assert_eq!((t.year, t.month, t.day, t.hour, t.minute, t.second), (1905, 1, 1, 1, 1, 1));
    let t = DateTime::from_mp4_seconds(3_600_000_000);
    assert_eq!((t.year, t.month, t.day), (2018, 1, 28));
}

#[test]
fn reads_in_either_byte_order() {
    let mut s = ByteStream::new(vec![1, 2, 3, 4, 5, 6, 7, 8, 9, 10, 11, 12], 0);
    assert_eq!(s.read_u16_in(Endian::Little).unwrap(), 0x0201);
    assert_eq!(s.read_u16_in(Endian::Big).unwrap(), 0x0304);
    s.reset();
    assert_eq!(s.read_u32_in(Endian::Little).unwrap(), 0x04030201);
    s.reset();
    assert_eq!(s.read_u64_in(Endian::Little).unwrap(), 0x0807060504030201);
    s.reset();
    assert_eq!(s.read_many_u32(3, Endian::Big).unwrap(), vec![0x01020304, 0x05060708, 0x090a0b0c]);
    s.reset();
    assert!(matches!(s.read_many_u32(4, Endian::Little), Err(Mp4Error::ReadMismatch { .. })));
    assert_eq!(s.pos(), 0);
}

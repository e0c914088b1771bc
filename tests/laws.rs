use mp4iter::{offsets::sample_positions, track::TrackIdentifier, ByteStream, FourCC, Mdhd, Mp4, Stco, Stsc, Stsz, Stts};

fn be32(v: u32) -> Vec<u8> {
    v.to_be_bytes().to_vec()
}

fn atom(name: &[u8; 4], payload: &[u8]) -> Vec<u8> {
    let mut v = be32(8 + payload.len() as u32);
    v.extend_from_slice(name);
    v.extend_from_slice(payload);
    v
}

fn table(words: &[u32]) -> Vec<u8> {
    let mut p = vec![1u8, 0, 0, 2];
    for w in words {
        p.extend(be32(*w));
    }
    p
}

fn video_file() -> Vec<u8> {
    let mut tkhd = vec![0u8; 84];
    tkhd[12..16].copy_from_slice(&be32(1));
    tkhd[76..80].copy_from_slice(&be32(640 << 16));
    tkhd[80..84].copy_from_slice(&be32(360 << 16));
    let mut mdhd = vec![0u8; 24];
    mdhd[12..16].copy_from_slice(&be32(1000));
    let mut hdlr = vec![0u8; 4];
    hdlr.extend_from_slice(b"mhlrvide");
    hdlr.extend(vec![0u8; 12]);
    hdlr.extend_from_slice(b"\x05Video");
    let mut rec = be32(86);
    rec.extend_from_slice(b"avc1");
    rec.extend(vec![0u8; 8]);
    rec.extend(vec![0u8; 16]);
    rec.extend(640u16.to_be_bytes());
    rec.extend(360u16.to_be_bytes());
    rec.extend(vec![0u8; 50]);
    let mut stsd = vec![0u8; 4];
    stsd.extend(be32(1));
    stsd.extend(rec);
    let stbl = atom(
        b"stbl",
        &[
            atom(b"stsd", &stsd),
            atom(b"stts", &table(&[2, 3, 40, 1, 10])),
            atom(b"stsc", &table(&[1, 1, 2, 1])),
            atom(b"stsz", &table(&[0, 4, 5, 6, 7, 8])),
            atom(b"stco", &table(&[2, 600, 700])),
        ]
        .concat(),
    );
    let mdia = atom(b"mdia", &[atom(b"mdhd", &mdhd), atom(b"hdlr", &hdlr), atom(b"minf", &stbl)].concat());
    let moov = atom(b"moov", &atom(b"trak", &[atom(b"tkhd", &tkhd), mdia].concat()));
    let mut f = [atom(b"ftyp", b"isom\0\0\0\0"), moov].concat();
    let rest = 1000 - f.len();
    f.extend(atom(b"mdat", &vec![7u8; rest - 8]));
    f
}

#[test]
fn header_sizes_cover_headers_and_fit_the_file() {
    let f = video_file();
    let mut s = ByteStream::new(f.clone(), 0);
    for h in s.headers().unwrap() {
        assert!(h.atom_size() >= h.header_size() as u64);
        assert!(h.end() <= f.len() as u64);
    }
}

#[test]
fn container_children_fill_its_payload() {
    let f = video_file();
    let mut s = ByteStream::new(f, 0);
    let hs = s.headers().unwrap();
    for c in hs.iter().filter(|h| h.is_container()) {
        let children: u64 = hs
            .iter()
            .filter(|h| h.offset >= c.data_offset() && h.end() <= c.end())
            .filter(|h| !hs.iter().any(|p| p.is_container() && p.offset > c.offset && p.contains(h.offset) && p.offset != h.offset))
            .map(|h| h.atom_size())
            .sum();
        assert_eq!(children, c.data_size(), "{:?}", c.name);
    }
}

#[test]
fn leaf_skip_lands_on_next_atom() {
    let f = video_file();
    let mut s = ByteStream::new(f, 0);
    let hs = s.headers().unwrap();
    for w in hs.windows(2) {
        if !w[0].is_container() {
            assert_eq!(w[0].data_offset() + w[0].offset_next_rel(), w[0].end());
            assert_eq!(w[1].offset, w[0].end());
        }
    }
}

#[test]
fn sample_counts_agree() {
    let mut mp4 = Mp4::from_bytes(video_file()).unwrap();
    let mut stts = mp4.stts(true).unwrap();
    let track = mp4.track(&TrackIdentifier::Id(1), true).unwrap();
    assert_eq!(track.len(), 4);
    assert_eq!(stts.sample_sum(), 4);
    stts = mp4.stts(true).unwrap();
    assert_eq!(stts.durations().len(), track.len());
    assert_eq!(mp4.stsz(true).unwrap().expand().len(), track.len());
}

#[test]
fn relative_times_accumulate() {
    let mut mp4 = Mp4::from_bytes(video_file()).unwrap();
    let track = mp4.track(&TrackIdentifier::Id(1), true).unwrap();
    let ts = track.timestamps();
    let rel: Vec<u128> = ts.iter().map(|t| t.0.ticks).collect();
    assert_eq!(rel, vec![0, 40, 80, 120]);
    for k in 0..3 {
        assert_eq!(ts[k + 1].0.ticks, ts[k].0.ticks + ts[k].1.ticks);
    }
}

#[test]
fn positions_increase_and_lie_in_mdat() {
    let f = video_file();
    let mut mp4 = Mp4::from_bytes(f.clone()).unwrap();
    let track = mp4.track(&TrackIdentifier::Id(1), true).unwrap();
    let pos: Vec<u64> = track.offsets().iter().map(|o| o.position).collect();
    assert_eq!(pos, vec![600, 605, 700, 707]);
    let mut s = ByteStream::new(f, 0);
    let mdat = s.find_header(FourCC::Mdat, true).unwrap().unwrap();
    for w in track.offsets().windows(2) {
        assert!(w[0].position < w[1].position);
    }
    for o in track.offsets() {
        assert!(o.position >= mdat.data_offset() && o.position + o.size as u64 <= mdat.end());
    }
}

#[test]
fn chunk_order_decides_position_order() {
    let stsc = Stsc::parse(&table(&[1, 1, 1, 1])).unwrap();
    let p = sample_positions(&stsc, &[500, 100], &[10, 10]).unwrap();
    assert_eq!(p, vec![500, 100]);
}

#[test]
fn opening_twice_gives_the_same_headers() {
    let f = video_file();
    let a = ByteStream::new(f.clone(), 0).headers().unwrap();
    let b = ByteStream::new(f, 0).headers().unwrap();
    assert_eq!(a, b);
}

#[test]
fn expanding_sizes_twice_is_identical() {
    let payload = table(&[9, 3]);
    let a = Stsz::parse(&payload).unwrap().expand();
    let b = Stsz::parse(&payload).unwrap().expand();
    assert_eq!(a, vec![9, 9, 9]);
    assert_eq!(a, b);
}

#[test]
fn decoded_tables_hold_the_written_values() {
    let payload = table(&[2, 3, 40, 1, 10]);
    let stts = Stts::parse(&payload).unwrap();
    assert_eq!((stts.version, stts.flags), (1, [0, 0, 2]));
    let mut again = vec![stts.version];
    again.extend(stts.flags);
    again.extend(be32(stts.table.len() as u32));
    for e in &stts.table {
        again.extend(be32(e.sample_count));
        again.extend(be32(e.sample_duration));
    }
    assert_eq!(again, payload);
    let stco = Stco::parse(&table(&[2, 300, 400])).unwrap();
    let mut again = vec![stco.version];
    again.extend(stco.flags);
    again.extend(be32(stco.no_of_entries));
    for o in &stco.offsets {
        again.extend(be32(*o));
    }
    assert_eq!(again, table(&[2, 300, 400]));
    let mut m = vec![0u8; 4];
    for v in [1u32, 2, 3, 4] {
        m.extend(be32(v));
    }
    m.extend([0x55, 0xC4, 0, 0]);
    let mdhd = Mdhd::parse(&m).unwrap();
    let mut again = vec![mdhd.version];
    again.extend(mdhd.flags);
    for v in [mdhd.creation_time, mdhd.modification_time, mdhd.time_scale, mdhd.duration] {
        again.extend(be32(v));
    }
    again.extend(mdhd.language_code.to_be_bytes());
    again.extend(mdhd.quality.to_be_bytes());
    assert_eq!(again, m);
}

#[test]
fn track_header_size_matches_video_description() {
    let mut mp4 = Mp4::from_bytes(video_file()).unwrap();
    let tkhd = mp4.tkhd(true).unwrap();
    let (w, h) = mp4.resolution(true).unwrap();
    assert_eq!((tkhd.width(), tkhd.height()), (w as u32, h as u32));
}

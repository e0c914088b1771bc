use mp4iter::bytes::{chars_from_be_u32, string_from_be_u32};
use mp4iter::{
    bytes::latin1_string, offsets::sample_positions, track::TrackIdentifier, ByteStream, Co64, DataFormat, Mp4,
    Mp4Error, SampleOffset, Stsc, Stsz, Stts, VideoFormat,
};

fn be16(v: u16) -> Vec<u8> {
    v.to_be_bytes().to_vec()
}

fn be32(v: u32) -> Vec<u8> {
    v.to_be_bytes().to_vec()
}

fn be64(v: u64) -> Vec<u8> {
    v.to_be_bytes().to_vec()
}

fn atom(name: &[u8; 4], payload: &[u8]) -> Vec<u8> {
    let mut v = be32(8 + payload.len() as u32);
    v.extend_from_slice(name);
    v.extend_from_slice(payload);
    v
}

fn mvhd(time_scale: u32, duration: u32) -> Vec<u8> {
    let mut p = vec![0u8; 4];
    p.extend(be32(10));
    p.extend(be32(20));
    p.extend(be32(time_scale));
    p.extend(be32(duration));
    p.extend(be32(0x0001_0000));
    p.extend(be16(0x0100));
    p.extend(vec![0u8; 10]);
    p.extend(vec![0u8; 36]);
    p.extend(vec![0u8; 24]);
    p.extend(be32(3));
    assert_eq!(p.len(), 100);
    atom(b"mvhd", &p)
}

fn tkhd(track_id: u32, width: u32, height: u32) -> Vec<u8> {
    let mut p = vec![0u8; 4];
    p.extend(be32(100));
    p.extend(be32(200));
    p.extend(be32(track_id));
    p.extend(vec![0u8; 4]);
    p.extend(be32(30000));
    p.extend(vec![0u8; 8]);
    p.extend(be16(0));
    p.extend(be16(0));
    p.extend(be16(0x0100));
    p.extend(vec![0u8; 2]);
    p.extend(vec![0u8; 36]);
    p.extend(be32(width << 16));
    p.extend(be32(height << 16));
    assert_eq!(p.len(), 84);
    atom(b"tkhd", &p)
}

fn mdhd(time_scale: u32, duration: u32) -> Vec<u8> {
    let mut p = vec![0u8; 4];
    p.extend(be32(1));
    p.extend(be32(2));
    p.extend(be32(time_scale));
    p.extend(be32(duration));
    p.extend(be16(0x55C4));
    p.extend(be16(0));
    atom(b"mdhd", &p)
}

fn hdlr(sub_type: &[u8; 4], name: &str) -> Vec<u8> {
    let mut p = vec![0u8; 4];
    p.extend_from_slice(b"mhlr");
    p.extend_from_slice(sub_type);
    p.extend(vec![0u8; 12]);
    p.push(name.len() as u8);
    p.extend_from_slice(name.as_bytes());
    atom(b"hdlr", &p)
}

fn stsd_video(width: u16, height: u16) -> Vec<u8> {
    let mut rec = be32(16 + 70);
    rec.extend_from_slice(b"avc1");
    rec.extend(vec![0u8; 6]);
    rec.extend(be16(1));
    rec.extend(vec![0u8; 16]);
    rec.extend(be16(width));
    rec.extend(be16(height));
    rec.extend(be32(72 << 16));
    rec.extend(be32(72 << 16));
    rec.extend(be32(0));
    rec.extend(be16(1));
    let mut name = vec![0u8; 32];
    name[0] = 4;
    name[1..5].copy_from_slice(b"h264");
    rec.extend(name);
    rec.extend(be16(24));
    rec.extend(be16(0xFFFF));
    let mut p = vec![0u8; 4];
    p.extend(be32(1));
    p.extend(rec);
    atom(b"stsd", &p)
}

fn stsd_binary(format: &[u8; 4], body: &[u8]) -> Vec<u8> {
    let mut rec = be32(16 + body.len() as u32);
    rec.extend_from_slice(format);
    rec.extend(vec![0u8; 6]);
    rec.extend(be16(1));
    rec.extend_from_slice(body);
    let mut p = vec![0u8; 4];
    p.extend(be32(1));
    p.extend(rec);
    atom(b"stsd", &p)
}

fn stts(runs: &[(u32, u32)]) -> Vec<u8> {
    let mut p = vec![0u8; 4];
    p.extend(be32(runs.len() as u32));
    for (c, d) in runs {
        p.extend(be32(*c));
        p.extend(be32(*d));
    }
    atom(b"stts", &p)
}

fn stsc(entries: &[(u32, u32, u32)]) -> Vec<u8> {
    let mut p = vec![0u8; 4];
    p.extend(be32(entries.len() as u32));
    for (a, b, c) in entries {
        p.extend(be32(*a));
        p.extend(be32(*b));
        p.extend(be32(*c));
    }
    atom(b"stsc", &p)
}

fn stsz(sample_size: u32, count: u32, sizes: &[u32]) -> Vec<u8> {
    let mut p = vec![0u8; 4];
    p.extend(be32(sample_size));
    p.extend(be32(count));
    for s in sizes {
        p.extend(be32(*s));
    }
    atom(b"stsz", &p)
}

fn stco(offsets: &[u32]) -> Vec<u8> {
    let mut p = vec![0u8; 4];
    p.extend(be32(offsets.len() as u32));
    for o in offsets {
        p.extend(be32(*o));
    }
    atom(b"stco", &p)
}

fn co64(offsets: &[u64]) -> Vec<u8> {
    let mut p = vec![0u8; 4];
    p.extend(be32(offsets.len() as u32));
    for o in offsets {
        p.extend(be64(*o));
    }
    atom(b"co64", &p)
}

fn trak(id: u32, sub: &[u8; 4], name: &str, time_scale: u32, stbl_children: &[Vec<u8>]) -> Vec<u8> {
    let stbl = atom(b"stbl", &stbl_children.concat());
    let minf = atom(b"minf", &stbl);
    let mdia = atom(b"mdia", &[mdhd(time_scale, 30000), hdlr(sub, name), minf].concat());
    atom(b"trak", &[tkhd(id, 1920, 1080), mdia].concat())
}

fn ftyp() -> Vec<u8> {
    let mut p = b"isom".to_vec();
    p.extend(be32(0x200));
    p.extend_from_slice(b"isom");
    p.extend_from_slice(b"mp41");
    p.extend_from_slice(b"avc1");
    p.extend_from_slice(b"iso2");
    atom(b"ftyp", &p)
}

/// ftyp (32 bytes) + moov + mdat padded so that the file reaches `len`.
fn file(traks: &[Vec<u8>], len: usize) -> Vec<u8> {
    let moov = atom(b"moov", &[mvhd(600, 6000), traks.concat()].concat());
    let mut f = [ftyp(), moov].concat();
    assert_eq!(ftyp().len(), 32);
    let mdat_len = len - f.len();
    f.extend(be32(mdat_len as u32));
    f.extend_from_slice(b"mdat");
    let mut i = 0u32;
    while f.len() < len {
        f.push((i % 251) as u8);
        i += 1;
    }
    f
}

fn s1_file() -> Vec<u8> {
    let video = trak(
        1,
        b"vide",
        "VideoHandler",
        30000,
        &[stsd_video(1920, 1080), stts(&[(10, 3000)]), stsc(&[(1, 10, 1)]), stsz(0, 10, &[100; 10]), stco(&[0x1000])],
    );
    file(&[video], 0x1000 + 1000)
}

#[test]
fn s1_minimal_video_track_offsets() {
    let mut mp4 = Mp4::from_bytes(s1_file()).unwrap();
    let track = mp4.track(&TrackIdentifier::SubType("vide".to_string()), true).unwrap();
    assert_eq!(track.len(), 10);
    for (k, o) in track.offsets().iter().enumerate() {
        assert_eq!(o.position, 0x1000 + 100 * k as u64);
        assert_eq!(o.size, 100);
        assert_eq!(o.duration.ticks, 3000);
        assert_eq!(o.duration.time_scale, 30000);
    }
    assert_eq!(track.size(), 1000);
    assert_eq!(track.id(), 1);
    assert_eq!(track.name(), "VideoHandler");
    assert_eq!(track.sub_type(), "vide");
    assert!(track.is_video());
    assert!(!track.is_audio());
    assert_eq!(track.video_format(), Some(VideoFormat::Avc1));
    assert_eq!(track.attributes.width(), 1920);
    assert_eq!(track.attributes.height(), 1080);
    assert_eq!(track.attributes.frame_rate(), Some((10 * 30000, 30000)));
}

#[test]
fn s1_sample_bytes_and_relative_times() {
    let bytes = s1_file();
    let mut mp4 = Mp4::from_bytes(bytes.clone()).unwrap();
    let track = mp4.track(&TrackIdentifier::Id(1), true).unwrap();
    let mut file = ByteStream::new(bytes.clone(), 0);
    let samples = track.samples(&mut file);
    assert_eq!(samples.len(), 10);
    for (k, s) in samples.iter().enumerate() {
        let s = s.as_ref().unwrap();
        let start = 0x1000 + 100 * k;
        assert_eq!(s.raw(), &bytes[start..start + 100]);
        assert_eq!(s.relative().ticks, 3000 * k as u128);
        assert_eq!(s.duration().ticks, 3000);
    }
    let ts = track.timestamps();
    assert_eq!(ts.len(), 10);
    for k in 0..9 {
        assert_eq!(ts[k + 1].0.ticks, ts[k].0.ticks + ts[k].1.ticks);
    }
    assert_eq!(ts[0].0.ticks, 0);
    assert_eq!(ts[1].0.whole_seconds(), 0);
    assert_eq!(ts[1].0.subsec_nanoseconds(), 100_000_000);
    let s5 = track.sample(5, &mut file).unwrap();
    assert_eq!(s5.relative().ticks, 15000);
    assert_eq!(s5.len(), 100);
}

#[test]
fn short_file_fails_sample_at_that_point() {
    let bytes = s1_file();
    let mut mp4 = Mp4::from_bytes(bytes.clone()).unwrap();
    let track = mp4.track(&TrackIdentifier::Id(1), true).unwrap();
    let cut = bytes[..0x1000 + 350].to_vec();
    let mut file = ByteStream::new(cut, 0);
    let samples = track.samples(&mut file);
    assert_eq!(samples.len(), 4);
    assert!(samples[0].is_ok() && samples[1].is_ok() && samples[2].is_ok());
    assert!(matches!(samples[3], Err(Mp4Error::ReadMismatch { .. })));
}

#[test]
fn s2_two_chunk_variable_samples_per_chunk() {
    let table = Stsc::parse(&stsc(&[(1, 2, 1), (3, 3, 1)])[8..]).unwrap();
    let sizes = vec![100u32; 11];
    let positions = sample_positions(&table, &[0x2000, 0x2200, 0x2400, 0x2700], &sizes).unwrap();
    assert_eq!(
        positions,
        vec![0x2000, 0x2064, 0x2200, 0x2264, 0x2400, 0x2464, 0x24C8, 0x2700, 0x2764, 0x27C8]
    );
    assert_eq!(table.no_of_samples(1), Some(2));
    assert_eq!(table.no_of_samples(2), Some(2));
    assert_eq!(table.no_of_samples(3), Some(3));
    assert_eq!(table.no_of_samples(4), Some(3));
    assert_eq!(table.no_of_samples(0), None);
    assert_eq!(table.len(4), Some(10));
}

#[test]
fn s2_extra_sizes_are_ignored() {
    let t = trak(
        1,
        b"meta",
        "Meta",
        1,
        &[
            stsd_binary(b"gpmd", &[]),
            stts(&[(10, 1)]),
            stsc(&[(1, 2, 1), (3, 3, 1)]),
            stsz(0, 11, &[100; 11]),
            stco(&[0x2000, 0x2200, 0x2400, 0x2700]),
        ],
    );
    let mut mp4 = Mp4::from_bytes(file(&[t], 1200)).unwrap();
    let track = mp4.track(&TrackIdentifier::Id(1), true).unwrap();
    let pos: Vec<u64> = track.offsets().iter().map(|o| o.position).collect();
    assert_eq!(pos, vec![0x2000, 0x2064, 0x2200, 0x2264, 0x2400, 0x2464, 0x24C8, 0x2700, 0x2764, 0x27C8]);
    assert!(track.offsets().iter().all(|o| o.size == 100));
}

#[test]
fn sizes_running_out_is_a_count_mismatch() {
    let table = Stsc::parse(&stsc(&[(1, 3, 1)])[8..]).unwrap();
    let r = sample_positions(&table, &[0, 1000], &[10, 10, 10, 10]);
    assert!(matches!(r, Err(Mp4Error::SampleCountMismatch { .. })));
}

#[test]
fn chunk_without_entry_is_reported() {
    let table = Stsc::parse(&stsc(&[(2, 3, 1), (4, 1, 1)])[8..]).unwrap();
    let r = sample_positions(&table, &[0, 1000], &[10; 10]);
    assert_eq!(r, Err(Mp4Error::MissingChunkEntry(1)));
}

#[test]
fn chunk_past_u64_is_an_overflow() {
    let table = Stsc::parse(&stsc(&[(1, 2, 1)])[8..]).unwrap();
    let r = sample_positions(&table, &[u64::MAX - 5], &[4, 4]);
    assert_eq!(r, Err(Mp4Error::NumericOverflow));
}

#[test]
fn s4_mixed_stco_and_co64_tracks() {
    let t1 = trak(
        1,
        b"vide",
        "Video",
        1000,
        &[stsd_video(640, 480), stts(&[(2, 10)]), stsc(&[(1, 1, 1)]), stsz(50, 2, &[]), stco(&[200, 400])],
    );
    let t2 = trak(
        2,
        b"soun",
        "Sound",
        48000,
        &[co64(&[0x1_0000_0000, 0x1_0000_1000]), stts(&[(4, 1024)]), stsc(&[(1, 2, 1)]), stsz(0, 4, &[7, 8, 9, 10]),
            stsd_binary(b"gpmd", &[1, 2, 3])],
    );
    let mut mp4 = Mp4::from_bytes(file(&[t1, t2], 2000)).unwrap();
    let a = mp4.track(&TrackIdentifier::Name("Video".to_string()), true).unwrap();
    let pos: Vec<u64> = a.offsets().iter().map(|o| o.position).collect();
    assert_eq!(pos, vec![200, 400]);
    let b = mp4.track(&TrackIdentifier::Id(2), true).unwrap();
    let pos: Vec<u64> = b.offsets().iter().map(|o| o.position).collect();
    assert_eq!(pos, vec![0x1_0000_0000, 0x1_0000_0007, 0x1_0000_1000, 0x1_0000_1009]);
    let sizes: Vec<u32> = b.offsets().iter().map(|o| o.size).collect();
    assert_eq!(sizes, vec![7, 8, 9, 10]);
    assert!(b.is_binary());
    let list = mp4.track_list(true).unwrap();
    assert_eq!(list.len(), 2);
    assert_eq!(list[0].id(), 1);
    assert_eq!(list[1].sub_type(), "soun");
    assert_eq!(list[1].offsets().len(), 4);
}

#[test]
fn stbl_walk_stops_at_next_trak() {
    let t1 = trak(1, b"vide", "Video", 1000, &[stsd_video(640, 480), stts(&[(2, 10)]), stsc(&[(1, 1, 1)])]);
    let t2 = trak(
        2,
        b"soun",
        "Sound",
        1000,
        &[stsd_video(640, 480), stts(&[(2, 10)]), stsc(&[(1, 1, 1)]), stsz(1, 2, &[]), stco(&[1, 2])],
    );
    let mut mp4 = Mp4::from_bytes(file(&[t1, t2], 1200)).unwrap();
    let r = mp4.track(&TrackIdentifier::Id(1), true);
    assert!(matches!(r, Err(Mp4Error::SampleOffsetError)));
}

#[test]
fn unknown_track_is_no_such_track() {
    let mut mp4 = Mp4::from_bytes(s1_file()).unwrap();
    assert_eq!(mp4.track(&TrackIdentifier::Id(9), true).unwrap_err(), Mp4Error::NoSuchTrack(TrackIdentifier::Id(9)));
    assert!(matches!(mp4.track(&TrackIdentifier::Name("GoPro MET".to_string()), true), Err(Mp4Error::NoSuchTrack(_))));
}

#[test]
fn durations_and_sizes_must_agree() {
    let t = trak(
        1,
        b"vide",
        "Video",
        1000,
        &[stsd_video(640, 480), stts(&[(3, 10)]), stsc(&[(1, 2, 1)]), stsz(5, 2, &[]), stco(&[100])],
    );
    let mut mp4 = Mp4::from_bytes(file(&[t], 1000)).unwrap();
    let r = mp4.track(&TrackIdentifier::Id(1), true);
    assert!(matches!(r, Err(Mp4Error::SampleCountMismatch { durations: 3, sizes: 2, positions: 2 })));
}

#[test]
fn zero_time_scale_reads_as_one() {
    let o = SampleOffset::new(5, 6, 7, 0, true);
    assert_eq!(o.duration.time_scale, 1);
    assert_eq!(o.duration.ticks, 7);
    assert_eq!(o.duration.whole_seconds(), 7);
    let t = trak(
        1,
        b"meta",
        "Meta",
        0,
        &[stsd_binary(b"gpmd", &[]), stts(&[(1, 9)]), stsc(&[(1, 1, 1)]), stsz(5, 1, &[]), stco(&[100])],
    );
    let mut mp4 = Mp4::from_bytes(file(&[t], 1000)).unwrap();
    let track = mp4.track(&TrackIdentifier::SubType("meta".to_string()), true).unwrap();
    assert_eq!(track.offsets()[0].duration.time_scale, 1);
    assert_eq!(track.offsets()[0].duration.whole_seconds(), 9);
}

#[test]
fn movie_level_attributes() {
    let mut mp4 = Mp4::from_bytes(s1_file()).unwrap();
    assert_eq!(mp4.time_scale().unwrap(), 600);
    let d = mp4.duration(true).unwrap();
    assert_eq!((d.ticks, d.time_scale, d.whole_seconds()), (6000, 600, 10));
    assert_eq!(mp4.creation_time(true).unwrap(), 10);
    assert_eq!(mp4.resolution(true).unwrap(), (1920, 1080));
    assert_eq!(mp4.video_format(true).unwrap(), VideoFormat::Avc1);
    assert!(matches!(mp4.audio_format(true), Err(_)));
    assert_eq!(mp4.frame_rate().unwrap(), (10 * 600, 6000));
    assert_eq!(mp4.major_brand().unwrap(), "isom");
    assert_eq!(mp4.compatible_brands().unwrap(), vec!["isom", "mp41", "avc1", "iso2"]);
    assert_eq!(mp4.mdhd(true).unwrap().language(), "und");
    assert_eq!(mp4.tkhd_handler("VideoHandler", true).unwrap().track_id(), 1);
    assert_eq!(mp4.mdhd_track_subtype("vide", true).unwrap().time_scale(), 30000);
    assert_eq!(mp4.time_scale_track("VideoHandler", true).unwrap(), 30000);
    assert_eq!(mp4.hdlr(true).unwrap().component_sub_type(), "vide");
    assert_eq!(mp4.hdlr(true).unwrap().component_type(), "mhlr");
    assert_eq!(mp4.stts_video(true).unwrap().len(), Some(10));
    assert_eq!(mp4.len(), 0x1000 + 1000);
}

#[test]
fn missing_moov_is_moov_read_error() {
    let f = [ftyp(), atom(b"free", &[0; 8])].concat();
    assert!(matches!(Mp4::from_bytes(f), Err(Mp4Error::MoovReadError)));
}

#[test]
fn stsd_formats_and_tmcd() {
    let mut body = vec![0u8; 4];
    body.extend(be32(0));
    body.extend(be32(30000));
    body.extend(be32(1001));
    body.push(30);
    body.push(0);
    let t = trak(
        1,
        b"tmcd",
        "TimeCode",
        30000,
        &[stsd_binary(b"tmcd", &body), stts(&[(1, 1001)]), stsc(&[(1, 1, 1)]), stsz(4, 1, &[]), stco(&[100])],
    );
    let mut mp4 = Mp4::from_bytes(file(&[t], 1000)).unwrap();
    let tmcd = mp4.tmcd(true).unwrap();
    assert_eq!(tmcd.time_scale(), 30000);
    assert_eq!(tmcd.frame_duration(), 1001);
    assert_eq!(tmcd.number_of_frames(), 30);
    assert_eq!(DataFormat::new(u32::from_be_bytes(*b"avc1")), DataFormat::Video(VideoFormat::Avc1));
    assert!(DataFormat::new(u32::from_be_bytes(*b"mp4a")).is_audio());
    assert_eq!(DataFormat::new(u32::from_be_bytes(*b"raw ")), DataFormat::Video(VideoFormat::Raw));
    assert!(DataFormat::new(u32::from_be_bytes(*b"gpmd")).is_binary());
    assert_eq!(VideoFormat::Hvc1.to_str(), Some("hvc1".to_string()));
    assert_eq!(VideoFormat::Unknown.to_str(), None);
    assert_eq!(latin1_string(&[0x47, 0xE9]), "G\u{e9}");
}

#[test]
fn tables_decode() {
    let t = Stts::parse(&stts(&[(2, 10), (3, 20)])[8..]).unwrap();
    assert_eq!(t.len(), Some(5));
    assert_eq!(t.durations(), vec![10, 10, 20, 20, 20]);
    assert_eq!(t.duration_sum(), 80);
    assert_eq!(t.sample_sum(), 5);
    assert_eq!(t.duration(), None);
    assert_eq!(t.table(), vec![(2, 10), (3, 20)]);
    let z = Stsz::parse(&stsz(7, 3, &[])[8..]).unwrap();
    assert_eq!(z.expand(), vec![7, 7, 7]);
    assert_eq!(z.len(), 3);
    let z2 = Stsz::parse(&stsz(0, 3, &[1, 2, 3])[8..]).unwrap();
    assert_eq!(z2.sizes(), vec![1, 2, 3]);
    assert_eq!(z2.size(2), Some(3));
    assert!(matches!(Stsz::parse(&stsz(0, 4, &[1, 2, 3])[8..]), Err(Mp4Error::ReadMismatch { .. })));
    let c = mp4iter::Stco::parse(&stco(&[5, 6])[8..]).unwrap();
    let wide = Co64::from_stco(c.clone());
    assert_eq!(wide.offsets(), &[5u64, 6]);
    assert_eq!(c.get(1), Some(6));
    assert_eq!(c.get(2), None);
    let c64 = Co64::parse(&co64(&[1 << 40])[8..]).unwrap();
    assert_eq!(c64.expand(), vec![1u64 << 40]);
}

#[test]
fn stsz_expand_twice_is_identical() {
    let payload = stsz(0, 3, &[4, 5, 6]);
    let a = Stsz::parse(&payload[8..]).unwrap().expand();
    let b = Stsz::parse(&payload[8..]).unwrap().expand();
    assert_eq!(a, b);
}

#[test]
fn stsc_total_counts_samples_of_chunks() {
    let t = Stsc::parse(&stsc(&[(1, 10, 1)])[8..]).unwrap();
    assert_eq!(t.no_of_samples(1), Some(10));
    assert_eq!(t.no_of_samples(99), Some(10));
    assert_eq!(t.len(3), Some(30));
}

#[test]
fn track_identifier_from_text() {
    assert_eq!(TrackIdentifier::from_str("2"), TrackIdentifier::Id(2));
    assert_eq!(TrackIdentifier::from_str("GoPro MET"), TrackIdentifier::Name("GoPro MET".to_string()));
    assert_eq!(TrackIdentifier::from_str("99999999999"), TrackIdentifier::Name("99999999999".to_string()));
    assert_eq!(TrackIdentifier::from_str(""), TrackIdentifier::Name(String::new()));
}

#[test]
fn moov_stream_selection_and_sync() {
    let bytes = s1_file();
    let mut mp4 = Mp4::from_bytes(bytes).unwrap();
    let moov = mp4.moov_header();
    assert_eq!(moov.offset, 32);
    assert_eq!(mp4.select_reader(10), mp4iter::TargetReader::File);
    assert_eq!(mp4.select_reader(40), mp4iter::TargetReader::Moov);
    assert_eq!(mp4.select_reader(moov.end()), mp4iter::TargetReader::File);
    assert_eq!(mp4.sync_pos(40).unwrap(), 40);
    assert_eq!(mp4.moov_reader().pos(), 40);
    assert_eq!(mp4.sync_pos(10), Err(Mp4Error::BoundsError(10, 40, moov.end())));
    let mvhd = mp4.find_header(mp4iter::FourCC::Mvhd, true).unwrap().unwrap();
    assert_eq!(mvhd.offset, 40);
}

#[test]
fn time_code_first_frame() {
    let mut body = vec![0u8; 8];
    body.extend(be32(25));
    body.extend(be32(1));
    body.push(25);
    body.push(0);
    let t = trak(
        1,
        b"tmcd",
        "TimeCode",
        25,
        &[stsd_binary(b"tmcd", &body), stts(&[(1, 1)]), stsc(&[(1, 1, 1)]), stsz(4, 1, &[]), stco(&[0x300])],
    );
    let mut bytes = file(&[t], 0x400);
    bytes[0x300..0x304].copy_from_slice(&be32(250));
    let mut mp4 = Mp4::from_bytes(bytes.clone()).unwrap();
    let track = mp4.track(&TrackIdentifier::SubType("tmcd".to_string()), true).unwrap();
    let mut stream = ByteStream::new(bytes, 0);
    let d = track.time_first_frame(&mut stream).unwrap();
    assert_eq!((d.ticks, d.time_scale, d.whole_seconds()), (250, 25, 10));
    assert_eq!(track.number_of_frames().unwrap(), 25);
}

#[test]
fn user_data_in_moov() {
    let udta = atom(b"udta", &[atom(b"FIRM", b"HD5.02"), vec![0u8; 8]].concat());
    let moov = atom(b"moov", &[mvhd(600, 6000), udta].concat());
    let f = [ftyp(), moov].concat();
    let mut mp4 = Mp4::from_bytes(f).unwrap();
    let u = mp4.user_data().unwrap();
    assert_eq!(u.fields.len(), 1);
    assert!(u.fields[0].matches(mp4iter::FourCC::from_bytes(*b"FIRM")));
    let hs = mp4.user_data_headers().unwrap();
    assert_eq!(hs.len(), 1);
    assert_eq!(hs[0].name, mp4iter::FourCC::from_bytes(*b"FIRM"));
    let firm = mp4.find_user_data(mp4iter::FourCC::from_bytes(*b"FIRM")).unwrap();
    assert_eq!(firm.read_data(), b"HD5.02");
}

#[test]
fn text_helpers() {
    assert_eq!(chars_from_be_u32(0x61766331), ['a', 'v', 'c', '1']);
    assert_eq!(string_from_be_u32(0x6d730002, false), "ms\u{0}\u{2}");
    assert_eq!(string_from_be_u32(0x6d730002, true), "ms\u{2}");
    assert_eq!(mp4iter::headers::ComponentType::from_u32(0x736f756e), mp4iter::headers::ComponentType::Sound);
    assert_eq!(mp4iter::headers::ComponentType::from_u32(0), mp4iter::headers::ComponentType::Unknown);
    assert_eq!(mp4iter::AudioFormat::from_be_u32(0x6d703461), mp4iter::AudioFormat::Mp4a);
    assert_eq!(mp4iter::AudioFormat::Mp4a.to_str(), Some("mp4a".to_string()));
}

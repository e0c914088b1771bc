//! Sample description atom (`stsd`): one record per sample format, each
//! decoded as video, audio or raw bytes by its format code. A `tmcd`
//! record's bytes hold a time code entry.

use vstd::prelude::*;

use crate::bytes::{
    be_u16_at, be_u32_at, copy_range, drop_nul, latin1, latin1_string, remove_nul, u16_at, u32_at,
    u32_be_bytes, u8_at,
};
use crate::error::Mp4Error;
use crate::formats::{audio_format_of, video_format_of, AudioFormat, VideoFormat};
use crate::fourcc::FourCC;
use crate::tables::check_len;

verus! {

/// The kind of a sample description, by its format code.
#[derive(Debug, Clone, Copy, PartialEq, Eq, Structural)]
pub enum DataFormat {
    Audio(AudioFormat),
    Video(VideoFormat),
    /// Neither a known video nor a known audio format.
    Binary(u32),
}

/// Kind of a sample description with format code `v`: the video formats are
/// looked up first (so `raw ` is video), then the audio formats.
pub open spec fn data_format_of(v: u32) -> DataFormat {
    let a = audio_format_of(v);
    let f = video_format_of(v);
    if !(f is Unknown) {
        DataFormat::Video(f)
    } else if !(a is Unknown) {
        DataFormat::Audio(a)
    } else {
        DataFormat::Binary(v)
    }
}

impl DataFormat {
    /// Kind of a sample description from its big-endian format code.
    pub fn new(value: u32) -> (r: DataFormat)
        ensures
            r == data_format_of(value),
    {
        let a = AudioFormat::from_be_u32(value);
        let v = VideoFormat::from_be_u32(value);
        match (v, a) {
            (VideoFormat::Unknown, AudioFormat::Unknown) => DataFormat::Binary(value),
            (VideoFormat::Unknown, af) => DataFormat::Audio(af),
            (vf, _) => DataFormat::Video(vf),
        }
    }

    /// Raw bytes of an unclassified format.
    pub fn is_binary(&self) -> (r: bool)
        ensures
            r == (*self is Binary),
    {
        matches!(self, DataFormat::Binary(_))
    }

    /// A known audio format.
    pub fn is_audio(&self) -> (r: bool)
        ensures
            r == (*self is Audio && !(self->Audio_0 is Unknown)),
    {
        match self {
            DataFormat::Audio(AudioFormat::Unknown) => false,
            DataFormat::Audio(_) => true,
            _ => false,
        }
    }

    /// A known video format.
    pub fn is_video(&self) -> (r: bool)
        ensures
            r == (*self is Video && !(self->Video_0 is Unknown)),
    {
        match self {
            DataFormat::Video(VideoFormat::Unknown) => false,
            DataFormat::Video(_) => true,
            _ => false,
        }
    }
}

/// The compressor name of a video description: a count byte then up to 31
/// bytes, zero bytes dropped, read as ISO-8859-1.
pub open spec fn compressor_name_of(field: Seq<u8>) -> Seq<char> {
    let n: int = if field[0] > 31 {
        31
    } else {
        field[0] as int
    };
    latin1(drop_nul(field.subrange(1, 1 + n)))
}

/// Reads a counted string: the first byte is the count of the bytes that
/// follow; with `ignore_null` their zero bytes are dropped. Bytes are read as
/// ISO-8859-1.
pub fn counted_string(bytes: &[u8], ignore_null: bool) -> (r: String)
    requires
        bytes@.len() > 0,
        bytes@[0] + 1 <= bytes@.len(),
    ensures
        r@ == if ignore_null {
            latin1(drop_nul(bytes@.subrange(1, 1 + bytes@[0])))
        } else {
            latin1(bytes@.subrange(1, 1 + bytes@[0]))
        },
{
    let picked = copy_range(bytes, 1, 1 + bytes[0] as usize);
    if ignore_null {
        latin1_string(&remove_nul(&picked))
    } else {
        latin1_string(&picked)
    }
}

/// The compressor name field: a count that exceeds the 31 bytes that
/// follow is read as 31.
fn compressor_name(field: &[u8]) -> (r: String)
    requires
        field@.len() == 32,
    ensures
        r@ == compressor_name_of(field@),
{
    if field[0] <= 31 {
        counted_string(field, true)
    } else {
        latin1_string(&remove_nul(&copy_range(field, 1, 32)))
    }
}

/// Video sample description fields (after the 16 bytes common to all
/// sample descriptions).
#[derive(Debug, Clone)]
pub struct Video {
    pub version: u16,
    pub revision_level: u16,
    pub vendor: u32,
    pub temporal_quality: u32,
    pub spatial_quality: u32,
    pub width: u16,
    pub height: u16,
    /// 16.16 fixed-point pixels per inch.
    pub horizontal_resolution: u32,
    /// 16.16 fixed-point pixels per inch.
    pub vertical_resolution: u32,
    pub data_size: u32,
    pub frame_count: u16,
    pub compressor_name: String,
    pub depth: u16,
    pub color_table_id: u16,
    pub extensions: Vec<u8>,
}

impl Video {
    /// This value is what the bytes `b` hold.
    pub open spec fn parsed_from(&self, b: Seq<u8>) -> bool {
        &&& b.len() >= 70
        &&& self.version == be_u16_at(b, 0)
        &&& self.revision_level == be_u16_at(b, 2)
        &&& self.vendor == be_u32_at(b, 4)
        &&& self.temporal_quality == be_u32_at(b, 8)
        &&& self.spatial_quality == be_u32_at(b, 12)
        &&& self.width == be_u16_at(b, 16)
        &&& self.height == be_u16_at(b, 18)
        &&& self.horizontal_resolution == be_u32_at(b, 20)
        &&& self.vertical_resolution == be_u32_at(b, 24)
        &&& self.data_size == be_u32_at(b, 28)
        &&& self.frame_count == be_u16_at(b, 32)
        &&& self.compressor_name@ == compressor_name_of(b.subrange(34, 66))
        &&& self.depth == be_u16_at(b, 66)
        &&& self.color_table_id == be_u16_at(b, 68)
        &&& self.extensions@ == b.subrange(70, b.len() as int)
    }

    /// Decodes video description fields.
    pub fn parse(b: &[u8]) -> (r: Result<Video, Mp4Error>)
        ensures
            r is Ok <==> b@.len() >= 70,
            r is Ok ==> r->Ok_0.parsed_from(b@),
            r is Err ==> r->Err_0 is ReadMismatch,
    {
        check_len(b, 70)?;
        let name_field = copy_range(b, 34, 66);
        Ok(Video {
            version: u16_at(b, 0),
            revision_level: u16_at(b, 2),
            vendor: u32_at(b, 4),
            temporal_quality: u32_at(b, 8),
            spatial_quality: u32_at(b, 12),
            width: u16_at(b, 16),
            height: u16_at(b, 18),
            horizontal_resolution: u32_at(b, 20),
            vertical_resolution: u32_at(b, 24),
            data_size: u32_at(b, 28),
            frame_count: u16_at(b, 32),
            compressor_name: compressor_name(&name_field),
            depth: u16_at(b, 66),
            color_table_id: u16_at(b, 68),
            extensions: copy_range(b, 70, b.len()),
        })
    }

    /// Developer of the compressor.
    pub fn vendor(&self) -> (r: u32)
        ensures
            r == self.vendor,
    {
        self.vendor
    }

    /// Degree of temporal compression.
    pub fn temporal_quality(&self) -> (r: u32)
        ensures
            r == self.temporal_quality,
    {
        self.temporal_quality
    }

    /// Degree of spatial compression.
    pub fn spatial_quality(&self) -> (r: u32)
        ensures
            r == self.spatial_quality,
    {
        self.spatial_quality
    }

    /// Width of the source image in pixels.
    pub fn width(&self) -> (r: u16)
        ensures
            r == self.width,
    {
        self.width
    }

    /// Height of the source image in pixels.
    pub fn height(&self) -> (r: u16)
        ensures
            r == self.height,
    {
        self.height
    }

    /// Whole pixels per inch, horizontally.
    pub fn horizontal_resolution(&self) -> (r: u32)
        ensures
            r == self.horizontal_resolution / 0x10000,
    {
        self.horizontal_resolution / 0x10000
    }

    /// Whole pixels per inch, vertically.
    pub fn vertical_resolution(&self) -> (r: u32)
        ensures
            r == self.vertical_resolution / 0x10000,
    {
        self.vertical_resolution / 0x10000
    }

    /// The data size field.
    pub fn data_size(&self) -> (r: u32)
        ensures
            r == self.data_size,
    {
        self.data_size
    }

    /// Frames of compressed data per sample.
    pub fn frame_count(&self) -> (r: u16)
        ensures
            r == self.frame_count,
    {
        self.frame_count
    }

    /// Name of the compressor that made the data.
    pub fn compressor_name(&self) -> (r: &str)
        ensures
            r@ == self.compressor_name@,
    {
        self.compressor_name.as_str()
    }

    /// Pixel depth, as the field's bits.
    pub fn depth(&self) -> (r: u16)
        ensures
            r == self.depth,
    {
        self.depth
    }

    /// Color table to use, as the field's bits (`0xFFFF` for the default).
    pub fn color_table_id(&self) -> (r: u16)
        ensures
            r == self.color_table_id,
    {
        self.color_table_id
    }

    /// Bytes that follow the fixed fields.
    pub fn extensions(&self) -> (r: &[u8])
        ensures
            r@ == self.extensions@,
    {
        self.extensions.as_slice()
    }
}

/// Sound sample description fields (after the 16 common bytes).
#[derive(Debug, Clone)]
pub struct Audio {
    pub version: u16,
    pub revision_level: u16,
    pub vendor: u32,
    pub number_of_channels: u16,
    pub sample_size: u16,
    pub compression_id: u16,
    pub packet_size: u16,
    /// 16.16 fixed-point sample rate in Hz.
    pub sample_rate: u32,
    pub extensions: Vec<u8>,
}

impl Audio {
    /// This value is what the bytes `b` hold.
    pub open spec fn parsed_from(&self, b: Seq<u8>) -> bool {
        &&& b.len() >= 20
        &&& self.version == be_u16_at(b, 0)
        &&& self.revision_level == be_u16_at(b, 2)
        &&& self.vendor == be_u32_at(b, 4)
        &&& self.number_of_channels == be_u16_at(b, 8)
        &&& self.sample_size == be_u16_at(b, 10)
        &&& self.compression_id == be_u16_at(b, 12)
        &&& self.packet_size == be_u16_at(b, 14)
        &&& self.sample_rate == be_u32_at(b, 16)
        &&& self.extensions@ == b.subrange(20, b.len() as int)
    }

    /// Decodes sound description fields.
    pub fn parse(b: &[u8]) -> (r: Result<Audio, Mp4Error>)
        ensures
            r is Ok <==> b@.len() >= 20,
            r is Ok ==> r->Ok_0.parsed_from(b@),
            r is Err ==> r->Err_0 is ReadMismatch,
    {
        check_len(b, 20)?;
        Ok(Audio {
            version: u16_at(b, 0),
            revision_level: u16_at(b, 2),
            vendor: u32_at(b, 4),
            number_of_channels: u16_at(b, 8),
            sample_size: u16_at(b, 10),
            compression_id: u16_at(b, 12),
            packet_size: u16_at(b, 14),
            sample_rate: u32_at(b, 16),
            extensions: copy_range(b, 20, b.len()),
        })
    }

    /// Number of channels.
    pub fn number_of_channels(&self) -> (r: u16)
        ensures
            r == self.number_of_channels,
    {
        self.number_of_channels
    }

    /// Bits per sample.
    pub fn sample_size(&self) -> (r: u16)
        ensures
            r == self.sample_size,
    {
        self.sample_size
    }

    /// Sample rate in whole Hz (integer part of the 16.16 value).
    pub fn sample_rate(&self) -> (r: u32)
        ensures
            r == self.sample_rate / 0x10000,
    {
        self.sample_rate / 0x10000
    }
}

/// Format-specific contents of a sample description.
#[derive(Debug, Clone)]
pub enum DataLoad {
    Video(Video),
    Audio(Audio),
    Binary(Vec<u8>),
}

impl DataLoad {
    /// The video fields, when this is a video description.
    pub fn video(&self) -> (r: Option<&Video>)
        ensures
            r is Some <==> self is Video,
            r is Some ==> *r.unwrap() == self->Video_0,
    {
        match self {
            DataLoad::Video(v) => Some(v),
            _ => None,
        }
    }

    /// The sound fields, when this is an audio description.
    pub fn audio(&self) -> (r: Option<&Audio>)
        ensures
            r is Some <==> self is Audio,
            r is Some ==> *r.unwrap() == self->Audio_0,
    {
        match self {
            DataLoad::Audio(v) => Some(v),
            _ => None,
        }
    }

    /// The raw bytes, when this description is neither video nor audio.
    pub fn binary(&self) -> (r: Option<&[u8]>)
        ensures
            r is Some <==> self is Binary,
            r is Some ==> r.unwrap()@ == self->Binary_0@,
    {
        match self {
            DataLoad::Binary(v) => Some(v.as_slice()),
            _ => None,
        }
    }
}

/// Time code entry (`tmcd`) held by a binary sample description.
#[derive(Debug, Clone, Copy, PartialEq, Eq)]
pub struct Tmcd {
    pub reserved1: u32,
    pub flags: u32,
    pub time_scale: u32,
    pub frame_duration: u32,
    pub number_of_frames: u8,
    pub reserved2: u8,
}

impl Tmcd {
    /// Decodes a time code entry.
    pub fn parse(b: &[u8]) -> (r: Result<Tmcd, Mp4Error>)
        ensures
            r is Ok <==> b@.len() >= 18,
            r is Ok ==> r->Ok_0.reserved1 == be_u32_at(b@, 0) && r->Ok_0.flags == be_u32_at(b@, 4)
                && r->Ok_0.time_scale == be_u32_at(b@, 8) && r->Ok_0.frame_duration == be_u32_at(b@, 12)
                && r->Ok_0.number_of_frames == b@[16] && r->Ok_0.reserved2 == b@[17],
            r is Err ==> r->Err_0 is ReadMismatch,
    {
        check_len(b, 18)?;
        Ok(Tmcd {
            reserved1: u32_at(b, 0),
            flags: u32_at(b, 4),
            time_scale: u32_at(b, 8),
            frame_duration: u32_at(b, 12),
            number_of_frames: u8_at(b, 16),
            reserved2: u8_at(b, 17),
        })
    }

    /// Time units per second.
    pub fn time_scale(&self) -> (r: u32)
        ensures
            r == self.time_scale,
    {
        self.time_scale
    }

    /// Duration of one frame, in time units.
    pub fn frame_duration(&self) -> (r: u32)
        ensures
            r == self.frame_duration,
    {
        self.frame_duration
    }

    /// Frames per second (rounded).
    pub fn number_of_frames(&self) -> (r: u8)
        ensures
            r == self.number_of_frames,
    {
        self.number_of_frames
    }
}

/// Whether a description is a time code (`tmcd`) description with raw bytes.
pub open spec fn is_time_code(d: SampleDescription) -> bool {
    d.format == TMCD && d.data is Binary
}

/// The time code entry `t` is what the bytes `b` hold.
pub open spec fn tmcd_from(t: Tmcd, b: Seq<u8>) -> bool {
    &&& b.len() >= 18
    &&& t.time_scale == be_u32_at(b, 8)
    &&& t.frame_duration == be_u32_at(b, 12)
    &&& t.number_of_frames == b[16]
}

/// The format code of the `tmcd` time code description.
pub const TMCD: u32 = 0x746d6364;

/// One sample description record.
#[derive(Debug, Clone)]
pub struct SampleDescription {
    /// Record size in bytes, the 16 common bytes included.
    pub size: u32,
    /// Format code.
    pub format: u32,
    pub data_format: DataFormat,
    pub reserved: Vec<u8>,
    pub data_reference_index: u16,
    pub data: DataLoad,
}

/// Whether the record at `b` (its first `size` bytes) can be decoded: it
/// covers the 16 common bytes and its format's fixed fields.
pub open spec fn record_fits(b: Seq<u8>) -> bool {
    b.len() >= 16 && be_u32_at(b, 0) >= 16 && be_u32_at(b, 0) <= b.len() && {
        let f = data_format_of(be_u32_at(b, 4) as u32);
        let n = be_u32_at(b, 0) - 16;
        (f is Video ==> n >= 70) && (f is Audio ==> n >= 20)
    }
}

impl SampleDescription {
    /// This record is what the bytes `b` hold (exactly `size` of them).
    pub open spec fn parsed_from(&self, b: Seq<u8>) -> bool {
        &&& b.len() == self.size
        &&& self.size >= 16
        &&& self.size == be_u32_at(b, 0)
        &&& self.format == be_u32_at(b, 4)
        &&& self.data_format == data_format_of(self.format)
        &&& self.reserved@ == b.subrange(8, 14)
        &&& self.data_reference_index == be_u16_at(b, 14)
        &&& {
            let p = b.subrange(16, b.len() as int);
            match self.data_format {
                DataFormat::Video(_) => self.data is Video && self.data->Video_0.parsed_from(p),
                DataFormat::Audio(_) => self.data is Audio && self.data->Audio_0.parsed_from(p),
                DataFormat::Binary(_) => self.data is Binary && self.data->Binary_0@ == p,
            }
        }
    }

    /// Decodes one record from the start of `b`.
    pub fn parse(b: &[u8]) -> (r: Result<SampleDescription, Mp4Error>)
        ensures
            r is Ok <==> record_fits(b@),
            r is Ok ==> r->Ok_0.size <= b@.len(),
            r is Ok ==> r->Ok_0.parsed_from(b@.subrange(0, r->Ok_0.size as int)),
    {
        check_len(b, 16)?;
        let size = u32_at(b, 0);
        if size < 16 || size as usize > b.len() {
            return Err(Mp4Error::ReadMismatch { got: b.len() as u64, expected: size as u64 });
        }
        let format = u32_at(b, 4);
        let data_format = DataFormat::new(format);
        let reserved = copy_range(b, 8, 14);
        let data_reference_index = u16_at(b, 14);
        let payload = copy_range(b, 16, size as usize);
        let data = match data_format {
            DataFormat::Video(_) => DataLoad::Video(Video::parse(&payload)?),
            DataFormat::Audio(_) => DataLoad::Audio(Audio::parse(&payload)?),
            DataFormat::Binary(_) => DataLoad::Binary(payload),
        };
        proof {
            let rec = b@.subrange(0, size as int);
            assert(rec.subrange(16, rec.len() as int) =~= b@.subrange(16, size as int));
            assert(rec.subrange(8, 14) =~= b@.subrange(8, 14));
            assert(be_u32_at(rec, 0) == be_u32_at(b@, 0));
            assert(be_u32_at(rec, 4) == be_u32_at(b@, 4));
            assert(be_u16_at(rec, 14) == be_u16_at(b@, 14));
        }
        Ok(SampleDescription { size, format, data_format, reserved, data_reference_index, data })
    }

    /// Format-specific contents.
    pub fn data(&self) -> (r: &DataLoad)
        ensures
            *r == self.data,
    {
        &self.data
    }

    /// Kind of the description.
    pub fn data_format(&self) -> (r: &DataFormat)
        ensures
            *r == self.data_format,
    {
        &self.data_format
    }

    /// The format code as four ISO-8859-1 characters.
    pub fn data_format_string(&self) -> (r: String)
        ensures
            r@ == latin1(u32_be_bytes(self.format)),
    {
        FourCC::from_u32(self.format).to_str()
    }

    /// The time code entry, when this is a `tmcd` description.
    pub fn tmcd(&self) -> (r: Result<Tmcd, Mp4Error>)
        ensures
            !(self.format == TMCD && self.data is Binary) ==> r == Err::<Tmcd, Mp4Error>(
                Mp4Error::NoSuchAtom(FourCC::Tmcd),
            ),
            (self.format == TMCD && self.data is Binary) ==> (r is Ok <==> self.data->Binary_0@.len() >= 18),
            r is Ok ==> tmcd_from(r->Ok_0, self.data->Binary_0@),
    {
        if self.format == TMCD {
            if let DataLoad::Binary(bytes) = &self.data {
                return Tmcd::parse(bytes.as_slice());
            }
        }
        Err(Mp4Error::NoSuchAtom(FourCC::Tmcd))
    }

    /// A known video format.
    pub fn is_video(&self) -> (r: bool)
        ensures
            r == (self.data_format is Video && !(self.data_format->Video_0 is Unknown)),
    {
        self.data_format.is_video()
    }

    /// The video fields, when this is a video description.
    pub fn video(&self) -> (r: Option<&Video>)
        ensures
            r is Some <==> self.data is Video,
            r is Some ==> *r.unwrap() == self.data->Video_0,
    {
        self.data.video()
    }

    /// A known audio format.
    pub fn is_audio(&self) -> (r: bool)
        ensures
            r == (self.data_format is Audio && !(self.data_format->Audio_0 is Unknown)),
    {
        self.data_format.is_audio()
    }

    /// The sound fields, when this is an audio description.
    pub fn audio(&self) -> (r: Option<&Audio>)
        ensures
            r is Some <==> self.data is Audio,
            r is Some ==> *r.unwrap() == self.data->Audio_0,
    {
        self.data.audio()
    }

    /// Neither video nor audio.
    pub fn is_binary(&self) -> (r: bool)
        ensures
            r == (self.data_format is Binary),
    {
        self.data_format.is_binary()
    }

    /// The raw bytes, when this description is neither video nor audio.
    pub fn binary(&self) -> (r: Option<&[u8]>)
        ensures
            r is Some <==> self.data is Binary,
            r is Some ==> r.unwrap()@ == self.data->Binary_0@,
    {
        self.data.binary()
    }

    /// `(width, height)` in pixels, when this is a video description.
    pub fn resolution(&self) -> (r: Option<(u16, u16)>)
        ensures
            r is Some <==> self.data is Video,
            r is Some ==> r.unwrap() == (self.data->Video_0.width, self.data->Video_0.height),
    {
        match self.video() {
            Some(v) => Some((v.width, v.height)),
            None => None,
        }
    }
}

/// Index of record `i` in an `stsd` payload: the records follow one another
/// from index 8, each as long as its size field says.
pub open spec fn record_at(b: Seq<u8>, i: int) -> int
    decreases i,
{
    if i <= 0 {
        8
    } else {
        let p = record_at(b, i - 1);
        p + be_u32_at(b, p)
    }
}

/// Kind of record `i` of an `stsd` payload, by its format code.
pub open spec fn record_format(p: Seq<u8>, i: int) -> DataFormat {
    data_format_of(be_u32_at(p, record_at(p, i) + 4) as u32)
}

/// Whether some record of an `stsd` payload has a video format.
pub open spec fn has_video(p: Seq<u8>) -> bool {
    exists|i: int| 0 <= i < be_u32_at(p, 4) && #[trigger] record_format(p, i) is Video
}

/// Whether some record of an `stsd` payload has an audio format.
pub open spec fn has_audio(p: Seq<u8>) -> bool {
    exists|i: int| 0 <= i < be_u32_at(p, 4) && #[trigger] record_format(p, i) is Audio
}

/// Whether some record of an `stsd` payload has neither.
pub open spec fn has_binary(p: Seq<u8>) -> bool {
    exists|i: int| 0 <= i < be_u32_at(p, 4) && #[trigger] record_format(p, i) is Binary
}

/// Index of the first record of `x` whose contents are video, the records
/// before it being of other kinds.
pub open spec fn first_video_at(x: Stsd, i: int) -> bool {
    &&& 0 <= i < x.descriptions@.len()
    &&& x.descriptions@[i].data is Video
    &&& forall|k: int| 0 <= k < i ==> !(#[trigger] x.descriptions@[k].data is Video)
}

/// Index of the first record of `x` whose contents are audio.
pub open spec fn first_audio_at(x: Stsd, i: int) -> bool {
    &&& 0 <= i < x.descriptions@.len()
    &&& x.descriptions@[i].data is Audio
    &&& forall|k: int| 0 <= k < i ==> !(#[trigger] x.descriptions@[k].data is Audio)
}

/// Whether `n` records can be decoded one after another from index `off`.
pub open spec fn records_fit(b: Seq<u8>, off: int, n: int) -> bool
    decreases n,
{
    if n <= 0 {
        true
    } else {
        0 <= off <= b.len() && record_fits(b.subrange(off, b.len() as int)) && records_fit(
            b,
            off + be_u32_at(b, off),
            n - 1,
        )
    }
}

/// Sample description atom (`stsd`).
#[derive(Debug, Clone)]
pub struct Stsd {
    pub version: u8,
    pub flags: [u8; 3],
    pub descriptions: Vec<SampleDescription>,
}

impl Stsd {
    /// This value is what the payload `p` holds: one description per record.
    #[verifier::opaque]
    pub open spec fn parsed_from(&self, p: Seq<u8>) -> bool {
        &&& p.len() >= 8
        &&& self.descriptions@.len() == be_u32_at(p, 4)
        &&& forall|i: int|
            0 <= i < self.descriptions@.len() ==> 8 <= record_at(p, i) && record_at(p, i) + (
            #[trigger] self.descriptions@[i]).size <= p.len() && self.descriptions@[i].parsed_from(
                p.subrange(record_at(p, i), record_at(p, i) + self.descriptions@[i].size),
            )
    }

    /// Decodes the payload of an `stsd` atom: version, flags, a count, and
    /// that many records one after another.
    pub fn parse(b: &[u8]) -> (r: Result<Stsd, Mp4Error>)
        ensures
            r is Ok <==> (b@.len() >= 8 && records_fit(b@, 8, be_u32_at(b@, 4))),
            r is Ok ==> r->Ok_0.version == b@[0] && r->Ok_0.flags@ == b@.subrange(1, 4)
                && r->Ok_0.descriptions@.len() == be_u32_at(b@, 4),
            r is Ok ==> r->Ok_0.parsed_from(b@),
    {
        reveal(Stsd::parsed_from);
        check_len(b, 8)?;
        let n = u32_at(b, 4);
        let mut descriptions: Vec<SampleDescription> = Vec::new();
        let mut off: usize = 8;
        let mut i: u32 = 0;
        while i < n
            invariant
                b@.len() >= 8,
                n == be_u32_at(b@, 4),
                8 <= off <= b@.len(),
                i <= n,
                descriptions@.len() == i,
                off == record_at(b@, i as int),
                records_fit(b@, 8, n as int) == records_fit(b@, off as int, (n - i) as int),
                forall|k: int|
                    0 <= k < i ==> 8 <= record_at(b@, k) && record_at(b@, k) + (#[trigger] descriptions@[k]).size
                        <= b@.len() && descriptions@[k].parsed_from(
                        b@.subrange(record_at(b@, k), record_at(b@, k) + descriptions@[k].size),
                    ),
            decreases n - i,
        {
            let rest = copy_range(b, off, b.len());
            let d = match SampleDescription::parse(&rest) {
                Ok(d) => d,
                Err(e) => {
                    return Err(e);
                },
            };
            proof {
                assert(be_u32_at(rest@, 0) == be_u32_at(b@, off as int));
                assert(rest@.subrange(0, d.size as int) =~= b@.subrange(off as int, off + d.size));
            }
            off = off + d.size as usize;
            descriptions.push(d);
            i = i + 1;
        }
        Ok(Stsd { version: u8_at(b, 0), flags: crate::bytes::array3_at(b, 1), descriptions })
    }

    /// Each description's kind is that of its record's format code; video
    /// and audio kinds hold video and audio fields.
    pub proof fn lemma_formats(&self, p: Seq<u8>)
        requires
            self.parsed_from(p),
        ensures
            forall|i: int|
                0 <= i < self.descriptions@.len() ==> (#[trigger] self.descriptions@[i]).data_format == record_format(p, i)
                    && (self.descriptions@[i].data is Video <==> self.descriptions@[i].data_format is Video)
                    && (self.descriptions@[i].data is Audio <==> self.descriptions@[i].data_format is Audio)
                    && (self.descriptions@[i].data is Binary <==> self.descriptions@[i].data_format is Binary)
                    && !(self.descriptions@[i].data_format == DataFormat::Video(VideoFormat::Unknown))
                    && !(self.descriptions@[i].data_format == DataFormat::Audio(AudioFormat::Unknown)),
    {
        reveal(Stsd::parsed_from);
        assert forall|i: int| 0 <= i < self.descriptions@.len() implies (#[trigger] self.descriptions@[i]).data_format
            == record_format(p, i) && (self.descriptions@[i].data is Video <==> self.descriptions@[i].data_format is Video)
            && (self.descriptions@[i].data is Audio <==> self.descriptions@[i].data_format is Audio)
            && (self.descriptions@[i].data is Binary <==> self.descriptions@[i].data_format is Binary)
            && !(self.descriptions@[i].data_format == DataFormat::Video(VideoFormat::Unknown))
            && !(self.descriptions@[i].data_format == DataFormat::Audio(AudioFormat::Unknown)) by {
            let d = self.descriptions@[i];
            let r = record_at(p, i);
            let rec = p.subrange(r, r + d.size);
            assert(d.parsed_from(rec));
            assert(rec[4] == p[r + 4] && rec[5] == p[r + 5] && rec[6] == p[r + 6] && rec[7] == p[r + 7]);
        }
    }

    /// The kind tests on the decoded descriptions agree with the format codes
    /// of the payload's records.
    pub proof fn lemma_kinds(&self, p: Seq<u8>)
        requires
            self.parsed_from(p),
        ensures
            (exists|i: int| 0 <= i < self.descriptions@.len() && #[trigger] self.descriptions@[i].data_format is Video
                && !(self.descriptions@[i].data_format->Video_0 is Unknown)) == has_video(p),
            (exists|i: int| 0 <= i < self.descriptions@.len() && #[trigger] self.descriptions@[i].data_format is Audio
                && !(self.descriptions@[i].data_format->Audio_0 is Unknown)) == has_audio(p),
            (exists|i: int| 0 <= i < self.descriptions@.len() && #[trigger] self.descriptions@[i].data_format is Binary)
                == has_binary(p),
            has_video(p) ==> exists|i: int| 0 <= i < self.descriptions@.len() && #[trigger] self.descriptions@[i].data is Video,
            has_audio(p) ==> exists|i: int| 0 <= i < self.descriptions@.len() && #[trigger] self.descriptions@[i].data is Audio,
    {
        self.lemma_formats(p);
        reveal(Stsd::parsed_from);
        if has_video(p) {
            let i = choose|i: int| 0 <= i < be_u32_at(p, 4) && #[trigger] record_format(p, i) is Video;
            assert(self.descriptions@[i].data_format is Video);
        }
        if has_audio(p) {
            let i = choose|i: int| 0 <= i < be_u32_at(p, 4) && #[trigger] record_format(p, i) is Audio;
            assert(self.descriptions@[i].data_format is Audio);
        }
        if has_binary(p) {
            let i = choose|i: int| 0 <= i < be_u32_at(p, 4) && #[trigger] record_format(p, i) is Binary;
            assert(self.descriptions@[i].data_format is Binary);
        }
    }

    /// All sample descriptions, in order.
    pub fn descriptions(&self) -> (r: &[SampleDescription])
        ensures
            r@ == self.descriptions@,
    {
        self.descriptions.as_slice()
    }

    /// Index of the first description whose contents are video.
    fn first_video(&self) -> (r: Option<usize>)
        ensures
            r is Some ==> r.unwrap() < self.descriptions@.len() && self.descriptions@[r.unwrap() as int].data is Video,
            r is None ==> forall|i: int| 0 <= i < self.descriptions@.len() ==> !(#[trigger] self.descriptions@[i].data is Video),
            r is Some ==> forall|i: int| 0 <= i < r.unwrap() ==> !(#[trigger] self.descriptions@[i].data is Video),
    {
        let mut i: usize = 0;
        while i < self.descriptions.len()
            invariant
                i <= self.descriptions@.len(),
                forall|k: int| 0 <= k < i ==> !(#[trigger] self.descriptions@[k].data is Video),
            decreases self.descriptions@.len() - i,
        {
            if let DataLoad::Video(_) = &self.descriptions[i].data {
                return Some(i);
            }
            i = i + 1;
        }
        None
    }

    /// Index of the first description whose contents are audio.
    fn first_audio(&self) -> (r: Option<usize>)
        ensures
            r is Some ==> r.unwrap() < self.descriptions@.len() && self.descriptions@[r.unwrap() as int].data is Audio,
            r is None ==> forall|i: int| 0 <= i < self.descriptions@.len() ==> !(#[trigger] self.descriptions@[i].data is Audio),
            r is Some ==> forall|i: int| 0 <= i < r.unwrap() ==> !(#[trigger] self.descriptions@[i].data is Audio),
    {
        let mut i: usize = 0;
        while i < self.descriptions.len()
            invariant
                i <= self.descriptions@.len(),
                forall|k: int| 0 <= k < i ==> !(#[trigger] self.descriptions@[k].data is Audio),
            decreases self.descriptions@.len() - i,
        {
            if let DataLoad::Audio(_) = &self.descriptions[i].data {
                return Some(i);
            }
            i = i + 1;
        }
        None
    }

    /// Index of the first description whose contents are raw bytes.
    fn first_binary(&self) -> (r: Option<usize>)
        ensures
            r is Some ==> r.unwrap() < self.descriptions@.len() && self.descriptions@[r.unwrap() as int].data is Binary,
            r is None ==> forall|i: int| 0 <= i < self.descriptions@.len() ==> !(#[trigger] self.descriptions@[i].data is Binary),
            r is Some ==> forall|i: int| 0 <= i < r.unwrap() ==> !(#[trigger] self.descriptions@[i].data is Binary),
    {
        let mut i: usize = 0;
        while i < self.descriptions.len()
            invariant
                i <= self.descriptions@.len(),
                forall|k: int| 0 <= k < i ==> !(#[trigger] self.descriptions@[k].data is Binary),
            decreases self.descriptions@.len() - i,
        {
            if let DataLoad::Binary(_) = &self.descriptions[i].data {
                return Some(i);
            }
            i = i + 1;
        }
        None
    }

    /// Whether some description is a known video format.
    pub fn is_video(&self) -> (r: bool)
        ensures
            r == exists|i: int| 0 <= i < self.descriptions@.len() && #[trigger] self.descriptions@[i].data_format is Video
                && !(self.descriptions@[i].data_format->Video_0 is Unknown),
    {
        let mut i: usize = 0;
        while i < self.descriptions.len()
            invariant
                i <= self.descriptions@.len(),
                forall|k: int| 0 <= k < i ==> !(#[trigger] self.descriptions@[k].data_format is Video
                    && !(self.descriptions@[k].data_format->Video_0 is Unknown)),
            decreases self.descriptions@.len() - i,
        {
            if self.descriptions[i].is_video() {
                return true;
            }
            i = i + 1;
        }
        false
    }

    /// Whether some description is a known audio format.
    pub fn is_audio(&self) -> (r: bool)
        ensures
            r == exists|i: int| 0 <= i < self.descriptions@.len() && #[trigger] self.descriptions@[i].data_format is Audio
                && !(self.descriptions@[i].data_format->Audio_0 is Unknown),
    {
        let mut i: usize = 0;
        while i < self.descriptions.len()
            invariant
                i <= self.descriptions@.len(),
                forall|k: int| 0 <= k < i ==> !(#[trigger] self.descriptions@[k].data_format is Audio
                    && !(self.descriptions@[k].data_format->Audio_0 is Unknown)),
            decreases self.descriptions@.len() - i,
        {
            if self.descriptions[i].is_audio() {
                return true;
            }
            i = i + 1;
        }
        false
    }

    /// Whether some description is neither video nor audio.
    pub fn is_binary(&self) -> (r: bool)
        ensures
            r == exists|i: int| 0 <= i < self.descriptions@.len() && #[trigger] self.descriptions@[i].data_format is Binary,
    {
        let mut i: usize = 0;
        while i < self.descriptions.len()
            invariant
                i <= self.descriptions@.len(),
                forall|k: int| 0 <= k < i ==> !(#[trigger] self.descriptions@[k].data_format is Binary),
            decreases self.descriptions@.len() - i,
        {
            if self.descriptions[i].is_binary() {
                return true;
            }
            i = i + 1;
        }
        false
    }

    /// The first video description's fields.
    pub fn video(&self) -> (r: Option<&Video>)
        ensures
            r is None <==> forall|i: int| 0 <= i < self.descriptions@.len() ==> !(#[trigger] self.descriptions@[i].data is Video),
            r is Some ==> exists|i: int| 0 <= i < self.descriptions@.len() && *r.unwrap() == (
                #[trigger] self.descriptions@[i]).data->Video_0 && self.descriptions@[i].data is Video
                && forall|k: int| 0 <= k < i ==> !(#[trigger] self.descriptions@[k].data is Video),
    {
        match self.first_video() {
            Some(i) => self.descriptions[i].video(),
            None => None,
        }
    }

    /// The first audio description's fields.
    pub fn audio(&self) -> (r: Option<&Audio>)
        ensures
            r is None <==> forall|i: int| 0 <= i < self.descriptions@.len() ==> !(#[trigger] self.descriptions@[i].data is Audio),
            r is Some ==> exists|i: int| 0 <= i < self.descriptions@.len() && *r.unwrap() == (
                #[trigger] self.descriptions@[i]).data->Audio_0 && self.descriptions@[i].data is Audio
                && forall|k: int| 0 <= k < i ==> !(#[trigger] self.descriptions@[k].data is Audio),
    {
        match self.first_audio() {
            Some(i) => self.descriptions[i].audio(),
            None => None,
        }
    }

    /// The first binary description's bytes.
    pub fn binary(&self) -> (r: Option<&[u8]>)
        ensures
            r is None <==> forall|i: int| 0 <= i < self.descriptions@.len() ==> !(#[trigger] self.descriptions@[i].data is Binary),
            r is Some ==> exists|i: int| 0 <= i < self.descriptions@.len() && r.unwrap()@ == (
                #[trigger] self.descriptions@[i]).data->Binary_0@ && self.descriptions@[i].data is Binary
                && forall|k: int| 0 <= k < i ==> !(#[trigger] self.descriptions@[k].data is Binary),
    {
        match self.first_binary() {
            Some(i) => self.descriptions[i].binary(),
            None => None,
        }
    }

    /// Format of the first description with a video format.
    pub fn video_format(&self) -> (r: Option<VideoFormat>)
        ensures
            r is None <==> forall|i: int| 0 <= i < self.descriptions@.len() ==> !(#[trigger] self.descriptions@[i].data_format is Video),
            r is Some ==> exists|i: int| 0 <= i < self.descriptions@.len() && (#[trigger] self.descriptions@[i]).data_format
                == DataFormat::Video(r.unwrap()) && forall|k: int| 0 <= k < i ==> !(#[trigger] self.descriptions@[k].data_format is Video),
    {
        let mut i: usize = 0;
        while i < self.descriptions.len()
            invariant
                i <= self.descriptions@.len(),
                forall|k: int| 0 <= k < i ==> !(#[trigger] self.descriptions@[k].data_format is Video),
            decreases self.descriptions@.len() - i,
        {
            if let DataFormat::Video(f) = self.descriptions[i].data_format {
                return Some(f);
            }
            i = i + 1;
        }
        None
    }

    /// Format of the first description with an audio format.
    pub fn audio_format(&self) -> (r: Option<AudioFormat>)
        ensures
            r is None <==> forall|i: int| 0 <= i < self.descriptions@.len() ==> !(#[trigger] self.descriptions@[i].data_format is Audio),
            r is Some ==> exists|i: int| 0 <= i < self.descriptions@.len() && (#[trigger] self.descriptions@[i]).data_format
                == DataFormat::Audio(r.unwrap()) && forall|k: int| 0 <= k < i ==> !(#[trigger] self.descriptions@[k].data_format is Audio),
    {
        let mut i: usize = 0;
        while i < self.descriptions.len()
            invariant
                i <= self.descriptions@.len(),
                forall|k: int| 0 <= k < i ==> !(#[trigger] self.descriptions@[k].data_format is Audio),
            decreases self.descriptions@.len() - i,
        {
            if let DataFormat::Audio(f) = self.descriptions[i].data_format {
                return Some(f);
            }
            i = i + 1;
        }
        None
    }

    /// `(width, height)` of the first video description.
    pub fn resolution(&self) -> (r: Option<(u16, u16)>)
        ensures
            r is None <==> forall|i: int| 0 <= i < self.descriptions@.len() ==> !(#[trigger] self.descriptions@[i].data is Video),
            r is Some ==> exists|i: int| 0 <= i < self.descriptions@.len() && (#[trigger] self.descriptions@[i]).data is Video
                && r.unwrap() == (self.descriptions@[i].data->Video_0.width, self.descriptions@[i].data->Video_0.height)
                && forall|k: int| 0 <= k < i ==> !(#[trigger] self.descriptions@[k].data is Video),
    {
        match self.first_video() {
            Some(i) => self.descriptions[i].resolution(),
            None => None,
        }
    }

    /// Sample rate in whole Hz of the first audio description.
    pub fn sample_rate(&self) -> (r: Option<u32>)
        ensures
            r is None <==> forall|i: int| 0 <= i < self.descriptions@.len() ==> !(#[trigger] self.descriptions@[i].data is Audio),
            r is Some ==> exists|i: int| 0 <= i < self.descriptions@.len() && (#[trigger] self.descriptions@[i]).data is Audio
                && r.unwrap() == self.descriptions@[i].data->Audio_0.sample_rate / 0x10000
                && forall|k: int| 0 <= k < i ==> !(#[trigger] self.descriptions@[k].data is Audio),
    {
        match self.first_audio() {
            Some(i) => match self.descriptions[i].audio() {
                Some(a) => Some(a.sample_rate()),
                None => None,
            },
            None => None,
        }
    }

    /// The time code entry of the first `tmcd` description.
    pub fn tmcd(&self) -> (r: Result<Tmcd, Mp4Error>)
        ensures
            (forall|i: int| 0 <= i < self.descriptions@.len() ==> !(#[trigger] self.descriptions@[i].format == TMCD
                && self.descriptions@[i].data is Binary)) ==> r == Err::<Tmcd, Mp4Error>(Mp4Error::NoSuchAtom(FourCC::Tmcd)),
            forall|i: int|
                0 <= i < self.descriptions@.len() && is_time_code(#[trigger] self.descriptions@[i]) && (forall|k: int|
                    0 <= k < i ==> !is_time_code(#[trigger] self.descriptions@[k])) ==> (r is Ok <==> self.descriptions@[i].data->Binary_0@.len() >= 18)
                    && (r is Ok ==> tmcd_from(r->Ok_0, self.descriptions@[i].data->Binary_0@)),
            r is Ok ==> exists|i: int|
                0 <= i < self.descriptions@.len() && is_time_code(#[trigger] self.descriptions@[i]) && tmcd_from(
                    r->Ok_0,
                    self.descriptions@[i].data->Binary_0@,
                ),
    {
        let mut i: usize = 0;
        while i < self.descriptions.len()
            invariant
                i <= self.descriptions@.len(),
                forall|k: int| 0 <= k < i ==> !(#[trigger] self.descriptions@[k].format == TMCD
                    && self.descriptions@[k].data is Binary),
            decreases self.descriptions@.len() - i,
        {
            let d = &self.descriptions[i];
            if d.format == TMCD {
                if let DataLoad::Binary(_) = &d.data {
                    return d.tmcd();
                }
            }
            i = i + 1;
        }
        Err(Mp4Error::NoSuchAtom(FourCC::Tmcd))
    }
}

} // verus!

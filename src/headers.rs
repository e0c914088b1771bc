//! Header atoms: movie header (`mvhd`), track header (`tkhd`), media header
//! (`mdhd`), handler reference (`hdlr`), video and sound media headers
//! (`vmhd`, `smhd`) and file type (`ftyp`).
//!
//! Every decoder takes the atom's payload; integers are big-endian.

use vstd::prelude::*;

use crate::bytes::{
    array3_at, array4_at, be_u16_at, be_u32_at, copy_range, drop_nul, latin1, latin1_string,
    lemma_be_u16_round_trip, lemma_be_u32_round_trip, remove_nul, trim, trim_space, u16_at, u16_be_bytes,
    u32_at, u32_be_bytes, u8_at,
};
use crate::calendar::{mp4_datetime, DateTime};
use crate::error::Mp4Error;
use crate::timing::{effective_scale, Duration};
use crate::tables::check_len;

verus! {

/// Movie header atom (`mvhd`).
#[derive(Debug, Clone)]
pub struct Mvhd {
    pub version: u8,
    pub flags: [u8; 3],
    /// Seconds since midnight, 1904-01-01.
    pub creation_time: u32,
    /// Seconds since midnight, 1904-01-01.
    pub modification_time: u32,
    /// Time units per second for the movie.
    pub time_scale: u32,
    /// Unscaled duration of the longest track.
    pub duration: u32,
    /// 16.16 fixed-point preferred play rate.
    pub preferred_rate: u32,
    /// 8.8 fixed-point preferred volume.
    pub preferred_volume: u16,
    pub reserved: Vec<u8>,
    pub matrix: Vec<u8>,
    pub preview_time: u32,
    pub preview_duration: u32,
    pub poster_time: u32,
    pub selection_time: u32,
    pub selection_duration: u32,
    pub current_time: u32,
    pub next_track_id: u32,
}

impl Mvhd {
    /// This value is what the payload `b` holds.
    pub open spec fn parsed_from(&self, b: Seq<u8>) -> bool {
        &&& b.len() >= 100
        &&& self.version == b[0]
        &&& self.flags@ == b.subrange(1, 4)
        &&& self.creation_time == be_u32_at(b, 4)
        &&& self.modification_time == be_u32_at(b, 8)
        &&& self.time_scale == be_u32_at(b, 12)
        &&& self.duration == be_u32_at(b, 16)
        &&& self.preferred_rate == be_u32_at(b, 20)
        &&& self.preferred_volume == be_u16_at(b, 24)
        &&& self.reserved@ == b.subrange(26, 36)
        &&& self.matrix@ == b.subrange(36, 72)
        &&& self.preview_time == be_u32_at(b, 72)
        &&& self.preview_duration == be_u32_at(b, 76)
        &&& self.poster_time == be_u32_at(b, 80)
        &&& self.selection_time == be_u32_at(b, 84)
        &&& self.selection_duration == be_u32_at(b, 88)
        &&& self.current_time == be_u32_at(b, 92)
        &&& self.next_track_id == be_u32_at(b, 96)
    }

    /// The bytes this value is written as.
    pub open spec fn layout(&self) -> Seq<u8> {
        seq![self.version] + self.flags@ + u32_be_bytes(self.creation_time) + u32_be_bytes(self.modification_time)
            + u32_be_bytes(self.time_scale) + u32_be_bytes(self.duration) + u32_be_bytes(self.preferred_rate)
            + u16_be_bytes(self.preferred_volume) + self.reserved@ + self.matrix@ + u32_be_bytes(self.preview_time)
            + u32_be_bytes(self.preview_duration) + u32_be_bytes(self.poster_time) + u32_be_bytes(
            self.selection_time,
        ) + u32_be_bytes(self.selection_duration) + u32_be_bytes(self.current_time) + u32_be_bytes(
            self.next_track_id,
        )
    }

    /// Decodes the payload of an `mvhd` atom.
    pub fn parse(b: &[u8]) -> (r: Result<Mvhd, Mp4Error>)
        ensures
            r is Ok <==> b@.len() >= 100,
            r is Ok ==> r->Ok_0.parsed_from(b@),
            r is Err ==> r->Err_0 is ReadMismatch,
    {
        check_len(b, 100)?;
        Ok(Mvhd {
            version: u8_at(b, 0),
            flags: array3_at(b, 1),
            creation_time: u32_at(b, 4),
            modification_time: u32_at(b, 8),
            time_scale: u32_at(b, 12),
            duration: u32_at(b, 16),
            preferred_rate: u32_at(b, 20),
            preferred_volume: u16_at(b, 24),
            reserved: copy_range(b, 26, 36),
            matrix: copy_range(b, 36, 72),
            preview_time: u32_at(b, 72),
            preview_duration: u32_at(b, 76),
            poster_time: u32_at(b, 80),
            selection_time: u32_at(b, 84),
            selection_duration: u32_at(b, 88),
            current_time: u32_at(b, 92),
            next_track_id: u32_at(b, 96),
        })
    }

    /// Movie time scale (units per second).
    pub fn time_scale(&self) -> (r: u32)
        ensures
            r == self.time_scale,
    {
        self.time_scale
    }

    /// Unscaled duration of the longest track.
    pub fn duration_unscaled(&self) -> (r: u32)
        ensures
            r == self.duration,
    {
        self.duration
    }

    /// Duration of the longest track, in the movie time scale (zero read as one).
    pub fn duration(&self) -> (r: Duration)
        ensures
            r.ticks == self.duration,
            r.time_scale == effective_scale(self.time_scale),
    {
        Duration::from_ticks(self.duration as u128, self.time_scale)
    }

    /// Creation date and time.
    pub fn creation_time(&self) -> (r: DateTime)
        ensures
            r == mp4_datetime(self.creation_time),
    {
        DateTime::from_mp4_seconds(self.creation_time)
    }

    /// Modification date and time.
    pub fn modification_time(&self) -> (r: DateTime)
        ensures
            r == mp4_datetime(self.modification_time),
    {
        DateTime::from_mp4_seconds(self.modification_time)
    }

    /// ID the next new track would get.
    pub fn next_track_id(&self) -> (r: u32)
        ensures
            r == self.next_track_id,
    {
        self.next_track_id
    }
}

/// Writing a decoded `mvhd` back with the same layout gives the bytes it was
/// decoded from.
pub proof fn lemma_mvhd_round_trip(x: Mvhd, b: Seq<u8>)
    requires
        x.parsed_from(b),
    ensures
        x.layout() == b.subrange(0, 100),
{
    lemma_be_u32_round_trip(b, 4, x.creation_time);
    lemma_be_u32_round_trip(b, 8, x.modification_time);
    lemma_be_u32_round_trip(b, 12, x.time_scale);
    lemma_be_u32_round_trip(b, 16, x.duration);
    lemma_be_u32_round_trip(b, 20, x.preferred_rate);
    lemma_be_u16_round_trip(b, 24, x.preferred_volume);
    lemma_be_u32_round_trip(b, 72, x.preview_time);
    lemma_be_u32_round_trip(b, 76, x.preview_duration);
    lemma_be_u32_round_trip(b, 80, x.poster_time);
    lemma_be_u32_round_trip(b, 84, x.selection_time);
    lemma_be_u32_round_trip(b, 88, x.selection_duration);
    lemma_be_u32_round_trip(b, 92, x.current_time);
    lemma_be_u32_round_trip(b, 96, x.next_track_id);
    assert(x.layout() =~= b.subrange(0, 100));
}

/// Track header atom (`tkhd`).
#[derive(Debug, Clone)]
pub struct Tkhd {
    pub version: u8,
    pub flags: [u8; 3],
    /// Seconds since midnight, 1904-01-01.
    pub creation_time: u32,
    /// Seconds since midnight, 1904-01-01.
    pub modification_time: u32,
    /// Identifies the track; never 0.
    pub track_id: u32,
    pub reserved1: [u8; 4],
    /// Unscaled duration, in the movie's time scale.
    pub duration: u32,
    pub reserved2: Vec<u8>,
    pub layer: u16,
    pub alternate_group: u16,
    /// 8.8 fixed-point volume.
    pub volume: u16,
    pub reserved3: Vec<u8>,
    pub matrix_structure: Vec<u8>,
    /// 16.16 fixed-point width in pixels.
    pub track_width: u32,
    /// 16.16 fixed-point height in pixels.
    pub track_height: u32,
}

impl Tkhd {
    /// This value is what the payload `b` holds.
    pub open spec fn parsed_from(&self, b: Seq<u8>) -> bool {
        &&& b.len() >= 84
        &&& self.version == b[0]
        &&& self.flags@ == b.subrange(1, 4)
        &&& self.creation_time == be_u32_at(b, 4)
        &&& self.modification_time == be_u32_at(b, 8)
        &&& self.track_id == be_u32_at(b, 12)
        &&& self.reserved1@ == b.subrange(16, 20)
        &&& self.duration == be_u32_at(b, 20)
        &&& self.reserved2@ == b.subrange(24, 32)
        &&& self.layer == be_u16_at(b, 32)
        &&& self.alternate_group == be_u16_at(b, 34)
        &&& self.volume == be_u16_at(b, 36)
        &&& self.reserved3@ == b.subrange(38, 40)
        &&& self.matrix_structure@ == b.subrange(40, 76)
        &&& self.track_width == be_u32_at(b, 76)
        &&& self.track_height == be_u32_at(b, 80)
    }

    /// The bytes this value is written as.
    pub open spec fn layout(&self) -> Seq<u8> {
        seq![self.version] + self.flags@ + u32_be_bytes(self.creation_time) + u32_be_bytes(self.modification_time)
            + u32_be_bytes(self.track_id) + self.reserved1@ + u32_be_bytes(self.duration) + self.reserved2@
            + u16_be_bytes(self.layer) + u16_be_bytes(self.alternate_group) + u16_be_bytes(self.volume)
            + self.reserved3@ + self.matrix_structure@ + u32_be_bytes(self.track_width) + u32_be_bytes(
            self.track_height,
        )
    }

    /// Decodes the payload of a `tkhd` atom.
    pub fn parse(b: &[u8]) -> (r: Result<Tkhd, Mp4Error>)
        ensures
            r is Ok <==> b@.len() >= 84,
            r is Ok ==> r->Ok_0.parsed_from(b@),
            r is Err ==> r->Err_0 is ReadMismatch,
    {
        check_len(b, 84)?;
        Ok(Tkhd {
            version: u8_at(b, 0),
            flags: array3_at(b, 1),
            creation_time: u32_at(b, 4),
            modification_time: u32_at(b, 8),
            track_id: u32_at(b, 12),
            reserved1: array4_at(b, 16),
            duration: u32_at(b, 20),
            reserved2: copy_range(b, 24, 32),
            layer: u16_at(b, 32),
            alternate_group: u16_at(b, 34),
            volume: u16_at(b, 36),
            reserved3: copy_range(b, 38, 40),
            matrix_structure: copy_range(b, 40, 76),
            track_width: u32_at(b, 76),
            track_height: u32_at(b, 80),
        })
    }

    /// Track ID.
    pub fn track_id(&self) -> (r: u32)
        ensures
            r == self.track_id,
    {
        self.track_id
    }

    /// Spatial priority of the track in its movie.
    pub fn layer(&self) -> (r: u16)
        ensures
            r == self.layer,
    {
        self.layer
    }

    /// Group of tracks that are alternatives to each other.
    pub fn alternate_group(&self) -> (r: u16)
        ensures
            r == self.alternate_group,
    {
        self.alternate_group
    }

    /// Unscaled track duration, in the movie's time scale.
    pub fn duration(&self) -> (r: u32)
        ensures
            r == self.duration,
    {
        self.duration
    }

    /// Creation date and time.
    pub fn creation_time(&self) -> (r: DateTime)
        ensures
            r == mp4_datetime(self.creation_time),
    {
        DateTime::from_mp4_seconds(self.creation_time)
    }

    /// Modification date and time.
    pub fn modification_time(&self) -> (r: DateTime)
        ensures
            r == mp4_datetime(self.modification_time),
    {
        DateTime::from_mp4_seconds(self.modification_time)
    }

    /// The 36-byte transformation matrix.
    pub fn matrix_structure(&self) -> (r: &[u8])
        ensures
            r@ == self.matrix_structure@,
    {
        self.matrix_structure.as_slice()
    }

    /// Width in whole pixels (the integer part of the 16.16 value); 0 for
    /// tracks that are not video.
    pub fn width(&self) -> (r: u32)
        ensures
            r == self.track_width / 0x10000,
    {
        self.track_width / 0x10000
    }

    /// Height in whole pixels (the integer part of the 16.16 value); 0 for
    /// tracks that are not video.
    pub fn height(&self) -> (r: u32)
        ensures
            r == self.track_height / 0x10000,
    {
        self.track_height / 0x10000
    }
}

/// Writing a decoded `tkhd` back with the same layout gives the bytes it was
/// decoded from.
pub proof fn lemma_tkhd_round_trip(x: Tkhd, b: Seq<u8>)
    requires
        x.parsed_from(b),
    ensures
        x.layout() == b.subrange(0, 84),
{
    lemma_be_u32_round_trip(b, 4, x.creation_time);
    lemma_be_u32_round_trip(b, 8, x.modification_time);
    lemma_be_u32_round_trip(b, 12, x.track_id);
    lemma_be_u32_round_trip(b, 20, x.duration);
    lemma_be_u16_round_trip(b, 32, x.layer);
    lemma_be_u16_round_trip(b, 34, x.alternate_group);
    lemma_be_u16_round_trip(b, 36, x.volume);
    lemma_be_u32_round_trip(b, 76, x.track_width);
    lemma_be_u32_round_trip(b, 80, x.track_height);
    assert(x.layout() =~= b.subrange(0, 84));
}

/// The three letters of a packed ISO-639-2/T language code: three 5-bit
/// groups below a padding bit, each added to `0x60`.
pub open spec fn language_chars(code: u16) -> Seq<char> {
    seq![
        ((code / 0x400) % 0x20 + 0x60) as char,
        ((code / 0x20) % 0x20 + 0x60) as char,
        (code % 0x20 + 0x60) as char,
    ]
}

/// Decodes a packed ISO-639-2/T language code into its three letters:
/// `0x55C4` is `"und"`, `0x15C7` is `"eng"`.
pub fn derive_language_code(data: u16) -> (r: String)
    ensures
        r@ == language_chars(data),
{
    let b: [u8; 3] = [
        ((data / 0x400) % 0x20) as u8 + 0x60,
        ((data / 0x20) % 0x20) as u8 + 0x60,
        (data % 0x20) as u8 + 0x60,
    ];
    let r = latin1_string(&b);
    proof {
        assert(r@ =~= language_chars(data));
    }
    r
}

/// Media header atom (`mdhd`): time scale and duration of one track.
#[derive(Debug, Clone)]
pub struct Mdhd {
    pub version: u8,
    pub flags: [u8; 3],
    /// Seconds since midnight, 1904-01-01.
    pub creation_time: u32,
    /// Seconds since midnight, 1904-01-01.
    pub modification_time: u32,
    /// Time units per second for this track.
    pub time_scale: u32,
    /// Unscaled duration.
    pub duration: u32,
    /// Packed ISO-639-2/T language code.
    pub language_code: u16,
    pub quality: u16,
}

impl Mdhd {
    /// This value is what the payload `b` holds.
    pub open spec fn parsed_from(&self, b: Seq<u8>) -> bool {
        &&& b.len() >= 24
        &&& self.version == b[0]
        &&& self.flags@ == b.subrange(1, 4)
        &&& self.creation_time == be_u32_at(b, 4)
        &&& self.modification_time == be_u32_at(b, 8)
        &&& self.time_scale == be_u32_at(b, 12)
        &&& self.duration == be_u32_at(b, 16)
        &&& self.language_code == be_u16_at(b, 20)
        &&& self.quality == be_u16_at(b, 22)
    }

    /// The bytes this value is written as.
    pub open spec fn layout(&self) -> Seq<u8> {
        seq![self.version] + self.flags@ + u32_be_bytes(self.creation_time) + u32_be_bytes(self.modification_time)
            + u32_be_bytes(self.time_scale) + u32_be_bytes(self.duration) + u16_be_bytes(self.language_code)
            + u16_be_bytes(self.quality)
    }

    /// Decodes the payload of an `mdhd` atom.
    pub fn parse(b: &[u8]) -> (r: Result<Mdhd, Mp4Error>)
        ensures
            r is Ok <==> b@.len() >= 24,
            r is Ok ==> r->Ok_0.parsed_from(b@),
            r is Err ==> r->Err_0 is ReadMismatch,
    {
        check_len(b, 24)?;
        Ok(Mdhd {
            version: u8_at(b, 0),
            flags: array3_at(b, 1),
            creation_time: u32_at(b, 4),
            modification_time: u32_at(b, 8),
            time_scale: u32_at(b, 12),
            duration: u32_at(b, 16),
            language_code: u16_at(b, 20),
            quality: u16_at(b, 22),
        })
    }

    /// Seconds since midnight, 1904-01-01.
    pub fn creation_time(&self) -> (r: u32)
        ensures
            r == self.creation_time,
    {
        self.creation_time
    }

    /// Seconds since midnight, 1904-01-01.
    pub fn modification_time(&self) -> (r: u32)
        ensures
            r == self.modification_time,
    {
        self.modification_time
    }

    /// Time units per second for this track.
    pub fn time_scale(&self) -> (r: u32)
        ensures
            r == self.time_scale,
    {
        self.time_scale
    }

    /// Unscaled duration.
    pub fn duration_unscaled(&self) -> (r: u32)
        ensures
            r == self.duration,
    {
        self.duration
    }

    /// Duration in the track's time scale (zero read as one).
    pub fn duration(&self) -> (r: Duration)
        ensures
            r.ticks == self.duration,
            r.time_scale == effective_scale(self.time_scale),
    {
        Duration::from_ticks(self.duration as u128, self.time_scale)
    }

    /// Three-letter ISO-639-2/T language code.
    pub fn language(&self) -> (r: String)
        ensures
            r@ == language_chars(self.language_code),
    {
        derive_language_code(self.language_code)
    }

    /// Playback quality.
    pub fn quality(&self) -> (r: u16)
        ensures
            r == self.quality,
    {
        self.quality
    }
}

/// Writing a decoded `mdhd` back with the same layout gives the bytes it was
/// decoded from.
pub proof fn lemma_mdhd_round_trip(x: Mdhd, b: Seq<u8>)
    requires
        x.parsed_from(b),
    ensures
        x.layout() == b.subrange(0, 24),
{
    lemma_be_u32_round_trip(b, 4, x.creation_time);
    lemma_be_u32_round_trip(b, 8, x.modification_time);
    lemma_be_u32_round_trip(b, 12, x.time_scale);
    lemma_be_u32_round_trip(b, 16, x.duration);
    lemma_be_u16_round_trip(b, 20, x.language_code);
    lemma_be_u16_round_trip(b, 22, x.quality);
    assert(x.layout() =~= b.subrange(0, 24));
}

/// The bytes of a handler name field: when the first byte `c` leaves room
/// for `c` more bytes it is a count and those bytes are the name; otherwise
/// the whole field is.
pub open spec fn handler_name_bytes(rem: Seq<u8>) -> Seq<u8> {
    if rem.len() > 0 && rem[0] + 1 <= rem.len() {
        rem.subrange(1, 1 + rem[0])
    } else {
        rem
    }
}

/// A handler name as text: the name's bytes without zero bytes, trimmed of
/// surrounding whitespace, read as ISO-8859-1.
pub open spec fn handler_name(rem: Seq<u8>) -> Seq<char> {
    latin1(trim(drop_nul(handler_name_bytes(rem))))
}

/// Reads the handler name field: counted or not, zero bytes dropped,
/// whitespace trimmed, bytes read as ISO-8859-1. An empty field has no name.
pub fn bytes2iso8859_1(rem: &[u8]) -> (r: Result<String, Mp4Error>)
    ensures
        r is Ok <==> rem@.len() > 0,
        r is Ok ==> r->Ok_0@ == handler_name(rem@),
        r is Err ==> r == Err::<String, Mp4Error>(Mp4Error::MissingHandlerName),
{
    if rem.len() == 0 {
        return Err(Mp4Error::MissingHandlerName);
    }
    let c = rem[0] as usize;
    let selected = if c + 1 <= rem.len() {
        copy_range(rem, 1, 1 + c)
    } else {
        copy_range(rem, 0, rem.len())
    };
    proof {
        assert(rem@.subrange(0, rem@.len() as int) =~= rem@);
    }
    let cleaned = trim_space(&remove_nul(&selected));
    Ok(latin1_string(&cleaned))
}

/// Kind of media a handler sub-type names.
#[derive(Debug, Clone, Copy, PartialEq, Eq)]
pub enum ComponentType {
    /// `vide`
    Video,
    /// `soun`
    Sound,
    /// `tmcd`
    TimeCode,
    /// `meta`
    Meta,
    /// Any other sub-type.
    Unknown,
}

impl ComponentType {
    /// Kind of media for a big-endian sub-type code.
    pub fn from_u32(value: u32) -> (r: ComponentType)
        ensures
            r == match value {
                0x76696465 => ComponentType::Video,
                0x736f756e => ComponentType::Sound,
                0x746d6364 => ComponentType::TimeCode,
                0x6d657461 => ComponentType::Meta,
                _ => ComponentType::Unknown,
            },
    {
        match value {
            0x76696465 => ComponentType::Video,
            0x736f756e => ComponentType::Sound,
            0x746d6364 => ComponentType::TimeCode,
            0x6d657461 => ComponentType::Meta,
            _ => ComponentType::Unknown,
        }
    }
}

/// Handler reference atom (`hdlr`): what kind of media a track holds and
/// the producer's name for it.
#[derive(Debug, Clone)]
pub struct Hdlr {
    pub version: u8,
    pub flags: [u8; 3],
    /// `mhlr` (media handler), `dhlr` (data handler), or zeros.
    pub component_type: [u8; 4],
    /// Kind of media: `vide`, `soun`, `tmcd`, `meta`, ...
    pub component_sub_type: [u8; 4],
    pub component_manufacturer: u32,
    pub component_flags: u32,
    pub component_flags_mask: u32,
    /// Free-text name, e.g. `GoPro MET`.
    pub component_name: String,
}

impl Hdlr {
    /// This value is what the payload `b` holds.
    pub open spec fn parsed_from(&self, b: Seq<u8>) -> bool {
        &&& b.len() >= 25
        &&& self.version == b[0]
        &&& self.flags@ == b.subrange(1, 4)
        &&& self.component_type@ == b.subrange(4, 8)
        &&& self.component_sub_type@ == b.subrange(8, 12)
        &&& self.component_manufacturer == be_u32_at(b, 12)
        &&& self.component_flags == be_u32_at(b, 16)
        &&& self.component_flags_mask == be_u32_at(b, 20)
        &&& self.component_name@ == handler_name(b.subrange(24, b.len() as int))
    }

    /// The bytes of the fixed fields (all but the name).
    pub open spec fn layout(&self) -> Seq<u8> {
        seq![self.version] + self.flags@ + self.component_type@ + self.component_sub_type@ + u32_be_bytes(
            self.component_manufacturer,
        ) + u32_be_bytes(self.component_flags) + u32_be_bytes(self.component_flags_mask)
    }

    /// Decodes the payload of an `hdlr` atom. Fails with `MissingHandlerName`
    /// when no byte is left for the name.
    pub fn parse(b: &[u8]) -> (r: Result<Hdlr, Mp4Error>)
        ensures
            r is Ok <==> b@.len() >= 25,
            r is Ok ==> r->Ok_0.parsed_from(b@),
            b@.len() < 24 ==> r is Err && r->Err_0 is ReadMismatch,
            b@.len() == 24 ==> r == Err::<Hdlr, Mp4Error>(Mp4Error::MissingHandlerName),
    {
        check_len(b, 24)?;
        let rem = copy_range(b, 24, b.len());
        let component_name = bytes2iso8859_1(&rem)?;
        Ok(Hdlr {
            version: u8_at(b, 0),
            flags: array3_at(b, 1),
            component_type: array4_at(b, 4),
            component_sub_type: array4_at(b, 8),
            component_manufacturer: u32_at(b, 12),
            component_flags: u32_at(b, 16),
            component_flags_mask: u32_at(b, 20),
            component_name,
        })
    }

    /// Component type as text (`mhlr`, `dhlr`).
    pub fn component_type(&self) -> (r: String)
        ensures
            r@ == latin1(self.component_type@),
    {
        latin1_string(&self.component_type)
    }

    /// Component sub-type as text (`vide`, `soun`, ...).
    pub fn component_sub_type(&self) -> (r: String)
        ensures
            r@ == latin1(self.component_sub_type@),
    {
        latin1_string(&self.component_sub_type)
    }

    /// Reserved; normally 0.
    pub fn component_manufacturer(&self) -> (r: u32)
        ensures
            r == self.component_manufacturer,
    {
        self.component_manufacturer
    }

    /// Reserved; normally 0.
    pub fn component_flags(&self) -> (r: u32)
        ensures
            r == self.component_flags,
    {
        self.component_flags
    }

    /// Reserved; normally 0.
    pub fn component_flags_mask(&self) -> (r: u32)
        ensures
            r == self.component_flags_mask,
    {
        self.component_flags_mask
    }

    /// The handler name, e.g. `GoPro MET`.
    pub fn component_name(&self) -> (r: &str)
        ensures
            r@ == self.component_name@,
    {
        self.component_name.as_str()
    }
}

/// Writing a decoded `hdlr`'s fixed fields back gives the bytes they were
/// decoded from.
pub proof fn lemma_hdlr_round_trip(x: Hdlr, b: Seq<u8>)
    requires
        x.parsed_from(b),
    ensures
        x.layout() == b.subrange(0, 24),
{
    lemma_be_u32_round_trip(b, 12, x.component_manufacturer);
    lemma_be_u32_round_trip(b, 16, x.component_flags);
    lemma_be_u32_round_trip(b, 20, x.component_flags_mask);
    assert(x.layout() =~= b.subrange(0, 24));
}

/// Video media information header atom (`vmhd`).
#[derive(Debug, Clone, Copy)]
pub struct Vmhd {
    pub version: u8,
    pub flags: [u8; 3],
    /// Transfer mode.
    pub graphics_mode: u16,
    /// Red, green and blue for the transfer mode.
    pub op_color: [u16; 3],
}

impl Vmhd {
    /// Decodes the payload of a `vmhd` atom.
    pub fn parse(b: &[u8]) -> (r: Result<Vmhd, Mp4Error>)
        ensures
            r is Ok <==> b@.len() >= 12,
            r is Ok ==> r->Ok_0.version == b@[0] && r->Ok_0.flags@ == b@.subrange(1, 4)
                && r->Ok_0.graphics_mode == be_u16_at(b@, 4) && r->Ok_0.op_color@ == seq![
                be_u16_at(b@, 6) as u16,
                be_u16_at(b@, 8) as u16,
                be_u16_at(b@, 10) as u16,
            ],
            r is Err ==> r->Err_0 is ReadMismatch,
    {
        check_len(b, 12)?;
        let op_color = [u16_at(b, 6), u16_at(b, 8), u16_at(b, 10)];
        proof {
            assert(op_color@ =~= seq![be_u16_at(b@, 6) as u16, be_u16_at(b@, 8) as u16, be_u16_at(b@, 10) as u16]);
        }
        Ok(Vmhd { version: u8_at(b, 0), flags: array3_at(b, 1), graphics_mode: u16_at(b, 4), op_color })
    }

    /// Transfer mode.
    pub fn graphics_mode(&self) -> (r: u16)
        ensures
            r == self.graphics_mode,
    {
        self.graphics_mode
    }

    /// Red, green and blue for the transfer mode.
    pub fn op_color(&self) -> (r: [u16; 3])
        ensures
            r == self.op_color,
    {
        self.op_color
    }
}

/// Sound media information header atom (`smhd`).
#[derive(Debug, Clone, Copy)]
pub struct Smhd {
    pub version: u8,
    pub flags: [u8; 3],
    /// Stereo balance.
    pub balance: u16,
    pub reserved: u16,
}

impl Smhd {
    /// Decodes the payload of an `smhd` atom.
    pub fn parse(b: &[u8]) -> (r: Result<Smhd, Mp4Error>)
        ensures
            r is Ok <==> b@.len() >= 8,
            r is Ok ==> r->Ok_0.version == b@[0] && r->Ok_0.flags@ == b@.subrange(1, 4)
                && r->Ok_0.balance == be_u16_at(b@, 4) && r->Ok_0.reserved == be_u16_at(b@, 6),
            r is Err ==> r->Err_0 is ReadMismatch,
    {
        check_len(b, 8)?;
        Ok(Smhd { version: u8_at(b, 0), flags: array3_at(b, 1), balance: u16_at(b, 4), reserved: u16_at(b, 6) })
    }

    /// Stereo balance.
    pub fn balance(&self) -> (r: u16)
        ensures
            r == self.balance,
    {
        self.balance
    }

    /// Reserved; normally 0.
    pub fn reserved(&self) -> (r: u16)
        ensures
            r == self.reserved,
    {
        self.reserved
    }
}

/// File type compatibility atom (`ftyp`); it has no version or flags.
#[derive(Debug, Clone)]
pub struct Ftyp {
    pub major_brand: [u8; 4],
    pub minor_version: [u8; 4],
    /// One brand per four bytes after the first eight.
    pub compatible_brands: Vec<[u8; 4]>,
}

impl Ftyp {
    /// This value is what the payload `b` holds.
    pub open spec fn parsed_from(&self, b: Seq<u8>) -> bool {
        &&& b.len() >= 8
        &&& self.major_brand@ == b.subrange(0, 4)
        &&& self.minor_version@ == b.subrange(4, 8)
        &&& self.compatible_brands@.len() == (b.len() - 8) / 4
        &&& forall|i: int|
            0 <= i < self.compatible_brands@.len() ==> #[trigger] self.compatible_brands@[i]@ == b.subrange(
                8 + 4 * i,
                12 + 4 * i,
            )
    }

    /// Decodes the payload of an `ftyp` atom.
    pub fn parse(b: &[u8]) -> (r: Result<Ftyp, Mp4Error>)
        ensures
            r is Ok <==> b@.len() >= 8,
            r is Ok ==> r->Ok_0.parsed_from(b@),
            r is Err ==> r->Err_0 is ReadMismatch,
    {
        check_len(b, 8)?;
        let n = (b.len() - 8) / 4;
        let mut brands: Vec<[u8; 4]> = Vec::new();
        let mut i: usize = 0;
        while i < n
            invariant
                b@.len() <= usize::MAX,
                b@.len() >= 8,
                n == (b@.len() - 8) / 4,
                i <= n,
                brands@.len() == i,
                forall|k: int| 0 <= k < i ==> #[trigger] brands@[k]@ == b@.subrange(8 + 4 * k, 12 + 4 * k),
            decreases n - i,
        {
            brands.push(array4_at(b, 8 + 4 * i));
            i = i + 1;
        }
        Ok(Ftyp { major_brand: array4_at(b, 0), minor_version: array4_at(b, 4), compatible_brands: brands })
    }

    /// Major brand as text (e.g. `isom`, `qt  `).
    pub fn major_brand(&self) -> (r: String)
        ensures
            r@ == latin1(self.major_brand@),
    {
        latin1_string(&self.major_brand)
    }

    /// Minor version bytes.
    pub fn minor_version(&self) -> (r: [u8; 4])
        ensures
            r == self.minor_version,
    {
        self.minor_version
    }

    /// Compatible brands as text, in order.
    pub fn compatible_brands(&self) -> (r: Vec<String>)
        ensures
            r@.len() == self.compatible_brands@.len(),
            forall|i: int| 0 <= i < r@.len() ==> #[trigger] r@[i]@ == latin1(self.compatible_brands@[i]@),
    {
        let mut r: Vec<String> = Vec::new();
        let mut i: usize = 0;
        while i < self.compatible_brands.len()
            invariant
                i <= self.compatible_brands@.len(),
                r@.len() == i,
                forall|k: int| 0 <= k < i ==> #[trigger] r@[k]@ == latin1(self.compatible_brands@[k]@),
            decreases self.compatible_brands@.len() - i,
        {
            r.push(latin1_string(&self.compatible_brands[i]));
            i = i + 1;
        }
        r
    }
}

} // verus!

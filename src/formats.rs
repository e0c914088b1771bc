//! The closed taxonomy of sample formats: video and audio codes.

use vstd::prelude::*;

use crate::bytes::{latin1, u32_be_bytes};
use crate::fourcc::FourCC;

verus! {

/// Video formats named in a sample description.
#[derive(Debug, Clone, Copy, PartialEq, Eq, Structural)]
pub enum VideoFormat {
    /// `0x61766331`: H.264 video.
    Avc1,
    /// `0x63766964`: Cinepak.
    Cvid,
    /// `0x64766320`: NTSC DV-25 video.
    Dvc,
    /// `0x64766370`: PAL DV-25 video.
    Dvcp,
    /// `0x67696620`: CompuServe Graphics Interchange Format.
    Gif,
    /// `0x68323633`: H.263 video.
    H263,
    /// `0x68766331`: H.265 video.
    Hvc1,
    /// `0x6a706567`: JPEG.
    Jpeg,
    /// `0x6b706364`: Kodak Photo CD.
    Kpcd,
    /// `0x6d6a7061`: Motion-JPEG (format A).
    Mjpa,
    /// `0x6d6a7062`: Motion-JPEG (format B).
    Mjpb,
    /// `0x6d703476`: MPEG-4 video.
    Mp4v,
    /// `0x706e6720`: Portable Network Graphics.
    Png,
    /// `0x72617720`: Uncompressed RGB.
    Raw,
    /// `0x726c6520`: Animation.
    Rle,
    /// `0x72707a61`: Apple video.
    Rpza,
    /// `0x736d6320`: Graphics.
    Smc,
    /// `0x53565131`: Sorenson video, version 1.
    Svq1,
    /// `0x53565133`: Sorenson video 3.
    Svq3,
    /// `0x74696666`: Tagged Image File Format.
    Tiff,
    /// `0x32767520`: Uncompressed Y'CbCr, 8-bit 4:2:2.
    TwoVu,
    /// `0x76323130`: Uncompressed Y'CbCr, 10-bit 4:2:2.
    V210,
    /// `0x76323136`: Uncompressed Y'CbCr, 10 to 16-bit 4:2:2.
    V216,
    /// `0x76333038`: Uncompressed Y'CbCr, 8-bit 4:4:4.
    V308,
    /// `0x76343038`: Uncompressed Y'CbCr, 8-bit 4:4:4:4.
    V408,
    /// `0x76343130`: Uncompressed Y'CbCr, 10-bit 4:4:4.
    V410,
    /// `0x79757632`: Uncompressed Y'CbCr, 8-bit 4:2:2.
    Yuv2,
    /// Not a known video format.
    Unknown,
}

/// The video format that a big-endian format code names.
pub open spec fn video_format_of(v: u32) -> VideoFormat {
    match v {
        0x61766331 => VideoFormat::Avc1,
        0x63766964 => VideoFormat::Cvid,
        0x64766320 => VideoFormat::Dvc,
        0x64766370 => VideoFormat::Dvcp,
        0x67696620 => VideoFormat::Gif,
        0x68323633 => VideoFormat::H263,
        0x68766331 => VideoFormat::Hvc1,
        0x6a706567 => VideoFormat::Jpeg,
        0x6b706364 => VideoFormat::Kpcd,
        0x6d6a7061 => VideoFormat::Mjpa,
        0x6d6a7062 => VideoFormat::Mjpb,
        0x6d703476 => VideoFormat::Mp4v,
        0x706e6720 => VideoFormat::Png,
        0x72617720 => VideoFormat::Raw,
        0x726c6520 => VideoFormat::Rle,
        0x72707a61 => VideoFormat::Rpza,
        0x736d6320 => VideoFormat::Smc,
        0x53565131 => VideoFormat::Svq1,
        0x53565133 => VideoFormat::Svq3,
        0x74696666 => VideoFormat::Tiff,
        0x32767520 => VideoFormat::TwoVu,
        0x76323130 => VideoFormat::V210,
        0x76323136 => VideoFormat::V216,
        0x76333038 => VideoFormat::V308,
        0x76343038 => VideoFormat::V408,
        0x76343130 => VideoFormat::V410,
        0x79757632 => VideoFormat::Yuv2,
        _ => VideoFormat::Unknown,
    }
}

impl VideoFormat {
    /// The format code, `None` for `Unknown`.
    pub open spec fn code(self) -> Option<u32> {
        match self {
            VideoFormat::Avc1 => Some(0x61766331),
            VideoFormat::Cvid => Some(0x63766964),
            VideoFormat::Dvc => Some(0x64766320),
            VideoFormat::Dvcp => Some(0x64766370),
            VideoFormat::Gif => Some(0x67696620),
            VideoFormat::H263 => Some(0x68323633),
            VideoFormat::Hvc1 => Some(0x68766331),
            VideoFormat::Jpeg => Some(0x6a706567),
            VideoFormat::Kpcd => Some(0x6b706364),
            VideoFormat::Mjpa => Some(0x6d6a7061),
            VideoFormat::Mjpb => Some(0x6d6a7062),
            VideoFormat::Mp4v => Some(0x6d703476),
            VideoFormat::Png => Some(0x706e6720),
            VideoFormat::Raw => Some(0x72617720),
            VideoFormat::Rle => Some(0x726c6520),
            VideoFormat::Rpza => Some(0x72707a61),
            VideoFormat::Smc => Some(0x736d6320),
            VideoFormat::Svq1 => Some(0x53565131),
            VideoFormat::Svq3 => Some(0x53565133),
            VideoFormat::Tiff => Some(0x74696666),
            VideoFormat::TwoVu => Some(0x32767520),
            VideoFormat::V210 => Some(0x76323130),
            VideoFormat::V216 => Some(0x76323136),
            VideoFormat::V308 => Some(0x76333038),
            VideoFormat::V408 => Some(0x76343038),
            VideoFormat::V410 => Some(0x76343130),
            VideoFormat::Yuv2 => Some(0x79757632),
            VideoFormat::Unknown => None,
        }
    }

    /// Format from its big-endian code.
    pub fn from_be_u32(value: u32) -> (r: VideoFormat)
        ensures
            r == video_format_of(value),
            r.code() is Some ==> r.code() == Some(value),
    {
        match value {
            0x61766331 => VideoFormat::Avc1,
            0x63766964 => VideoFormat::Cvid,
            0x64766320 => VideoFormat::Dvc,
            0x64766370 => VideoFormat::Dvcp,
            0x67696620 => VideoFormat::Gif,
            0x68323633 => VideoFormat::H263,
            0x68766331 => VideoFormat::Hvc1,
            0x6a706567 => VideoFormat::Jpeg,
            0x6b706364 => VideoFormat::Kpcd,
            0x6d6a7061 => VideoFormat::Mjpa,
            0x6d6a7062 => VideoFormat::Mjpb,
            0x6d703476 => VideoFormat::Mp4v,
            0x706e6720 => VideoFormat::Png,
            0x72617720 => VideoFormat::Raw,
            0x726c6520 => VideoFormat::Rle,
            0x72707a61 => VideoFormat::Rpza,
            0x736d6320 => VideoFormat::Smc,
            0x53565131 => VideoFormat::Svq1,
            0x53565133 => VideoFormat::Svq3,
            0x74696666 => VideoFormat::Tiff,
            0x32767520 => VideoFormat::TwoVu,
            0x76323130 => VideoFormat::V210,
            0x76323136 => VideoFormat::V216,
            0x76333038 => VideoFormat::V308,
            0x76343038 => VideoFormat::V408,
            0x76343130 => VideoFormat::V410,
            0x79757632 => VideoFormat::Yuv2,
            _ => VideoFormat::Unknown,
        }
    }

    /// The format code, `None` for `Unknown`.
    pub fn to_u32(&self) -> (r: Option<u32>)
        ensures
            r == self.code(),
    {
        match self {
            VideoFormat::Avc1 => Some(0x61766331),
            VideoFormat::Cvid => Some(0x63766964),
            VideoFormat::Dvc => Some(0x64766320),
            VideoFormat::Dvcp => Some(0x64766370),
            VideoFormat::Gif => Some(0x67696620),
            VideoFormat::H263 => Some(0x68323633),
            VideoFormat::Hvc1 => Some(0x68766331),
            VideoFormat::Jpeg => Some(0x6a706567),
            VideoFormat::Kpcd => Some(0x6b706364),
            VideoFormat::Mjpa => Some(0x6d6a7061),
            VideoFormat::Mjpb => Some(0x6d6a7062),
            VideoFormat::Mp4v => Some(0x6d703476),
            VideoFormat::Png => Some(0x706e6720),
            VideoFormat::Raw => Some(0x72617720),
            VideoFormat::Rle => Some(0x726c6520),
            VideoFormat::Rpza => Some(0x72707a61),
            VideoFormat::Smc => Some(0x736d6320),
            VideoFormat::Svq1 => Some(0x53565131),
            VideoFormat::Svq3 => Some(0x53565133),
            VideoFormat::Tiff => Some(0x74696666),
            VideoFormat::TwoVu => Some(0x32767520),
            VideoFormat::V210 => Some(0x76323130),
            VideoFormat::V216 => Some(0x76323136),
            VideoFormat::V308 => Some(0x76333038),
            VideoFormat::V408 => Some(0x76343038),
            VideoFormat::V410 => Some(0x76343130),
            VideoFormat::Yuv2 => Some(0x79757632),
            VideoFormat::Unknown => None,
        }
    }

    /// The format code as text, four ISO-8859-1 characters as stored
    /// (three-letter codes end in a space); `None` for `Unknown`.
    pub fn to_str(&self) -> (r: Option<String>)
        ensures
            r is Some <==> self.code() is Some,
            r is Some ==> r.unwrap()@ == latin1(u32_be_bytes(self.code().unwrap())),
    {
        match self.to_u32() {
            Some(v) => Some(FourCC::from_u32(v).to_str()),
            None => None,
        }
    }
}

/// Audio formats named in a sample description.
#[derive(Debug, Clone, Copy, PartialEq, Eq, Structural)]
pub enum AudioFormat {
    /// `0x00000000`: Not specified (should not be used).
    NotSpecified,
    /// `0x4e4f4e45`: Not compressed (should not be used).
    NoneCompressed,
    /// `0x72617720`: 8-bit offset binary.
    Raw,
    /// `0x74776f73`: 16-bit big-endian.
    Twos,
    /// `0x61632d33`: AC-3, Enhanced AC-3.
    Ac3,
    /// `0x736f7774`: 16-bit little-endian.
    Sowt,
    /// `0x4d414333`: MACE 3:1.
    Mac3,
    /// `0x4d414336`: MACE 6:1.
    Mac6,
    /// `0x696d6134`: IMA 4:1.
    Ima4,
    /// `0x666c3332`: 32-bit floating point.
    Fl32,
    /// `0x666c3634`: 64-bit floating point.
    Fl64,
    /// `0x696e3234`: 24-bit integer.
    In24,
    /// `0x696e3332`: 32-bit integer.
    In32,
    /// `0x756c6177`: uLaw 2:1.
    Ulaw,
    /// `0x616c6177`: aLaw 2:1.
    Alaw,
    /// `0x6d730002`: Microsoft ADPCM-ACM code 2.
    MsAdpcm,
    /// `0x6d730011`: DVI/Intel IMA ADPCM-ACM code 17.
    IntelMa,
    /// `0x64766361`: DV audio.
    Dvca,
    /// `0x51444d43`: QDesign music.
    Qdmc,
    /// `0x51444d32`: QDesign music version 2.
    Qdm2,
    /// `0x51636c70`: QUALCOMM PureVoice.
    Qclp,
    /// `0x6d730055`: MPEG-1 layer 3, CBR only.
    Mpeg1Layer3,
    /// `0x2e6d7033`: MPEG-1 layer 3, CBR and VBR.
    Mp3,
    /// `0x6d703461`: MPEG-4 AAC.
    Mp4a,
    /// Not a known audio format.
    Unknown,
}

/// The audio format that a big-endian format code names.
pub open spec fn audio_format_of(v: u32) -> AudioFormat {
    match v {
        0x00000000 => AudioFormat::NotSpecified,
        0x4e4f4e45 => AudioFormat::NoneCompressed,
        0x72617720 => AudioFormat::Raw,
        0x74776f73 => AudioFormat::Twos,
        0x61632d33 => AudioFormat::Ac3,
        0x736f7774 => AudioFormat::Sowt,
        0x4d414333 => AudioFormat::Mac3,
        0x4d414336 => AudioFormat::Mac6,
        0x696d6134 => AudioFormat::Ima4,
        0x666c3332 => AudioFormat::Fl32,
        0x666c3634 => AudioFormat::Fl64,
        0x696e3234 => AudioFormat::In24,
        0x696e3332 => AudioFormat::In32,
        0x756c6177 => AudioFormat::Ulaw,
        0x616c6177 => AudioFormat::Alaw,
        0x6d730002 => AudioFormat::MsAdpcm,
        0x6d730011 => AudioFormat::IntelMa,
        0x64766361 => AudioFormat::Dvca,
        0x51444d43 => AudioFormat::Qdmc,
        0x51444d32 => AudioFormat::Qdm2,
        0x51636c70 => AudioFormat::Qclp,
        0x6d730055 => AudioFormat::Mpeg1Layer3,
        0x2e6d7033 => AudioFormat::Mp3,
        0x6d703461 => AudioFormat::Mp4a,
        _ => AudioFormat::Unknown,
    }
}

impl AudioFormat {
    /// The format code, `None` for `Unknown`.
    pub open spec fn code(self) -> Option<u32> {
        match self {
            AudioFormat::NotSpecified => Some(0x00000000),
            AudioFormat::NoneCompressed => Some(0x4e4f4e45),
            AudioFormat::Raw => Some(0x72617720),
            AudioFormat::Twos => Some(0x74776f73),
            AudioFormat::Ac3 => Some(0x61632d33),
            AudioFormat::Sowt => Some(0x736f7774),
            AudioFormat::Mac3 => Some(0x4d414333),
            AudioFormat::Mac6 => Some(0x4d414336),
            AudioFormat::Ima4 => Some(0x696d6134),
            AudioFormat::Fl32 => Some(0x666c3332),
            AudioFormat::Fl64 => Some(0x666c3634),
            AudioFormat::In24 => Some(0x696e3234),
            AudioFormat::In32 => Some(0x696e3332),
            AudioFormat::Ulaw => Some(0x756c6177),
            AudioFormat::Alaw => Some(0x616c6177),
            AudioFormat::MsAdpcm => Some(0x6d730002),
            AudioFormat::IntelMa => Some(0x6d730011),
            AudioFormat::Dvca => Some(0x64766361),
            AudioFormat::Qdmc => Some(0x51444d43),
            AudioFormat::Qdm2 => Some(0x51444d32),
            AudioFormat::Qclp => Some(0x51636c70),
            AudioFormat::Mpeg1Layer3 => Some(0x6d730055),
            AudioFormat::Mp3 => Some(0x2e6d7033),
            AudioFormat::Mp4a => Some(0x6d703461),
            AudioFormat::Unknown => None,
        }
    }

    /// Format from its big-endian code.
    pub fn from_be_u32(value: u32) -> (r: AudioFormat)
        ensures
            r == audio_format_of(value),
            r.code() is Some ==> r.code() == Some(value),
    {
        match value {
            0x00000000 => AudioFormat::NotSpecified,
            0x4e4f4e45 => AudioFormat::NoneCompressed,
            0x72617720 => AudioFormat::Raw,
            0x74776f73 => AudioFormat::Twos,
            0x61632d33 => AudioFormat::Ac3,
            0x736f7774 => AudioFormat::Sowt,
            0x4d414333 => AudioFormat::Mac3,
            0x4d414336 => AudioFormat::Mac6,
            0x696d6134 => AudioFormat::Ima4,
            0x666c3332 => AudioFormat::Fl32,
            0x666c3634 => AudioFormat::Fl64,
            0x696e3234 => AudioFormat::In24,
            0x696e3332 => AudioFormat::In32,
            0x756c6177 => AudioFormat::Ulaw,
            0x616c6177 => AudioFormat::Alaw,
            0x6d730002 => AudioFormat::MsAdpcm,
            0x6d730011 => AudioFormat::IntelMa,
            0x64766361 => AudioFormat::Dvca,
            0x51444d43 => AudioFormat::Qdmc,
            0x51444d32 => AudioFormat::Qdm2,
            0x51636c70 => AudioFormat::Qclp,
            0x6d730055 => AudioFormat::Mpeg1Layer3,
            0x2e6d7033 => AudioFormat::Mp3,
            0x6d703461 => AudioFormat::Mp4a,
            _ => AudioFormat::Unknown,
        }
    }

    /// The format code, `None` for `Unknown`.
    pub fn to_u32(&self) -> (r: Option<u32>)
        ensures
            r == self.code(),
    {
        match self {
            AudioFormat::NotSpecified => Some(0x00000000),
            AudioFormat::NoneCompressed => Some(0x4e4f4e45),
            AudioFormat::Raw => Some(0x72617720),
            AudioFormat::Twos => Some(0x74776f73),
            AudioFormat::Ac3 => Some(0x61632d33),
            AudioFormat::Sowt => Some(0x736f7774),
            AudioFormat::Mac3 => Some(0x4d414333),
            AudioFormat::Mac6 => Some(0x4d414336),
            AudioFormat::Ima4 => Some(0x696d6134),
            AudioFormat::Fl32 => Some(0x666c3332),
            AudioFormat::Fl64 => Some(0x666c3634),
            AudioFormat::In24 => Some(0x696e3234),
            AudioFormat::In32 => Some(0x696e3332),
            AudioFormat::Ulaw => Some(0x756c6177),
            AudioFormat::Alaw => Some(0x616c6177),
            AudioFormat::MsAdpcm => Some(0x6d730002),
            AudioFormat::IntelMa => Some(0x6d730011),
            AudioFormat::Dvca => Some(0x64766361),
            AudioFormat::Qdmc => Some(0x51444d43),
            AudioFormat::Qdm2 => Some(0x51444d32),
            AudioFormat::Qclp => Some(0x51636c70),
            AudioFormat::Mpeg1Layer3 => Some(0x6d730055),
            AudioFormat::Mp3 => Some(0x2e6d7033),
            AudioFormat::Mp4a => Some(0x6d703461),
            AudioFormat::Unknown => None,
        }
    }

    /// The format code as text, four ISO-8859-1 characters as stored
    /// (three-letter codes end in a space); `None` for `Unknown`.
    pub fn to_str(&self) -> (r: Option<String>)
        ensures
            r is Some <==> self.code() is Some,
            r is Some ==> r.unwrap()@ == latin1(u32_be_bytes(self.code().unwrap())),
    {
        match self.to_u32() {
            Some(v) => Some(FourCC::from_u32(v).to_str()),
            None => None,
        }
    }
}

} // verus!

//! Read-only navigation of ISO Base Media / QuickTime ("MP4") files.
//!
//! Atoms are walked in byte streams ([`ByteStream`]) that hold the bytes of
//! a file region in memory, positioned at absolute file offsets. Opening a
//! file ([`Mp4`]) loads its `moov` atom; all metadata is then decoded from
//! that stream. Each track's samples are reconstructed from its sample
//! tables into `(position, size, duration)` triples.

pub mod atom;
pub mod bytes;
pub mod calendar;
pub mod error;
pub mod formats;
pub mod fourcc;
pub mod header;
pub mod headers;
pub mod lists;
pub mod mp4;
pub mod navigate;
pub mod offsets;
pub mod stream;
pub mod stsd;
pub mod tables;
pub mod timing;
pub mod track;
pub mod udta;

pub use atom::Atom;
pub use calendar::{mp4_time_zero, DateTime};
pub use error::Mp4Error;
pub use formats::{AudioFormat, VideoFormat};
pub use fourcc::FourCC;
pub use header::AtomHeader;
pub use headers::{Ftyp, Hdlr, Mdhd, Mvhd, Smhd, Tkhd, Vmhd};
pub use lists::{Ctts, Dref, Elst, Sdtp, Stss};
pub use mp4::{scan_step, Mp4, Scan, TargetReader};
pub use offsets::SampleOffset;
pub use stream::{ByteStream, Endian, ReadOption, SeekFrom};
pub use stsd::{DataFormat, DataLoad, SampleDescription, Stsd, Tmcd, Video};
pub use tables::{Co64, SampleToChunk, Stco, Stsc, Stsz, Stts, TimeToSample};
pub use timing::Duration;
pub use track::{Sample, Track, TrackAttributes, TrackIdentifier};
pub use udta::{Udta, UdtaField};

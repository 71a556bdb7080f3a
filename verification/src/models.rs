//! Data models: media formats, video metadata, download tasks and
//! progress snapshots.

use vstd::prelude::*;

use crate::strutil::{
    push_dec, spec_dec, spec_leading_number, parse_leading_u32, str_to_chars, u64_to_dec,
};

verus! {

/// Whether a format carries audio only or full video.
#[derive(Clone, Copy, Debug, PartialEq, Eq, Structural)]
pub enum FormatType {
    Audio,
    Video,
}

/// One downloadable rendition of a video: its quality label, kind,
/// container, direct URL and optional metadata.
#[derive(Debug)]
pub struct Format {
    pub quality: String,
    pub format_type: FormatType,
    pub file_extension: String,
    pub download_url: String,
    pub file_size: Option<u64>,
    pub bitrate: Option<u32>,
    pub codec: Option<String>,
}

/// A video format counts as high quality from this vertical
/// resolution upward.
pub const HIGH_QUALITY_HEIGHT: u32 = 1080;

/// An audio format counts as high quality from this bitrate upward,
/// in bits per second.
pub const HIGH_QUALITY_BITRATE: u32 = 192000;

impl Clone for Format {
    /// An exact copy, field by field.
    fn clone(&self) -> (r: Format)
        ensures
            r == *self,
    {
        Format {
            quality: self.quality.clone(),
            format_type: self.format_type,
            file_extension: self.file_extension.clone(),
            download_url: self.download_url.clone(),
            file_size: self.file_size,
            bitrate: self.bitrate,
            codec: match &self.codec {
                Some(c) => Some(c.clone()),
                None => None,
            },
        }
    }
}

/// Whether a format counts as high quality: video with a quality label
/// of at least 1080 vertical lines, or audio of at least 192 kbit/s.
pub open spec fn spec_is_high_quality(f: Format) -> bool {
    match f.format_type {
        FormatType::Video => spec_leading_number(f.quality@) >= HIGH_QUALITY_HEIGHT,
        FormatType::Audio => match f.bitrate {
            Some(b) => b >= HIGH_QUALITY_BITRATE,
            None => false,
        },
    }
}

impl Format {
    pub fn new(quality: String, format_type: FormatType, file_extension: String, download_url: String)
        -> (r: Format)
        ensures
            r.quality == quality,
            r.format_type == format_type,
            r.file_extension == file_extension,
            r.download_url == download_url,
            r.file_size is None,
            r.bitrate is None,
            r.codec is None,
    {
        Format {
            quality,
            format_type,
            file_extension,
            download_url,
            file_size: None,
            bitrate: None,
            codec: None,
        }
    }

    /// Human-readable description: the quality label, the kind of
    /// stream, and the container in parentheses.
    pub fn quality_description(&self) -> (r: String)
        ensures
            self.format_type is Video ==> r@ == self.quality@ + " video ("@
                + self.file_extension@ + ")"@,
            self.format_type is Audio ==> r@ == self.quality@ + " audio ("@
                + self.file_extension@ + ")"@,
    {
        let mut r = self.quality.clone();
        match self.format_type {
            FormatType::Video => r.append(" video ("),
            FormatType::Audio => r.append(" audio ("),
        }
        r.append(self.file_extension.as_str());
        r.append(")");
        r
    }

    /// Whether this format counts as high quality.
    pub fn is_high_quality(&self) -> (r: bool)
        ensures
            r == spec_is_high_quality(*self),
    {
        match self.format_type {
            FormatType::Video => {
                let chars = str_to_chars(self.quality.as_str());
                let n = parse_leading_u32(&chars);
                n >= HIGH_QUALITY_HEIGHT
            },
            FormatType::Audio => match self.bitrate {
                Some(b) => b >= HIGH_QUALITY_BITRATE,
                None => false,
            },
        }
    }
}

/// Metadata of one video: its title, duration label, identifier, and
/// the formats available for download.
#[derive(Debug)]
pub struct VideoInfo {
    pub title: String,
    pub duration: String,
    pub available_formats: Vec<Format>,
    pub thumbnail_url: String,
    pub video_id: String,
    pub uploader: Option<String>,
    pub upload_date: Option<String>,
}

impl VideoInfo {
    pub fn new(title: String, duration: String, video_id: String) -> (r: VideoInfo)
        ensures
            r.title == title,
            r.duration == duration,
            r.video_id == video_id,
            r.available_formats@ =~= Seq::<Format>::empty(),
            r.thumbnail_url@ =~= Seq::<char>::empty(),
            r.uploader is None,
            r.upload_date is None,
    {
        VideoInfo {
            title,
            duration,
            video_id,
            available_formats: Vec::new(),
            thumbnail_url: String::new(),
            uploader: None,
            upload_date: None,
        }
    }

    /// Record one more downloadable format.
    pub fn add_format(&mut self, format: Format)
        ensures
            final(self).available_formats@ == old(self).available_formats@.push(format),
            final(self).title == old(self).title,
            final(self).duration == old(self).duration,
            final(self).video_id == old(self).video_id,
            final(self).thumbnail_url == old(self).thumbnail_url,
            final(self).uploader == old(self).uploader,
            final(self).upload_date == old(self).upload_date,
    {
        self.available_formats.push(format);
    }

    /// The available formats of one kind, in the order they came in.
    pub fn get_formats_by_type(&self, format_type: &FormatType) -> (r: Vec<Format>)
        ensures
            r@ == self.available_formats@.filter(
                |f: Format| f.format_type == *format_type,
            ),
    {
        let ghost pred = |f: Format| f.format_type == *format_type;
        let mut r: Vec<Format> = Vec::new();
        let mut i: usize = 0;
        proof {
            assert(self.available_formats@.take(0).filter(pred) =~= Seq::<Format>::empty()) by {
                reveal(Seq::filter);
            }
        }
        while i < self.available_formats.len()
            invariant
                i <= self.available_formats@.len(),
                pred == (|f: Format| f.format_type == *format_type),
                r@ == self.available_formats@.take(i as int).filter(pred),
            decreases self.available_formats@.len() - i,
        {
            proof {
                crate::strutil::lemma_filter_take_step(self.available_formats@, pred, i as int);
            }
            let f = &self.available_formats[i];
            match (f.format_type, *format_type) {
                (FormatType::Audio, FormatType::Audio) => r.push(f.clone()),
                (FormatType::Video, FormatType::Video) => r.push(f.clone()),
                _ => (),
            }
            i = i + 1;
        }
        proof {
            assert(self.available_formats@.take(i as int) =~= self.available_formats@);
        }
        r
    }
}

/// One requested download: the video, the chosen format, and where the
/// result goes on disk.
#[derive(Debug)]
pub struct DownloadTask {
    pub video_info: VideoInfo,
    pub selected_format: Format,
    pub output_path: String,
    pub progress: DownloadProgress,
}

impl DownloadTask {
    pub fn new(video_info: VideoInfo, selected_format: Format, output_path: String) -> (r:
        DownloadTask)
        ensures
            r.video_info == video_info,
            r.selected_format == selected_format,
            r.output_path == output_path,
            r.progress == DownloadProgress::spec_initial(),
    {
        DownloadTask { video_info, selected_format, output_path, progress: DownloadProgress::new() }
    }

    /// The file this download writes: the sanitized title, the
    /// quality label in brackets, and the format's extension.
    pub fn generate_filename(&self) -> (r: String)
        ensures
            r@ == crate::validation::spec_sanitize_filename(self.video_info.title@) + " ["@
                + self.selected_format.quality@ + "]."@ + self.selected_format.file_extension@,
    {
        crate::organizer::FileOrganizer::generate_filename(&self.video_info, &self.selected_format)
    }
}

/// A snapshot of download progress: sizes in bytes, speed in bytes per
/// second, ETA in seconds.
#[derive(Clone, Copy, Debug)]
pub struct DownloadProgress {
    pub total_size: u64,
    pub downloaded_size: u64,
    pub download_speed: u64,
    pub eta_seconds: u64,
    pub is_complete: bool,
}

/// Completion percentage, an integer in `0 ..= 100`: the downloaded
/// share of the total, capped at the total.
pub open spec fn spec_percentage(downloaded: u64, total: u64) -> int {
    if total == 0 {
        0
    } else {
        vstd::math::min(downloaded as int, total as int) * 100 / (total as int)
    }
}

/// The percentage is monotone in the downloaded count, never exceeds
/// 100, and equals 100 exactly when the download is complete.
pub proof fn lemma_percentage_monotone(d1: u64, d2: u64, total: u64)
    requires
        d1 <= d2,
    ensures
        spec_percentage(d1, total) <= spec_percentage(d2, total),
        0 <= spec_percentage(d2, total) <= 100,
        total > 0 ==> (spec_percentage(d2, total) == 100 <==> d2 >= total),
{
    if total > 0 {
        let t = total as int;
        let m1 = vstd::math::min(d1 as int, t);
        let m2 = vstd::math::min(d2 as int, t);
        assert(0 <= m1 <= m2 <= t);
        assert(m1 * 100 <= m2 * 100 <= t * 100) by (nonlinear_arith)
            requires
                0 <= m1 <= m2 <= t,
        ;
        assert(m1 * 100 / t <= m2 * 100 / t) by (nonlinear_arith)
            requires
                t > 0,
                0 <= m1 * 100 <= m2 * 100,
        ;
        assert(t * 100 / t == 100) by (nonlinear_arith)
            requires
                t > 0,
        ;
        assert(m2 * 100 / t <= 100) by (nonlinear_arith)
            requires
                t > 0,
                0 <= m2 * 100 <= t * 100,
        ;
        assert(m2 * 100 / t >= 0) by (nonlinear_arith)
            requires
                t > 0,
                m2 >= 0,
        ;
        if d2 < total {
            assert(m2 * 100 / t < 100) by (nonlinear_arith)
                requires
                    t > 0,
                    0 <= m2 < t,
            ;
        }
    }
}

impl DownloadProgress {
    /// The all-zero snapshot a fresh task starts from.
    pub open spec fn spec_initial() -> DownloadProgress {
        DownloadProgress {
            total_size: 0,
            downloaded_size: 0,
            download_speed: 0,
            eta_seconds: 0,
            is_complete: false,
        }
    }

    pub fn new() -> (r: DownloadProgress)
        ensures
            r == DownloadProgress::spec_initial(),
    {
        DownloadProgress {
            total_size: 0,
            downloaded_size: 0,
            download_speed: 0,
            eta_seconds: 0,
            is_complete: false,
        }
    }

    /// Completion percentage as an integer in `0 ..= 100`.
    pub fn percentage(&self) -> (r: u64)
        ensures
            r == spec_percentage(self.downloaded_size, self.total_size),
            r <= 100,
    {
        proof {
            lemma_percentage_monotone(self.downloaded_size, self.downloaded_size, self.total_size);
        }
        if self.total_size == 0 {
            0
        } else {
            let d = if self.downloaded_size < self.total_size {
                self.downloaded_size
            } else {
                self.total_size
            };
            let r = ((d as u128) * 100 / (self.total_size as u128)) as u64;
            r
        }
    }

    /// The download speed rendered with one decimal place and a unit,
    /// per 1024 steps: `B/s`, `KB/s`, `MB/s` or `GB/s`.
    pub fn speed_string(&self) -> (r: String)
        ensures
            r@ == spec_rate_string(self.download_speed as int),
    {
        let mut s = scaled_string(self.download_speed);
        s.append("/s");
        assert(s@ =~= spec_rate_string(self.download_speed as int));
        s
    }

    /// The remaining time rendered as seconds, minutes and seconds, or
    /// hours and minutes; zero means the ETA is unknown.
    pub fn eta_string(&self) -> (r: String)
        ensures
            r@ == spec_eta_string(self.eta_seconds),
    {
        let e = self.eta_seconds;
        if e == 0 {
            String::from_str("Unknown")
        } else if e < 60 {
            let mut s = u64_to_dec(e);
            s.append("s");
            assert(s@ =~= spec_eta_string(e));
            s
        } else if e < 3600 {
            let mut s = u64_to_dec(e / 60);
            s.append("m ");
            push_dec(&mut s, e % 60);
            s.append("s");
            assert(s@ =~= spec_eta_string(e));
            s
        } else {
            let mut s = u64_to_dec(e / 3600);
            s.append("h ");
            push_dec(&mut s, (e % 3600) / 60);
            s.append("m");
            assert(s@ =~= spec_eta_string(e));
            s
        }
    }

    /// The total size, rendered as a human-readable byte count.
    pub fn size_string(&self) -> (r: String)
        ensures
            r@ == spec_bytes_string(self.total_size as int),
    {
        Self::format_bytes(self.total_size)
    }

    /// The downloaded size, rendered as a human-readable byte count.
    pub fn downloaded_string(&self) -> (r: String)
        ensures
            r@ == spec_bytes_string(self.downloaded_size as int),
    {
        Self::format_bytes(self.downloaded_size)
    }

    /// Render a byte count with one decimal place and a unit, per
    /// 1024 steps: `B`, `KB`, `MB` or `GB`.
    pub fn format_bytes(bytes: u64) -> (r: String)
        ensures
            r@ == spec_bytes_string(bytes as int),
    {
        let s = scaled_string(bytes);
        assert(s@ =~= spec_bytes_string(bytes as int));
        s
    }
}

pub const KIB: u64 = 1024;

pub const MIB: u64 = 1048576;

pub const GIB: u64 = 1073741824;

/// `n` scaled down by `unit` with one truncated decimal place: the
/// whole quotient, a dot, and the first decimal digit of the rest.
pub open spec fn spec_scaled(n: int, unit: int) -> Seq<char>
    recommends
        n >= 0,
        unit > 0,
{
    spec_dec(n / unit) + seq!['.'] + spec_dec((n % unit) * 10 / unit)
}

/// A byte count with unit, stepping units at each factor of 1024.
pub open spec fn spec_bytes_string(n: int) -> Seq<char> {
    if n < KIB {
        spec_dec(n) + " B"@
    } else if n < MIB {
        spec_scaled(n, KIB as int) + " KB"@
    } else if n < GIB {
        spec_scaled(n, MIB as int) + " MB"@
    } else {
        spec_scaled(n, GIB as int) + " GB"@
    }
}

/// A rate: the byte count string with `/s` appended.
pub open spec fn spec_rate_string(n: int) -> Seq<char> {
    spec_bytes_string(n) + "/s"@
}

/// An ETA in seconds rendered for people; zero stands for unknown.
pub open spec fn spec_eta_string(e: u64) -> Seq<char> {
    if e == 0 {
        "Unknown"@
    } else if e < 60 {
        spec_dec(e as int) + "s"@
    } else if e < 3600 {
        spec_dec(e as int / 60) + "m "@ + spec_dec(e as int % 60) + "s"@
    } else {
        spec_dec(e as int / 3600) + "h "@ + spec_dec((e as int % 3600) / 60) + "m"@
    }
}

/// Render `bytes` with the unit suffix but without the rate suffix.
fn scaled_string(bytes: u64) -> (r: String)
    ensures
        r@ == spec_bytes_string(bytes as int),
{
    if bytes < KIB {
        let mut s = u64_to_dec(bytes);
        s.append(" B");
        assert(s@ =~= spec_bytes_string(bytes as int));
        s
    } else {
        let unit: u64 = if bytes < MIB {
            KIB
        } else if bytes < GIB {
            MIB
        } else {
            GIB
        };
        let whole = bytes / unit;
        let rem = bytes % unit;
        let mut s = u64_to_dec(whole);
        crate::strutil::push_char(&mut s, '.');
        push_dec(&mut s, rem * 10 / unit);
        if bytes < MIB {
            s.append(" KB");
        } else if bytes < GIB {
            s.append(" MB");
        } else {
            s.append(" GB");
        }
        assert(s@ =~= spec_bytes_string(bytes as int));
        s
    }
}

} // verus!

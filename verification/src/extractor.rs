//! Format extraction: turning the fields of a player response into
//! `Format` values, filtering them down to the supported containers,
//! and ordering them best-first.
//!
//! Reading fields out of a `serde_json::Value` goes through the
//! trusted accessors of `jsonval`; every decision on the values read
//! is verified here, with exact contracts over the plain fields.

use vstd::prelude::*;
use vstd::multiset::Multiset;

use crate::error::DownloaderError;
use crate::jsonval::{json_as_array, json_as_str, json_as_u64, json_get};
use crate::models::{Format, FormatType};
use crate::network::spec_parse_u64;
use crate::strutil::{
    chars_to_string, contains_sub, parse_leading_u32, push_dec_pad2, replace_all, spec_contains,
    spec_dec, spec_dec2, spec_leading_number, spec_replace, str_to_chars, u64_to_dec,
};

verus! {

/// The fields of one streaming-format object that the parser reads,
/// each absent when the object lacks it or holds the wrong type.
#[derive(Debug)]
pub struct FormatFields {
    pub url: Option<String>,
    pub mime_type: Option<String>,
    pub height: Option<u64>,
    pub quality_label: Option<String>,
    pub average_bitrate: Option<u64>,
    pub content_length: Option<String>,
    pub codec: Option<String>,
}

/// A format object is usable when it has a URL and a MIME type, and
/// the MIME type names audio, or MP4 video.
pub open spec fn spec_fields_accepted(f: FormatFields) -> bool {
    &&& f.url is Some
    &&& f.mime_type is Some
    &&& {
        let m = f.mime_type->0@;
        spec_contains(m, "audio"@) || (spec_contains(m, "video"@) && spec_contains(m, "mp4"@))
    }
}

/// An accepted format counts as audio when its MIME type says so;
/// audio wins over video, as audio-only streams carry both words.
pub open spec fn spec_fields_audio(f: FormatFields) -> bool {
    spec_contains(f.mime_type->0@, "audio"@)
}

/// The quality label an accepted format gets: for video the height in
/// pixels, else the advertised label, else `Unknown`; for audio the
/// bitrate in kbit/s, else `Audio`.
pub open spec fn spec_fields_quality(f: FormatFields) -> Seq<char> {
    if spec_fields_audio(f) {
        match f.average_bitrate {
            Some(b) => spec_dec(b as int / 1000) + "kbps"@,
            None => "Audio"@,
        }
    } else {
        match f.height {
            Some(h) => spec_dec(h as int) + "p"@,
            None => match f.quality_label {
                Some(q) => q@,
                None => "Unknown"@,
            },
        }
    }
}

/// Parse one streaming-format object from its plain fields.
pub fn parse_single_format(f: &FormatFields) -> (r: Option<Format>)
    ensures
        (r is Some) == spec_fields_accepted(*f),
        r matches Some(fmt) ==> {
            &&& fmt.format_type == (if spec_fields_audio(*f) {
                FormatType::Audio
            } else {
                FormatType::Video
            })
            &&& fmt.file_extension@ == (if spec_fields_audio(*f) {
                "mp3"@
            } else {
                "mp4"@
            })
            &&& fmt.download_url == f.url->0
            &&& fmt.quality@ == spec_fields_quality(*f)
            &&& fmt.file_size == (match f.content_length {
                Some(cl) => spec_parse_u64(cl@),
                None => None::<u64>,
            })
            &&& fmt.bitrate == (match f.average_bitrate {
                Some(b) => Some(b as u32),
                None => None::<u32>,
            })
            &&& fmt.codec == f.codec
        },
{
    let url = match &f.url {
        Some(u) => u.clone(),
        None => {
            return None;
        },
    };
    let mime = match &f.mime_type {
        Some(m) => m,
        None => {
            return None;
        },
    };
    let mchars = str_to_chars(mime.as_str());
    let audio_pat = str_to_chars("audio");
    let video_pat = str_to_chars("video");
    let mp4_pat = str_to_chars("mp4");
    let is_audio = contains_sub(&mchars, &audio_pat);
    let is_video = contains_sub(&mchars, &video_pat);
    let has_mp4 = contains_sub(&mchars, &mp4_pat);
    if !is_audio && !is_video {
        return None;
    }
    if !has_mp4 && !is_audio {
        return None;
    }
    let format_type = if is_audio {
        FormatType::Audio
    } else {
        FormatType::Video
    };
    let file_extension = if is_audio {
        String::from_str("mp3")
    } else {
        String::from_str("mp4")
    };
    let quality: String = if is_audio {
        match f.average_bitrate {
            Some(b) => {
                let mut q = u64_to_dec(b / 1000);
                q.append("kbps");
                q
            },
            None => String::from_str("Audio"),
        }
    } else {
        match f.height {
            Some(h) => {
                let mut q = u64_to_dec(h);
                q.append("p");
                q
            },
            None => match &f.quality_label {
                Some(q) => q.clone(),
                None => String::from_str("Unknown"),
            },
        }
    };
    let mut fmt = Format::new(quality, format_type, file_extension, url);
    fmt.file_size = match &f.content_length {
        Some(cl) => crate::network::parse_u64(cl.as_str()),
        None => None,
    };
    fmt.bitrate = match f.average_bitrate {
        Some(b) => Some(b as u32),
        None => None,
    };
    fmt.codec = match &f.codec {
        Some(c) => Some(c.clone()),
        None => None,
    };
    Some(fmt)
}

/// Read the fields the parser needs out of one format object; a
/// missing or differently typed member leaves its field absent.
fn read_format_fields(v: &serde_json::Value) -> (f: FormatFields) {
    let url = match json_get(v, "url") {
        Some(x) => json_as_str(x),
        None => None,
    };
    let mime_type = match json_get(v, "mimeType") {
        Some(x) => json_as_str(x),
        None => None,
    };
    let height = match json_get(v, "height") {
        Some(x) => json_as_u64(x),
        None => None,
    };
    let quality_label = match json_get(v, "qualityLabel") {
        Some(x) => json_as_str(x),
        None => None,
    };
    let average_bitrate = match json_get(v, "averageBitrate") {
        Some(x) => json_as_u64(x),
        None => None,
    };
    let content_length = match json_get(v, "contentLength") {
        Some(x) => json_as_str(x),
        None => None,
    };
    let codec = match json_get(v, "codecs") {
        Some(x) => json_as_str(x),
        None => None,
    };
    FormatFields { url, mime_type, height, quality_label, average_bitrate, content_length, codec }
}

/// Parse every usable format object in a JSON array into `out`.
fn parse_format_array(arr: &Vec<serde_json::Value>, out: &mut Vec<Format>)
    ensures
        final(out)@.len() >= old(out)@.len(),
{
    let mut i: usize = 0;
    while i < arr.len()
        invariant
            out@.len() >= old(out)@.len(),
        decreases arr@.len() - i,
    {
        let fields = read_format_fields(&arr[i]);
        match parse_single_format(&fields) {
            Some(fmt) => out.push(fmt),
            None => (),
        }
        i = i + 1;
    }
}

/// Turns player-response JSON into `Format` values and orders them.
pub struct FormatExtractor;

impl FormatExtractor {
    /// Parse the available formats out of a player response: the
    /// adaptive formats and the combined formats under its streaming
    /// data, in that order.  An empty harvest is the `NoFormatsFound`
    /// error; success always carries at least one format.
    pub fn parse_formats(json_data: &serde_json::Value) -> (r: Result<Vec<Format>, DownloaderError>)
        ensures
            r matches Ok(v) ==> v@.len() >= 1,
            r matches Err(e) ==> e is NoFormatsFound,
    {
        let mut formats: Vec<Format> = Vec::new();
        match json_get(json_data, "streamingData") {
            Some(streaming) => {
                match json_get(streaming, "adaptiveFormats") {
                    Some(adaptive) => match json_as_array(adaptive) {
                        Some(arr) => parse_format_array(arr, &mut formats),
                        None => (),
                    },
                    None => (),
                }
                match json_get(streaming, "formats") {
                    Some(regular) => match json_as_array(regular) {
                        Some(arr) => parse_format_array(arr, &mut formats),
                        None => (),
                    },
                    None => (),
                }
            },
            None => (),
        }
        if formats.len() == 0 {
            Err(DownloaderError::NoFormatsFound)
        } else {
            Ok(formats)
        }
    }

    /// The formats of one kind, in the order they came in.
    pub fn filter_by_type(formats: &Vec<Format>, format_type: FormatType) -> (r: Vec<Format>)
        ensures
            r@ == formats@.filter(|f: Format| f.format_type == format_type),
    {
        let ghost pred = |f: Format| f.format_type == format_type;
        let mut r: Vec<Format> = Vec::new();
        let mut i: usize = 0;
        proof {
            assert(formats@.take(0).filter(pred) =~= Seq::<Format>::empty()) by {
                reveal(Seq::filter);
            }
        }
        while i < formats.len()
            invariant
                i <= formats@.len(),
                pred == (|f: Format| f.format_type == format_type),
                r@ == formats@.take(i as int).filter(pred),
            decreases formats@.len() - i,
        {
            proof {
                crate::strutil::lemma_filter_take_step(formats@, pred, i as int);
            }
            let f = &formats[i];
            match (f.format_type, format_type) {
                (FormatType::Audio, FormatType::Audio) => r.push(f.clone()),
                (FormatType::Video, FormatType::Video) => r.push(f.clone()),
                _ => (),
            }
            i = i + 1;
        }
        proof {
            assert(formats@.take(i as int) =~= formats@);
        }
        r
    }

    /// Sort formats best-first: all video before all audio, video by
    /// descending resolution, audio by descending bitrate.  The
    /// result holds exactly the same formats.
    pub fn sort_by_quality(formats: &mut Vec<Format>)
        ensures
            final(formats)@.to_multiset() == old(formats)@.to_multiset(),
            spec_formats_sorted(final(formats)@),
    {
        let mut out: Vec<Format> = Vec::new();
        proof {
            old(formats)@.to_multiset_ensures();
            assert(out@.to_multiset().add(formats@.to_multiset()) =~= old(
                formats,
            )@.to_multiset()) by {
                out@.to_multiset_ensures();
                formats@.to_multiset_ensures();
            }
        }
        while formats.len() > 0
            invariant
                out@.to_multiset().add(formats@.to_multiset()) == old(formats)@.to_multiset(),
                spec_formats_sorted(out@),
                forall|i: int, j: int|
                    0 <= i < out@.len() && 0 <= j < formats@.len() ==> spec_order_le(
                        #[trigger] out@[i],
                        #[trigger] formats@[j],
                    ),
            decreases formats@.len(),
        {
            let mi = min_format_index(formats);
            let ghost pre = formats@;
            let v = formats.remove(mi);
            let ghost mid = out@;
            out.push(v);
            proof {
                pre.to_multiset_ensures();
                mid.to_multiset_ensures();
                assert(out@.to_multiset().add(formats@.to_multiset()) =~= mid.to_multiset().add(
                    pre.to_multiset(),
                ));
                assert forall|i: int, j: int|
                    0 <= i < j < out@.len() implies spec_order_le(out@[i], out@[j]) by {
                    if j == out@.len() - 1 {
                        assert(out@[j] == pre[mi as int]);
                    }
                }
            }
        }
        proof {
            formats@.to_multiset_ensures();
            assert(formats@.to_multiset() =~= Multiset::<Format>::empty());
            assert(out@.to_multiset().add(Multiset::<Format>::empty()) =~= out@.to_multiset());
        }
        *formats = out;
    }
}

/// Video ranks before audio; within a kind, higher keys first.
pub open spec fn spec_rank(f: Format) -> int {
    match f.format_type {
        FormatType::Video => 0,
        FormatType::Audio => 1,
    }
}

/// The quality key inside a kind: pixel height for video, bitrate for
/// audio.
pub open spec fn spec_quality_key(f: Format) -> int {
    match f.format_type {
        FormatType::Video => spec_leading_number(f.quality@),
        FormatType::Audio => match f.bitrate {
            Some(b) => b as int,
            None => 0,
        },
    }
}

/// `a` sorts at or before `b`: a strictly better rank, or the same
/// rank and at least the same key.
pub open spec fn spec_order_le(a: Format, b: Format) -> bool {
    spec_rank(a) < spec_rank(b) || (spec_rank(a) == spec_rank(b) && spec_quality_key(a)
        >= spec_quality_key(b))
}

/// The sequence is ordered best-first.
pub open spec fn spec_formats_sorted(s: Seq<Format>) -> bool {
    forall|i: int, j: int| 0 <= i < j < s.len() ==> spec_order_le(#[trigger] s[i], #[trigger] s[j])
}

/// Whether `a` sorts at or before `b`.
fn order_le(a: &Format, b: &Format) -> (r: bool)
    ensures
        r == spec_order_le(*a, *b),
{
    let ra: u64 = match a.format_type {
        FormatType::Video => 0,
        FormatType::Audio => 1,
    };
    let rb: u64 = match b.format_type {
        FormatType::Video => 0,
        FormatType::Audio => 1,
    };
    if ra != rb {
        return ra < rb;
    }
    quality_key(a) >= quality_key(b)
}

/// The quality key of a format.
fn quality_key(f: &Format) -> (r: u32)
    ensures
        r == spec_quality_key(*f),
{
    match f.format_type {
        FormatType::Video => {
            let chars = str_to_chars(f.quality.as_str());
            parse_leading_u32(&chars)
        },
        FormatType::Audio => match f.bitrate {
            Some(b) => b,
            None => 0,
        },
    }
}

/// The index of a format that sorts at or before every other.
fn min_format_index(formats: &Vec<Format>) -> (mi: usize)
    requires
        formats@.len() > 0,
    ensures
        mi < formats@.len(),
        forall|k: int| 0 <= k < formats@.len() ==> spec_order_le(formats@[mi as int], #[trigger] formats@[k]),
{
    let mut mi: usize = 0;
    let mut k: usize = 1;
    while k < formats.len()
        invariant
            mi < k <= formats@.len(),
            forall|j: int| 0 <= j < k ==> spec_order_le(formats@[mi as int], #[trigger] formats@[j]),
        decreases formats@.len() - k,
    {
        if !order_le(&formats[mi], &formats[k]) {
            proof {
                lemma_order_total(formats@[mi as int], formats@[k as int]);
                assert forall|j: int| 0 <= j < k + 1 implies spec_order_le(
                    formats@[k as int],
                    #[trigger] formats@[j],
                ) by {
                    if j < k {
                        lemma_order_trans(
                            formats@[k as int],
                            formats@[mi as int],
                            formats@[j],
                        );
                    }
                }
            }
            mi = k;
        }
        k = k + 1;
    }
    mi
}

/// The order is total: one of the two directions always holds.
proof fn lemma_order_total(a: Format, b: Format)
    ensures
        spec_order_le(a, b) || spec_order_le(b, a),
{
}

/// The order is transitive.
proof fn lemma_order_trans(a: Format, b: Format, c: Format)
    requires
        spec_order_le(a, b),
        spec_order_le(b, c),
    ensures
        spec_order_le(a, c),
{
}

/// Keep only the supported containers: MP4 video, and any audio, then
/// order them best-first.
pub fn filter_formats(formats: Vec<Format>) -> (r: Vec<Format>)
    ensures
        r@.to_multiset() == formats@.filter(|f: Format| spec_format_supported(f)).to_multiset(),
        spec_formats_sorted(r@),
{
    let ghost pred = |f: Format| spec_format_supported(f);
    let mut kept: Vec<Format> = Vec::new();
    let mut i: usize = 0;
    proof {
        assert(formats@.take(0).filter(pred) =~= Seq::<Format>::empty()) by {
            reveal(Seq::filter);
        }
    }
    while i < formats.len()
        invariant
            i <= formats@.len(),
            pred == (|f: Format| spec_format_supported(f)),
            kept@ == formats@.take(i as int).filter(pred),
        decreases formats@.len() - i,
    {
        proof {
            crate::strutil::lemma_filter_take_step(formats@, pred, i as int);
        }
        let f = &formats[i];
        let keep: bool = match f.format_type {
            FormatType::Video => {
                let mp4 = String::from_str("mp4");
                f.file_extension == mp4
            },
            FormatType::Audio => true,
        };
        if keep {
            kept.push(f.clone());
        }
        i = i + 1;
    }
    proof {
        assert(formats@.take(i as int) =~= formats@);
    }
    FormatExtractor::sort_by_quality(&mut kept);
    kept
}

/// A format the downloader supports: MP4 video, or any audio.
pub open spec fn spec_format_supported(f: Format) -> bool {
    match f.format_type {
        FormatType::Video => f.file_extension@ == "mp4"@,
        FormatType::Audio => true,
    }
}

/// Compare two video quality labels by their leading number, higher
/// quality first.
pub fn compare_video_quality(a: &str, b: &str) -> (r: core::cmp::Ordering)
    ensures
        r == (if spec_leading_number(b@) < spec_leading_number(a@) {
            core::cmp::Ordering::Less
        } else if spec_leading_number(b@) == spec_leading_number(a@) {
            core::cmp::Ordering::Equal
        } else {
            core::cmp::Ordering::Greater
        }),
{
    let ac = str_to_chars(a);
    let bc = str_to_chars(b);
    let an = parse_leading_u32(&ac);
    let bn = parse_leading_u32(&bc);
    if bn < an {
        core::cmp::Ordering::Less
    } else if bn == an {
        core::cmp::Ordering::Equal
    } else {
        core::cmp::Ordering::Greater
    }
}

/// A duration rendered as `M:SS`, or `H:MM:SS` from one hour up.
pub open spec fn spec_duration_string(total_seconds: u64) -> Seq<char> {
    let s = total_seconds as int;
    if s / 3600 > 0 {
        spec_dec(s / 3600) + ":"@ + spec_dec2((s % 3600) / 60) + ":"@ + spec_dec2(s % 60)
    } else {
        spec_dec((s % 3600) / 60) + ":"@ + spec_dec2(s % 60)
    }
}

/// Render a duration in seconds for people.
pub fn format_duration(total_seconds: u64) -> (r: String)
    ensures
        r@ == spec_duration_string(total_seconds),
{
    let hours = total_seconds / 3600;
    let minutes = (total_seconds % 3600) / 60;
    let seconds = total_seconds % 60;
    if hours > 0 {
        let mut s = u64_to_dec(hours);
        s.append(":");
        push_dec_pad2(&mut s, minutes);
        s.append(":");
        push_dec_pad2(&mut s, seconds);
        assert(s@ =~= spec_duration_string(total_seconds));
        s
    } else {
        let mut s = u64_to_dec(minutes);
        s.append(":");
        push_dec_pad2(&mut s, seconds);
        assert(s@ =~= spec_duration_string(total_seconds));
        s
    }
}

/// The six HTML entities decoded, applied one after the other in this
/// order, exactly as chained replacements behave.
pub open spec fn spec_decode_entities(s: Seq<char>) -> Seq<char> {
    spec_replace(
        spec_replace(
            spec_replace(
                spec_replace(
                    spec_replace(spec_replace(s, "&amp;"@, "&"@), "&lt;"@, "<"@),
                    "&gt;"@,
                    ">"@,
                ),
                "&quot;"@,
                "\""@,
            ),
            "&#39;"@,
            "'"@,
        ),
        "&apos;"@,
        "'"@,
    )
}

/// Decode the common HTML entities in scraped text.
pub fn decode_html_entities(text: &str) -> (r: String)
    ensures
        r@ == spec_decode_entities(text@),
{
    proof {
        reveal_strlit("&amp;");
        reveal_strlit("&lt;");
        reveal_strlit("&gt;");
        reveal_strlit("&quot;");
        reveal_strlit("&#39;");
        reveal_strlit("&apos;");
    }
    let mut v = str_to_chars(text);
    v = replace_all(&v, &str_to_chars("&amp;"), &str_to_chars("&"));
    v = replace_all(&v, &str_to_chars("&lt;"), &str_to_chars("<"));
    v = replace_all(&v, &str_to_chars("&gt;"), &str_to_chars(">"));
    v = replace_all(&v, &str_to_chars("&quot;"), &str_to_chars("\""));
    v = replace_all(&v, &str_to_chars("&#39;"), &str_to_chars("'"));
    v = replace_all(&v, &str_to_chars("&apos;"), &str_to_chars("'"));
    chars_to_string(&v)
}

} // verus!

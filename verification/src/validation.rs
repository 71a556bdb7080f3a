//! URL and path validation: recognizing YouTube watch URLs, extracting
//! the eleven-character video identifier, and keeping output paths and
//! filenames filesystem-safe.

use vstd::prelude::*;

use crate::error::DownloaderError;
use crate::strutil::{chars_to_string, matches_at, matches_at_exec, str_to_chars};
use vstd::string::StringSliceAdditionalSpecFns;

verus! {

/// Validates URLs and output paths.
pub struct UrlValidator;

/// A character allowed in a video identifier: ASCII letters, digits,
/// underscore and hyphen.
pub open spec fn spec_is_id_char(c: char) -> bool {
    ||| 97 <= (c as u32) <= 122
    ||| 65 <= (c as u32) <= 90
    ||| 48 <= (c as u32) <= 57
    ||| c == '_'
    ||| c == '-'
}

/// Eleven consecutive identifier characters start at position `i`.
pub open spec fn spec_id_run_at(s: Seq<char>, i: int) -> bool {
    i + 11 <= s.len() && forall|k: int| i <= k < i + 11 ==> spec_is_id_char(#[trigger] s[k])
}

/// Position just after the URL scheme, or -1 when neither `https://`
/// nor `http://` opens the string.
pub open spec fn spec_scheme_end(s: Seq<char>) -> int {
    if matches_at(s, "https://"@, 0) {
        8
    } else if matches_at(s, "http://"@, 0) {
        7
    } else {
        -1
    }
}

/// Position where the host part begins, skipping an optional `www.`,
/// or -1 without a scheme.
pub open spec fn spec_host_start(s: Seq<char>) -> int {
    let e = spec_scheme_end(s);
    if e < 0 {
        -1
    } else if matches_at(s, "www."@, e) {
        e + 4
    } else {
        e
    }
}

/// Position where the video identifier must start, just after one of
/// the four recognized host-and-path shapes, or -1 when none matches.
pub open spec fn spec_id_start(s: Seq<char>) -> int {
    let h = spec_host_start(s);
    if h < 0 {
        -1
    } else if matches_at(s, "youtube.com/watch?v="@, h) {
        h + 20
    } else if matches_at(s, "youtu.be/"@, h) {
        h + 9
    } else if matches_at(s, "youtube.com/embed/"@, h) {
        h + 18
    } else if matches_at(s, "youtube.com/v/"@, h) {
        h + 14
    } else {
        -1
    }
}

/// A YouTube watch URL: a scheme, an optional `www.`, one of the four
/// recognized host-and-path shapes, and an eleven-character video
/// identifier; anything may follow.
pub open spec fn spec_is_valid_youtube_url(s: Seq<char>) -> bool {
    spec_id_start(s) >= 0 && spec_id_run_at(s, spec_id_start(s))
}

/// The video identifier of a valid YouTube URL.
pub open spec fn spec_video_id(s: Seq<char>) -> Seq<char>
    recommends
        spec_is_valid_youtube_url(s),
{
    s.subrange(spec_id_start(s), spec_id_start(s) + 11)
}

/// Where the video identifier starts in `v`, or `None` when `v` does
/// not have the shape of a YouTube watch URL.
fn find_id_start(v: &Vec<char>) -> (r: Option<usize>)
    ensures
        match r {
            Some(i) => spec_id_start(v@) == i,
            None => spec_id_start(v@) < 0,
        },
{
    proof {
        reveal_strlit("https://");
        reveal_strlit("http://");
        reveal_strlit("www.");
        reveal_strlit("youtube.com/watch?v=");
        reveal_strlit("youtu.be/");
        reveal_strlit("youtube.com/embed/");
        reveal_strlit("youtube.com/v/");
    }
    let https = str_to_chars("https://");
    let http = str_to_chars("http://");
    let www = str_to_chars("www.");
    let scheme_end: usize = if matches_at_exec(v, &https, 0) {
        8
    } else if matches_at_exec(v, &http, 0) {
        7
    } else {
        return None;
    };
    let host_start: usize = if matches_at_exec(v, &www, scheme_end) {
        scheme_end + 4
    } else {
        scheme_end
    };
    let watch = str_to_chars("youtube.com/watch?v=");
    let short = str_to_chars("youtu.be/");
    let embed = str_to_chars("youtube.com/embed/");
    let plain = str_to_chars("youtube.com/v/");
    if matches_at_exec(v, &watch, host_start) {
        Some(host_start + 20)
    } else if matches_at_exec(v, &short, host_start) {
        Some(host_start + 9)
    } else if matches_at_exec(v, &embed, host_start) {
        Some(host_start + 18)
    } else if matches_at_exec(v, &plain, host_start) {
        Some(host_start + 14)
    } else {
        None
    }
}

/// Whether `c` may appear in a video identifier.
fn is_id_char(c: char) -> (b: bool)
    ensures
        b == spec_is_id_char(c),
{
    let u = c as u32;
    (97 <= u && u <= 122) || (65 <= u && u <= 90) || (48 <= u && u <= 57) || c == '_' || c == '-'
}

/// Eleven identifier characters sit at position `i` of `v`.
fn id_run_at(v: &Vec<char>, i: usize) -> (b: bool)
    ensures
        b == spec_id_run_at(v@, i as int),
{
    if v.len() < 11 || i > v.len() - 11 {
        return false;
    }
    let mut k: usize = 0;
    while k < 11
        invariant
            i + 11 <= v@.len(),
            v@.len() <= usize::MAX,
            k <= 11,
            forall|j: int| i <= j < i + k ==> spec_is_id_char(#[trigger] v@[j]),
        decreases 11 - k,
    {
        if !is_id_char(v[i + k]) {
            return false;
        }
        k = k + 1;
    }
    true
}

impl UrlValidator {
    /// Whether `url` is a YouTube watch URL the downloader accepts.
    pub fn is_valid_youtube_url(url: &str) -> (b: bool)
        ensures
            b == spec_is_valid_youtube_url(url@),
    {
        let v = str_to_chars(url);
        match find_id_start(&v) {
            Some(i) => id_run_at(&v, i),
            None => false,
        }
    }

    /// The eleven-character video identifier of `url`, or an
    /// `InvalidUrl` error carrying the rejected URL.
    pub fn extract_video_id(url: &str) -> (r: Result<String, DownloaderError>)
        ensures
            spec_is_valid_youtube_url(url@) ==> (r matches Ok(id) && id@ == spec_video_id(
                url@,
            )),
            !spec_is_valid_youtube_url(url@) ==> (r matches Err(DownloaderError::InvalidUrl(u))
                && u@ == url@),
    {
        let v = str_to_chars(url);
        match find_id_start(&v) {
            Some(i) => {
                if id_run_at(&v, i) {
                    let total = v.len();
                    let mut id: Vec<char> = Vec::new();
                    let mut k: usize = 0;
                    while k < 11
                        invariant
                            i + 11 <= v@.len(),
                            v@.len() == total,
                            k <= 11,
                            id@ == v@.subrange(i as int, i + k),
                        decreases 11 - k,
                    {
                        id.push(v[i + k]);
                        assert(id@ =~= v@.subrange(i as int, i + k + 1));
                        k = k + 1;
                    }
                    Ok(chars_to_string(&id))
                } else {
                    Err(DownloaderError::InvalidUrl(url.to_owned()))
                }
            },
            None => Err(DownloaderError::InvalidUrl(url.to_owned())),
        }
    }

    /// The canonical watch URL for the video `url` points at.
    pub fn normalize_url(url: &str) -> (r: Result<String, DownloaderError>)
        ensures
            spec_is_valid_youtube_url(url@) ==> (r matches Ok(n) && n@
                == "https://www.youtube.com/watch?v="@ + spec_video_id(url@)),
            !spec_is_valid_youtube_url(url@) ==> (r matches Err(DownloaderError::InvalidUrl(u))
                && u@ == url@),
    {
        match Self::extract_video_id(url) {
            Ok(id) => {
                let mut s = String::from_str("https://www.youtube.com/watch?v=");
                s.append(id.as_str());
                Ok(s)
            },
            Err(e) => Err(e),
        }
    }

    /// Whether `path` is acceptable as an output path.
    pub fn is_valid_output_path(path: &str) -> (b: bool)
        ensures
            b == spec_is_valid_output_path(path@),
    {
        let n = path.unicode_len();
        if n == 0 || path.len() > 255 {
            return false;
        }
        let v = str_to_chars(path);
        let mut i: usize = 0;
        while i < v.len()
            invariant
                i <= v@.len(),
                v@ == path@,
                path@.len() > 0,
                vstd::utf8::encode_utf8(path@).len() as usize <= 255,
                forall|j: int| 0 <= j < i ==> !spec_is_invalid_path_char(#[trigger] v@[j]),
            decreases v@.len() - i,
        {
            if is_invalid_path_char(v[i]) {
                return false;
            }
            i = i + 1;
        }
        if has_reserved_prefix(&v) {
            return false;
        }
        let last = v[v.len() - 1];
        if last == ' ' || last == '.' {
            return false;
        }
        true
    }

    /// Replace characters a filesystem would refuse, trim trailing
    /// spaces and dots, never return an empty name, and cap the length
    /// at 200 characters.
    pub fn sanitize_filename(filename: &str) -> (r: String)
        ensures
            r@ == spec_sanitize_filename(filename@),
    {
        let v = str_to_chars(filename);
        let mut out: Vec<char> = Vec::new();
        let mut i: usize = 0;
        while i < v.len()
            invariant
                i <= v@.len(),
                out@ == v@.subrange(0, i as int).map_values(|c: char| spec_sanitize_char(c)),
            decreases v@.len() - i,
        {
            out.push(sanitize_char(v[i]));
            assert(out@ =~= v@.subrange(0, i + 1).map_values(|c: char| spec_sanitize_char(c)));
            i = i + 1;
        }
        assert(v@.subrange(0, v@.len() as int) =~= v@);
        let ghost mapped = v@.map_values(|c: char| spec_sanitize_char(c));
        loop
            invariant
                spec_trim_trailing(mapped) == spec_trim_trailing(out@),
            ensures
                spec_trim_trailing(mapped) == spec_trim_trailing(out@),
                out@.len() == 0 || (out@.last() != ' ' && out@.last() != '.'),
            decreases out@.len(),
        {
            if out.len() == 0 {
                break;
            }
            let last = out[out.len() - 1];
            if last != ' ' && last != '.' {
                break;
            }
            proof {
                assert(out@.drop_last() =~= out@.subrange(0, out@.len() - 1));
            }
            out.pop();
        }
        assert(spec_trim_trailing(out@) == out@);
        if out.len() == 0 {
            proof {
                reveal_strlit("video");
            }
            return String::from_str("video");
        }
        if out.len() > 200 {
            out.truncate(200);
        }
        chars_to_string(&out)
    }
}

/// A character not allowed in output paths: shell-hostile punctuation
/// or a control character.
pub open spec fn spec_is_invalid_path_char(c: char) -> bool {
    ||| c == '<'
    ||| c == '>'
    ||| c == ':'
    ||| c == '"'
    ||| c == '|'
    ||| c == '?'
    ||| c == '*'
    ||| spec_is_control(c)
}

/// A Unicode control character.
pub open spec fn spec_is_control(c: char) -> bool {
    (c as u32) < 32 || (127 <= (c as u32) && (c as u32) <= 159)
}

/// ASCII uppercase folding for the reserved-name comparison.
pub open spec fn spec_ascii_upper(c: char) -> int {
    if 97 <= (c as u32) <= 122 {
        (c as u32) - 32
    } else {
        (c as u32) as int
    }
}

/// `s` starts, after ASCII uppercasing, with the word `name`, given as
/// its character codes.
pub open spec fn spec_upper_starts_with(s: Seq<char>, name: Seq<char>) -> bool {
    name.len() <= s.len() && forall|k: int|
        0 <= k < name.len() ==> spec_ascii_upper(#[trigger] s[k]) == name[k] as u32
}

/// `s` begins with a Windows-reserved device name: `CON`, `PRN`,
/// `AUX`, `NUL`, or `COM`/`LPT` followed by a digit 1 to 9.
pub open spec fn spec_has_reserved_prefix(s: Seq<char>) -> bool {
    ||| spec_upper_starts_with(s, "CON"@)
    ||| spec_upper_starts_with(s, "PRN"@)
    ||| spec_upper_starts_with(s, "AUX"@)
    ||| spec_upper_starts_with(s, "NUL"@)
    ||| (spec_upper_starts_with(s, "COM"@) && s.len() >= 4 && 49 <= spec_ascii_upper(s[3]) <= 57)
    ||| (spec_upper_starts_with(s, "LPT"@) && s.len() >= 4 && 49 <= spec_ascii_upper(s[3]) <= 57)
}

/// An output path is valid when it is short enough (255 bytes in its
/// UTF-8 form), free of hostile characters, not a reserved device
/// name, and does not end in a space or dot.
pub open spec fn spec_is_valid_output_path(s: Seq<char>) -> bool {
    &&& s.len() > 0
    &&& vstd::utf8::encode_utf8(s).len() as usize <= 255
    &&& forall|j: int| 0 <= j < s.len() ==> !spec_is_invalid_path_char(#[trigger] s[j])
    &&& !spec_has_reserved_prefix(s)
    &&& s[s.len() - 1] != ' '
    &&& s[s.len() - 1] != '.'
}

/// What `sanitize_filename` turns one character into.
pub open spec fn spec_sanitize_char(c: char) -> char {
    if spec_is_invalid_path_char(c) || c == '/' || c == '\\' {
        '_'
    } else {
        c
    }
}

/// `s` with trailing spaces and dots removed.
pub open spec fn spec_trim_trailing(s: Seq<char>) -> Seq<char>
    decreases s.len(),
{
    if s.len() > 0 && (s.last() == ' ' || s.last() == '.') {
        spec_trim_trailing(s.drop_last())
    } else {
        s
    }
}

/// The sanitized filename: characters mapped, trailing spaces and dots
/// trimmed, `video` when nothing remains, at most 200 characters.
pub open spec fn spec_sanitize_filename(s: Seq<char>) -> Seq<char> {
    let mapped = s.map_values(|c: char| spec_sanitize_char(c));
    let trimmed = spec_trim_trailing(mapped);
    let named = if trimmed.len() == 0 {
        "video"@
    } else {
        trimmed
    };
    if named.len() > 200 {
        named.take(200)
    } else {
        named
    }
}

fn is_invalid_path_char(c: char) -> (b: bool)
    ensures
        b == spec_is_invalid_path_char(c),
{
    let u = c as u32;
    c == '<' || c == '>' || c == ':' || c == '"' || c == '|' || c == '?' || c == '*' || u < 32 || (
    127 <= u && u <= 159)
}

fn sanitize_char(c: char) -> (r: char)
    ensures
        r == spec_sanitize_char(c),
{
    if is_invalid_path_char(c) || c == '/' || c == '\\' {
        '_'
    } else {
        c
    }
}

/// ASCII uppercase code of `c`.
fn ascii_upper(c: char) -> (r: u32)
    ensures
        r == spec_ascii_upper(c),
{
    let u = c as u32;
    if 97 <= u && u <= 122 {
        u - 32
    } else {
        u
    }
}

/// `v` starts, after ASCII uppercasing, with `name`.
fn upper_starts_with(v: &Vec<char>, name: &Vec<char>) -> (b: bool)
    ensures
        b == spec_upper_starts_with(v@, name@),
{
    if name.len() > v.len() {
        return false;
    }
    let mut k: usize = 0;
    while k < name.len()
        invariant
            name@.len() <= v@.len(),
            k <= name@.len(),
            forall|j: int| 0 <= j < k ==> spec_ascii_upper(#[trigger] v@[j]) == name@[j] as u32,
        decreases name@.len() - k,
    {
        if ascii_upper(v[k]) != name[k] as u32 {
            return false;
        }
        k = k + 1;
    }
    true
}

/// Whether `v` starts with a reserved device name.
fn has_reserved_prefix(v: &Vec<char>) -> (b: bool)
    ensures
        b == spec_has_reserved_prefix(v@),
{
    proof {
        reveal_strlit("CON");
        reveal_strlit("PRN");
        reveal_strlit("AUX");
        reveal_strlit("NUL");
        reveal_strlit("COM");
        reveal_strlit("LPT");
    }
    let con = str_to_chars("CON");
    let prn = str_to_chars("PRN");
    let aux = str_to_chars("AUX");
    let nul = str_to_chars("NUL");
    let com = str_to_chars("COM");
    let lpt = str_to_chars("LPT");
    if upper_starts_with(v, &con) || upper_starts_with(v, &prn) || upper_starts_with(v, &aux)
        || upper_starts_with(v, &nul) {
        return true;
    }
    if v.len() >= 4 && (upper_starts_with(v, &com) || upper_starts_with(v, &lpt)) {
        let d = ascii_upper(v[3]);
        if 49 <= d && d <= 57 {
            return true;
        }
    }
    false
}

} // verus!

//! What the media player reads off its machine: removable partitions in
//! `lsblk` output, the media kind in `ffprobe` output, and web addresses.

use crate::media::{ProcType, Usb};
use crate::text::{same_text, split_words, texts_of, words};
use vstd::prelude::*;

verus! {

/// The pattern of a removable partition name: "sd", a drive letter a to c (the
/// class also holds a comma), and a partition number 1 to 4.
pub const PARTITION_PATTERN: &'static str = r"sd[a,b,c][1-4]";

/// The pattern that finds the first stream's codec type in `ffprobe` output.
pub const CODEC_TYPE_PATTERN: &'static str = r"\scodec_type=(?<media>\w+)\b";

/// The pattern of an accepted web address.
pub const URL_PATTERN: &'static str = r"^(https?://)?([\da-z\.-]+)\.([a-z\.]{2,6})([\/\w \.-]*)*\/?$";

/// Whether `s` holds `PARTITION_PATTERN` somewhere.
pub open spec fn has_partition_name(s: Seq<char>) -> bool {
    exists|i: int|
        0 <= i && i + 4 <= s.len() && #[trigger] s[i] == 's' && s[i + 1] == 'd' && (s[i + 2] == 'a'
            || s[i + 2] == ',' || s[i + 2] == 'b' || s[i + 2] == 'c') && '1' <= s[i + 3] && s[i + 3] <= '4'
}

/// The text of the `media` group of the first match of `CODEC_TYPE_PATTERN` in
/// `s`, if there is a match.
pub uninterp spec fn codec_type_capture(s: Seq<char>) -> Option<Seq<char>>;

/// Whether `URL_PATTERN` matches `s`.
pub uninterp spec fn url_pattern_match(s: Seq<char>) -> bool;

/// Relies on `regex::Regex::new` and `Regex::is_match` for `PARTITION_PATTERN`:
/// unanchored, with ASCII classes only, it matches exactly where four characters
/// in a row are as `has_partition_name` says. The pattern is valid, so the error
/// arm is not taken.
#[verifier::external_body]
fn matches_partition_pattern(line: &str) -> (r: bool)
    ensures
        r == has_partition_name(line@),
{
    match regex::Regex::new(PARTITION_PATTERN) {
        Ok(re) => re.is_match(line),
        Err(_) => false,
    }
}

/// Relies on `regex::Regex::new`, `Regex::captures` and `Captures::name` for
/// `CODEC_TYPE_PATTERN`: the text of the `media` group in the first match, which
/// depends on `probe` alone.
#[verifier::external_body]
fn codec_type(probe: &str) -> (r: Option<String>)
    ensures
        r matches Some(t) ==> codec_type_capture(probe@) == Some(t@),
        r is None ==> codec_type_capture(probe@) is None,
{
    match regex::Regex::new(CODEC_TYPE_PATTERN) {
        Ok(re) => match re.captures(probe) {
            Some(caps) => match caps.name("media") {
                Some(m) => Some(m.as_str().to_string()),
                None => None,
            },
            None => None,
        },
        Err(_) => None,
    }
}

/// Relies on `regex::Regex::new` and `Regex::is_match` for `URL_PATTERN`; the
/// answer depends on `url` alone.
#[verifier::external_body]
fn matches_url_pattern(url: &str) -> (r: bool)
    ensures
        r == url_pattern_match(url@),
{
    match regex::Regex::new(URL_PATTERN) {
        Ok(re) => re.is_match(url),
        Err(_) => false,
    }
}

/// The removable partition that one line of `lsblk -l -o NAME,HOTPLUG` lists:
/// the line names a partition, and its second word, the hot-plug flag, is "1".
/// `None` for any other line, and for one with fewer than two words.
pub open spec fn spec_hotplug_partition(line: Seq<char>) -> Option<Seq<char>> {
    if has_partition_name(line) && words(line).len() >= 2 && words(line)[1] == "1"@ {
        Some(words(line)[0])
    } else {
        None
    }
}

/// The removable partition on one line of `lsblk` output, if it lists one; its
/// name may still be one the player does not know (`Usb::UNKNOWN`).
pub fn hotplug_partition(line: &str) -> (r: Option<Usb>)
    ensures
        r is Some <==> spec_hotplug_partition(line@) is Some,
        r matches Some(u) ==> u != Usb::UNKNOWN ==> Some(u.name()) == spec_hotplug_partition(line@),
{
    if !matches_partition_pattern(line) {
        return None;
    }
    let w = split_words(line);
    if w.len() < 2 {
        return None;
    }
    proof {
        assert(w@[1]@ == texts_of(w@)[1]);
        assert(w@[0]@ == texts_of(w@)[0]);
    }
    if same_text(w[1].as_str(), "1") {
        Some(Usb::from_name(w[0].as_str()))
    } else {
        None
    }
}

/// The media kind of the first codec type that `ffprobe` reports: audio for
/// "audio", video for anything else; `None` when it reports none.
pub fn media_kind(probe: &str) -> (r: Option<ProcType>)
    ensures
        r is None <==> codec_type_capture(probe@) is None,
        r matches Some(k) ==> k == (if codec_type_capture(probe@) == Some("audio"@) {
            ProcType::Audio
        } else {
            ProcType::Video
        }),
{
    match codec_type(probe) {
        Some(t) => {
            if same_text(t.as_str(), "audio") {
                Some(ProcType::Audio)
            } else {
                Some(ProcType::Video)
            }
        },
        None => None,
    }
}

/// Whether `url` has the shape of a web address that the player opens.
pub fn url_format_correct(url: &str) -> (r: bool)
    ensures
        r == url_pattern_match(url@),
{
    matches_url_pattern(url)
}

} // verus!

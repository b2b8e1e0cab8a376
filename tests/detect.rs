use mediatimer::detect::{hotplug_partition, media_kind, url_format_correct};
use mediatimer::media::{AdvancedSchedule, Autoloop, ProcType, Usb};
use mediatimer::text::{same_text, split_words, trimmed};

#[test]
fn removable_partitions_are_found_in_lsblk_lines() {
    assert_eq!(hotplug_partition("sdb1      1"), Some(Usb::SDB1));
    assert_eq!(hotplug_partition("  sdc4 1  "), Some(Usb::SDC4));
    assert_eq!(hotplug_partition("sda2      0"), None);
    assert_eq!(hotplug_partition("nvme0n1p1 0"), None);
    assert_eq!(hotplug_partition("NAME HOTPLUG"), None);
    assert_eq!(hotplug_partition("sdb1"), None);
}

#[test]
fn partition_names_the_player_does_not_know_are_unknown() {
    assert_eq!(hotplug_partition("xsda11 1"), Some(Usb::UNKNOWN));
    assert_eq!(Usb::from_name("sdb3"), Usb::SDB3);
    assert_eq!(Usb::from_name("sdd1"), Usb::UNKNOWN);
    assert_eq!(Usb::from_name(""), Usb::UNKNOWN);
}

#[test]
fn ffprobe_output_gives_the_media_kind() {
    let video = "[STREAM]\ncodec_type=video\n[/STREAM]\n[STREAM]\ncodec_type=audio\n[/STREAM]\n";
    assert_eq!(media_kind(video), Some(ProcType::Video));
    let audio = "[STREAM]\ncodec_type=audio\n[/STREAM]\n";
    assert_eq!(media_kind(audio), Some(ProcType::Audio));
    let data = "[STREAM]\ncodec_type=data\n[/STREAM]\n";
    assert_eq!(media_kind(data), Some(ProcType::Video));
    assert_eq!(media_kind("no streams"), None);
}

#[test]
fn web_addresses_are_checked() {
    assert!(url_format_correct("https://example.org"));
    assert!(url_format_correct("http://www.example.co.uk/page/one"));
    assert!(!url_format_correct("not a url"));
    assert!(!url_format_correct(""));
}

#[test]
fn configuration_values_select_kinds() {
    assert_eq!(ProcType::from_config("audio"), ProcType::Audio);
    assert_eq!(ProcType::from_config("slideshow"), ProcType::Slideshow);
    assert_eq!(ProcType::from_config("executable"), ProcType::Executable);
    assert_eq!(ProcType::from_config("video"), ProcType::Video);
    assert_eq!(ProcType::from_config("Audio"), ProcType::Video);
    assert_eq!(Autoloop::from_config("true"), Autoloop::Yes);
    assert_eq!(Autoloop::from_config("yes"), Autoloop::No);
    assert_eq!(AdvancedSchedule::from_config("true"), AdvancedSchedule::Yes);
    assert_eq!(AdvancedSchedule::from_config("false"), AdvancedSchedule::No);
}

#[test]
fn words_drop_blank_runs() {
    assert_eq!(split_words("  Mounted /dev/sdb1 at  /media/user/KEY \n"), vec!["Mounted", "/dev/sdb1", "at", "/media/user/KEY"]);
    assert_eq!(split_words("MountPoints:"), vec!["MountPoints:"]);
    assert!(split_words("   ").is_empty());
}

#[test]
fn text_helpers_follow_std() {
    assert!(same_text("abc", "abc"));
    assert!(!same_text("abc", "abd"));
    assert!(!same_text("ab", "abc"));
    assert_eq!(trimmed("\u{3000} a b \t"), "a b");
    assert_eq!(trimmed("   "), "");
}

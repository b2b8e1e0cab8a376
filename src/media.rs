//! What a scheduled media task is: which kind of player it runs, whether it
//! loops, and on which days and times it plays.

use crate::text::{lemma_pieces_append, lemma_pieces_without_sep, pieces, same_text, split_pieces, trim, trimmed};
use crate::timing::{is_timing_entry, timing_format_correct, timing_shape};
use vstd::prelude::*;

verus! {

/// The kind of media a task plays, which decides the player it runs.
#[derive(Clone, Copy, Debug, PartialEq, Eq, Structural)]
pub enum ProcType {
    Video,
    Audio,
    Image,
    Slideshow,
    Web,
    Browser,
    Executable,
}

impl ProcType {
    /// The kind named by a configuration value; an unknown name means video.
    pub open spec fn spec_from_config(value: Seq<char>) -> ProcType {
        if value == "audio"@ {
            ProcType::Audio
        } else if value == "image"@ {
            ProcType::Image
        } else if value == "slideshow"@ {
            ProcType::Slideshow
        } else if value == "web"@ {
            ProcType::Web
        } else if value == "browser"@ {
            ProcType::Browser
        } else if value == "executable"@ {
            ProcType::Executable
        } else {
            ProcType::Video
        }
    }

    pub fn from_config(value: &str) -> (r: ProcType)
        ensures
            r == ProcType::spec_from_config(value@),
    {
        if same_text(value, "audio") {
            ProcType::Audio
        } else if same_text(value, "image") {
            ProcType::Image
        } else if same_text(value, "slideshow") {
            ProcType::Slideshow
        } else if same_text(value, "web") {
            ProcType::Web
        } else if same_text(value, "browser") {
            ProcType::Browser
        } else if same_text(value, "executable") {
            ProcType::Executable
        } else {
            ProcType::Video
        }
    }
}

/// Whether the player loops its file.
#[derive(Clone, Copy, Debug, PartialEq, Eq, Structural)]
pub enum Autoloop {
    Yes,
    No,
}

impl Autoloop {
    /// "true" turns looping on; any other value leaves it off.
    pub fn from_config(value: &str) -> (r: Autoloop)
        ensures
            r == (if value@ == "true"@ { Autoloop::Yes } else { Autoloop::No }),
    {
        if same_text(value, "true") {
            Autoloop::Yes
        } else {
            Autoloop::No
        }
    }
}

/// Whether a task follows a weekly timetable or runs at once.
#[derive(Clone, Copy, Debug, PartialEq, Eq, Structural)]
pub enum AdvancedSchedule {
    Yes,
    No,
}

impl AdvancedSchedule {
    /// "true" turns the timetable on; any other value leaves it off.
    pub fn from_config(value: &str) -> (r: AdvancedSchedule)
        ensures
            r == (if value@ == "true"@ { AdvancedSchedule::Yes } else { AdvancedSchedule::No }),
    {
        if same_text(value, "true") {
            AdvancedSchedule::Yes
        } else {
            AdvancedSchedule::No
        }
    }
}

/// The (start, end) times of one day, each as written in the configuration.
pub type Schedule = Vec<(String, String)>;

/// One day of the week with its play times.
#[derive(Clone, Debug)]
pub enum Weekday {
    Monday(Schedule),
    Tuesday(Schedule),
    Wednesday(Schedule),
    Thursday(Schedule),
    Friday(Schedule),
    Saturday(Schedule),
    Sunday(Schedule),
}

impl Weekday {
    /// The English name of the day.
    pub open spec fn name(&self) -> Seq<char> {
        match self {
            Weekday::Monday(_) => "Monday"@,
            Weekday::Tuesday(_) => "Tuesday"@,
            Weekday::Wednesday(_) => "Wednesday"@,
            Weekday::Thursday(_) => "Thursday"@,
            Weekday::Friday(_) => "Friday"@,
            Weekday::Saturday(_) => "Saturday"@,
            Weekday::Sunday(_) => "Sunday"@,
        }
    }

    /// The play times of the day.
    pub open spec fn times(&self) -> Seq<(String, String)> {
        match self {
            Weekday::Monday(t) => t@,
            Weekday::Tuesday(t) => t@,
            Weekday::Wednesday(t) => t@,
            Weekday::Thursday(t) => t@,
            Weekday::Friday(t) => t@,
            Weekday::Saturday(t) => t@,
            Weekday::Sunday(t) => t@,
        }
    }

    pub fn as_str(&self) -> (r: &'static str)
        ensures
            r@ == self.name(),
    {
        match self {
            Weekday::Monday(_) => "Monday",
            Weekday::Tuesday(_) => "Tuesday",
            Weekday::Wednesday(_) => "Wednesday",
            Weekday::Thursday(_) => "Thursday",
            Weekday::Friday(_) => "Friday",
            Weekday::Saturday(_) => "Saturday",
            Weekday::Sunday(_) => "Sunday",
        }
    }

    /// The name of the day as an owned string.
    pub fn to_string(&self) -> (r: String)
        ensures
            r@ == self.name(),
    {
        self.as_str().to_owned()
    }

    /// The same day with other play times.
    pub fn with_times(&self, times: Schedule) -> (r: Weekday)
        ensures
            r.name() == self.name(),
            r.times() == times@,
    {
        match self {
            Weekday::Monday(_) => Weekday::Monday(times),
            Weekday::Tuesday(_) => Weekday::Tuesday(times),
            Weekday::Wednesday(_) => Weekday::Wednesday(times),
            Weekday::Thursday(_) => Weekday::Thursday(times),
            Weekday::Friday(_) => Weekday::Friday(times),
            Weekday::Saturday(_) => Weekday::Saturday(times),
            Weekday::Sunday(_) => Weekday::Sunday(times),
        }
    }
}

/// Why a day's timetable text was refused.
#[derive(Clone, Copy, Debug, PartialEq, Eq, Structural)]
pub enum ScheduleError {
    /// A timetable entry is not "HH:MM:SS-HH:MM:SS" with hours below 24.
    IncorrectFormat,
}

/// The entries of a day's timetable text: its comma-separated pieces, trimmed.
pub open spec fn schedule_entries(value: Seq<char>) -> Seq<Seq<char>> {
    pieces(value, ',').map_values(|e: Seq<char>| trim(e))
}

/// Whether every entry has a dash between its start and its end.
pub open spec fn entries_have_ends(value: Seq<char>) -> bool {
    forall|k: int| 0 <= k < schedule_entries(value).len() ==> #[trigger] pieces(schedule_entries(value)[k], '-').len() >= 2
}

/// Whether the text holds an entry that is not a well-formed timetable entry.
pub open spec fn has_malformed_entry(value: Seq<char>) -> bool {
    exists|k: int| 0 <= k < schedule_entries(value).len() && !is_timing_entry(#[trigger] schedule_entries(value)[k])
}

/// An entry in the timetable's shape splits at its dash into start and end.
proof fn lemma_timing_entry_halves(e: Seq<char>)
    requires
        timing_shape(e),
    ensures
        pieces(e, '-') == seq![e.subrange(0, 8), e.subrange(9, 17)],
{
    let x = e.subrange(0, 8);
    let y = e.subrange(9, 17);
    lemma_pieces_without_sep(x, '-');
    let xd = x.push('-');
    assert(xd.drop_last() =~= x);
    assert(pieces(xd, '-') == seq![x, Seq::<char>::empty()]);
    lemma_pieces_append(xd, y, '-');
    assert(xd + y =~= e);
    assert(Seq::<char>::empty() + y =~= y);
    assert(seq![x, Seq::<char>::empty()].update(1, y) =~= seq![x, y]);
}

/// The day `day` with the play times written in `value`: entries separated by
/// commas, each "start-end", white space around an entry ignored. With an
/// advanced schedule every entry must be a well-formed "HH:MM:SS-HH:MM:SS";
/// otherwise the text before an entry's first dash is its start and the text up
/// to a second dash its end. Empty text gives no play times.
pub fn to_weekday(value: String, day: Weekday, schedule: AdvancedSchedule) -> (r: Result<Weekday, ScheduleError>)
    requires
        value@.len() > 0 && schedule == AdvancedSchedule::No ==> entries_have_ends(value@),
    ensures
        r is Err <==> value@.len() > 0 && schedule == AdvancedSchedule::Yes && has_malformed_entry(value@),
        r matches Ok(w) ==> {
            &&& w.name() == day.name()
            &&& value@.len() == 0 ==> w.times().len() == 0
            &&& value@.len() > 0 ==> {
                &&& w.times().len() == schedule_entries(value@).len()
                &&& forall|k: int| 0 <= k < w.times().len() ==> {
                    &&& (#[trigger] w.times()[k]).0@ == pieces(schedule_entries(value@)[k], '-')[0]
                    &&& w.times()[k].1@ == pieces(schedule_entries(value@)[k], '-')[1]
                }
            }
        },
{
    let mut day_schedule: Schedule = Vec::new();
    if !value.as_str().is_empty() {
        let ghost es = schedule_entries(value@);
        let parts = split_pieces(value.as_str(), ',');
        let mut entries: Vec<String> = Vec::new();
        let mut k: usize = 0;
        while k < parts.len()
            invariant
                value@.len() > 0,
                es == schedule_entries(value@),
                parts@.len() == es.len(),
                forall|j: int| 0 <= j < parts@.len() ==> #[trigger] parts@[j]@ == pieces(value@, ',')[j],
                k <= parts@.len(),
                entries@.len() == k,
                forall|j: int| 0 <= j < k ==> #[trigger] entries@[j]@ == es[j],
            decreases parts@.len() - k,
        {
            entries.push(trimmed(parts[k].as_str()));
            k = k + 1;
        }
        if schedule == AdvancedSchedule::Yes {
            let mut j: usize = 0;
            while j < entries.len()
                invariant
                    value@.len() > 0,
                    schedule == AdvancedSchedule::Yes,
                    es == schedule_entries(value@),
                    entries@.len() == es.len(),
                    forall|i: int| 0 <= i < entries@.len() ==> #[trigger] entries@[i]@ == es[i],
                    j <= entries@.len(),
                    forall|i: int| 0 <= i < j ==> is_timing_entry(#[trigger] es[i]),
                decreases entries@.len() - j,
            {
                if !timing_format_correct(entries[j].as_str()) {
                    assert(!is_timing_entry(es[j as int]));
                    assert(value@.len() > 0);
                    return Err(ScheduleError::IncorrectFormat);
                }
                j = j + 1;
            }
            assert forall|i: int| 0 <= i < es.len() implies #[trigger] pieces(es[i], '-').len() >= 2 by {
                lemma_timing_entry_halves(es[i]);
            }
            assert(!has_malformed_entry(value@));
        }
        let mut j: usize = 0;
        while j < entries.len()
            invariant
                entries@.len() == es.len(),
                forall|i: int| 0 <= i < entries@.len() ==> #[trigger] entries@[i]@ == es[i],
                forall|i: int| 0 <= i < es.len() ==> #[trigger] pieces(es[i], '-').len() >= 2,
                j <= entries@.len(),
                day_schedule@.len() == j,
                forall|i: int| 0 <= i < j ==> {
                    &&& (#[trigger] day_schedule@[i]).0@ == pieces(es[i], '-')[0]
                    &&& day_schedule@[i].1@ == pieces(es[i], '-')[1]
                },
            decreases entries@.len() - j,
        {
            let halves = split_pieces(entries[j].as_str(), '-');
            assert(pieces(es[j as int], '-').len() >= 2);
            let start = halves[0].clone();
            let end = halves[1].clone();
            day_schedule.push((start, end));
            j = j + 1;
        }
    }
    Ok(day.with_times(day_schedule))
}

/// One media task: what to play, how, and when.
#[derive(Debug)]
pub struct Task {
    pub proc_type: ProcType,
    pub auto_loop: Autoloop,
    pub timings: Vec<Weekday>,
    pub file: String,
    pub slide_delay: u32,
    pub web_url: String,
}

impl Task {
    /// A task with no web address.
    pub fn new(proc_type: ProcType, auto_loop: Autoloop, timings: Vec<Weekday>, file: String, slide_delay: u32) -> (r: Task)
        ensures
            r.proc_type == proc_type,
            r.auto_loop == auto_loop,
            r.timings@ == timings@,
            r.file@ == file@,
            r.slide_delay == slide_delay,
            r.web_url@ == Seq::<char>::empty(),
    {
        Task { proc_type, auto_loop, timings, file, slide_delay, web_url: String::new() }
    }

    /// The same task showing the page at `web_url`.
    pub fn with_web_url(self, web_url: String) -> (r: Task)
        ensures
            r.proc_type == self.proc_type,
            r.auto_loop == self.auto_loop,
            r.timings@ == self.timings@,
            r.file@ == self.file@,
            r.slide_delay == self.slide_delay,
            r.web_url@ == web_url@,
    {
        Task { web_url, ..self }
    }
}

/// A USB partition that the media player knows how to mount.
#[derive(Clone, Copy, Debug, PartialEq, Eq, Structural)]
pub enum Usb {
    SDA1,
    SDA2,
    SDA3,
    SDA4,
    SDB1,
    SDB2,
    SDB3,
    SDB4,
    SDC1,
    SDC2,
    SDC3,
    SDC4,
    UNKNOWN,
}

impl Usb {
    /// The kernel's name of the partition; empty for an unknown one.
    pub open spec fn name(self) -> Seq<char> {
        match self {
            Usb::SDA1 => "sda1"@,
            Usb::SDA2 => "sda2"@,
            Usb::SDA3 => "sda3"@,
            Usb::SDA4 => "sda4"@,
            Usb::SDB1 => "sdb1"@,
            Usb::SDB2 => "sdb2"@,
            Usb::SDB3 => "sdb3"@,
            Usb::SDB4 => "sdb4"@,
            Usb::SDC1 => "sdc1"@,
            Usb::SDC2 => "sdc2"@,
            Usb::SDC3 => "sdc3"@,
            Usb::SDC4 => "sdc4"@,
            Usb::UNKNOWN => ""@,
        }
    }

    /// The device file of the partition; empty for an unknown one.
    pub open spec fn device_path(self) -> Seq<char> {
        match self {
            Usb::SDA1 => "/dev/sda1"@,
            Usb::SDA2 => "/dev/sda2"@,
            Usb::SDA3 => "/dev/sda3"@,
            Usb::SDA4 => "/dev/sda4"@,
            Usb::SDB1 => "/dev/sdb1"@,
            Usb::SDB2 => "/dev/sdb2"@,
            Usb::SDB3 => "/dev/sdb3"@,
            Usb::SDB4 => "/dev/sdb4"@,
            Usb::SDC1 => "/dev/sdc1"@,
            Usb::SDC2 => "/dev/sdc2"@,
            Usb::SDC3 => "/dev/sdc3"@,
            Usb::SDC4 => "/dev/sdc4"@,
            Usb::UNKNOWN => ""@,
        }
    }

    /// The partition with the kernel name `name`; `UNKNOWN` for any other name.
    pub fn from_name(name: &str) -> (r: Usb)
        ensures
            r != Usb::UNKNOWN ==> r.name() == name@,
            r == Usb::UNKNOWN ==> forall|u: Usb| u != Usb::UNKNOWN ==> u.name() != name@,
    {
        let all = [
            Usb::SDA1,
            Usb::SDA2,
            Usb::SDA3,
            Usb::SDA4,
            Usb::SDB1,
            Usb::SDB2,
            Usb::SDB3,
            Usb::SDB4,
            Usb::SDC1,
            Usb::SDC2,
            Usb::SDC3,
            Usb::SDC4,
        ];
        let mut i: usize = 0;
        while i < 12
            invariant
                all@ == seq![
                    Usb::SDA1,
                    Usb::SDA2,
                    Usb::SDA3,
                    Usb::SDA4,
                    Usb::SDB1,
                    Usb::SDB2,
                    Usb::SDB3,
                    Usb::SDB4,
                    Usb::SDC1,
                    Usb::SDC2,
                    Usb::SDC3,
                    Usb::SDC4,
                ],
                i <= 12,
                forall|j: int| 0 <= j < i ==> (#[trigger] all@[j]).name() != name@,
            decreases 12 - i,
        {
            let u = all[i];
            if same_text(u.as_str(), name) {
                return u;
            }
            i = i + 1;
        }
        proof {
            assert forall|u: Usb| u != Usb::UNKNOWN implies u.name() != name@ by {
                let j = choose|j: int| 0 <= j < 12 && all@[j] == u;
                assert(all@[j].name() != name@);
            }
        }
        Usb::UNKNOWN
    }

    pub fn as_str(&self) -> (r: &'static str)
        ensures
            r@ == self.name(),
    {
        match self {
            Usb::SDA1 => "sda1",
            Usb::SDA2 => "sda2",
            Usb::SDA3 => "sda3",
            Usb::SDA4 => "sda4",
            Usb::SDB1 => "sdb1",
            Usb::SDB2 => "sdb2",
            Usb::SDB3 => "sdb3",
            Usb::SDB4 => "sdb4",
            Usb::SDC1 => "sdc1",
            Usb::SDC2 => "sdc2",
            Usb::SDC3 => "sdc3",
            Usb::SDC4 => "sdc4",
            Usb::UNKNOWN => "",
        }
    }

    pub fn as_device_path(&self) -> (r: &'static str)
        ensures
            r@ == self.device_path(),
    {
        match self {
            Usb::SDA1 => "/dev/sda1",
            Usb::SDA2 => "/dev/sda2",
            Usb::SDA3 => "/dev/sda3",
            Usb::SDA4 => "/dev/sda4",
            Usb::SDB1 => "/dev/sdb1",
            Usb::SDB2 => "/dev/sdb2",
            Usb::SDB3 => "/dev/sdb3",
            Usb::SDB4 => "/dev/sdb4",
            Usb::SDC1 => "/dev/sdc1",
            Usb::SDC2 => "/dev/sdc2",
            Usb::SDC3 => "/dev/sdc3",
            Usb::SDC4 => "/dev/sdc4",
            Usb::UNKNOWN => "",
        }
    }
}

} // verus!

//! The program a media task runs: which player, with which arguments.

use crate::media::{Autoloop, ProcType, Task};
use crate::text::{decimal, decimal_text, texts_of};
use vstd::prelude::*;

verus! {

/// A player program to start for a task.
#[derive(Debug)]
pub struct PlayerCommand {
    /// The program's name, looked up on the search path.
    pub program: String,
    /// Its arguments, in order.
    pub args: Vec<String>,
    /// Whether it runs in a process group of its own, so that everything it
    /// starts can be stopped together.
    pub own_process_group: bool,
}

/// The player program for a kind of media.
pub open spec fn player_program(p: ProcType) -> Seq<char> {
    match p {
        ProcType::Video | ProcType::Audio => "ffplay"@,
        ProcType::Image | ProcType::Slideshow => "feh"@,
        ProcType::Web | ProcType::Browser => "chromium"@,
        ProcType::Executable => "sh"@,
    }
}

/// The player's arguments. `eco` is the low-power build, which plays video
/// without sound.
pub open spec fn player_args(
    p: ProcType,
    looped: bool,
    eco: bool,
    file: Seq<char>,
    web_url: Seq<char>,
    slide_delay: u32,
) -> Seq<Seq<char>> {
    let quiet = seq!["-hide_banner"@, "-loglevel"@, "error"@];
    let repeat = if looped { seq!["-loop"@, "-1"@] } else { Seq::empty() };
    let browser = seq!["--disable-infobars"@, "--incognito"@, "--start-fullscreen"@, "--start-maximized"@];
    match p {
        ProcType::Video => quiet + (if eco { seq!["-an"@] } else { Seq::empty() }) + seq!["-fs"@] + repeat + seq![file],
        ProcType::Audio => quiet + repeat + seq![file],
        ProcType::Image => seq!["-YxqFZz"@, "-B"@, "black"@, file],
        ProcType::Slideshow => seq!["-YxqFZz"@, "-B"@, "black"@, "-D"@, decimal(slide_delay as nat), file],
        ProcType::Web => browser.push(web_url),
        ProcType::Browser => browser.push(file),
        ProcType::Executable => seq![file],
    }
}

fn push_text(args: &mut Vec<String>, s: &str)
    ensures
        texts_of(final(args)@) == texts_of(old(args)@).push(s@),
{
    args.push(s.to_owned());
    assert(texts_of(args@) =~= texts_of(old(args)@).push(s@));
}

/// The player command for `task`: ffplay for video and audio (full screen for
/// video, looping when asked), feh for images and slideshows, chromium for web
/// pages and local pages, and a shell in its own process group for executables.
pub fn player_command(task: &Task, eco: bool) -> (r: PlayerCommand)
    ensures
        r.program@ == player_program(task.proc_type),
        texts_of(r.args@) == player_args(
            task.proc_type,
            task.auto_loop == Autoloop::Yes,
            eco,
            task.file@,
            task.web_url@,
            task.slide_delay,
        ),
        r.own_process_group == (task.proc_type == ProcType::Executable),
{
    let looped = task.auto_loop == Autoloop::Yes;
    let mut args: Vec<String> = Vec::new();
    let program: &str;
    match task.proc_type {
        ProcType::Video | ProcType::Audio => {
            program = "ffplay";
            push_text(&mut args, "-hide_banner");
            push_text(&mut args, "-loglevel");
            push_text(&mut args, "error");
            if task.proc_type == ProcType::Video {
                if eco {
                    push_text(&mut args, "-an");
                }
                push_text(&mut args, "-fs");
            }
            if looped {
                push_text(&mut args, "-loop");
                push_text(&mut args, "-1");
            }
            push_text(&mut args, task.file.as_str());
        },
        ProcType::Image | ProcType::Slideshow => {
            program = "feh";
            push_text(&mut args, "-YxqFZz");
            push_text(&mut args, "-B");
            push_text(&mut args, "black");
            if task.proc_type == ProcType::Slideshow {
                push_text(&mut args, "-D");
                let delay = decimal_text(task.slide_delay);
                push_text(&mut args, delay.as_str());
            }
            push_text(&mut args, task.file.as_str());
        },
        ProcType::Web | ProcType::Browser => {
            program = "chromium";
            push_text(&mut args, "--disable-infobars");
            push_text(&mut args, "--incognito");
            push_text(&mut args, "--start-fullscreen");
            push_text(&mut args, "--start-maximized");
            if task.proc_type == ProcType::Web {
                push_text(&mut args, task.web_url.as_str());
            } else {
                push_text(&mut args, task.file.as_str());
            }
        },
        ProcType::Executable => {
            program = "sh";
            push_text(&mut args, task.file.as_str());
        },
    }
    assert(texts_of(args@) =~= player_args(
        task.proc_type,
        looped,
        eco,
        task.file@,
        task.web_url@,
        task.slide_delay,
    ));
    PlayerCommand {
        program: program.to_owned(),
        args,
        own_process_group: task.proc_type == ProcType::Executable,
    }
}

} // verus!

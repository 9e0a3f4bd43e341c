//! The command lines of the media tool, as argument lists.

use crate::task::{TaskView, VideoTask};
use crate::text::views;
use vstd::prelude::*;

verus! {

/// The program that lists, inspects and downloads media.
pub const TOOL: &'static str = "yt-dlp";

/// The file that lists the links to download, one per line.
pub const INPUT_FILE: &'static str = "./to_download.txt";

/// The directory that receives the audio files, with its final slash.
pub const OUTPUT_DIR: &'static str = "./audio/";

/// The arguments that make the tool print the member links of the playlist
/// at `link`, one per line.
pub open spec fn listing_command(link: Seq<char>) -> Seq<Seq<char>> {
    seq!["--flat-playlist"@, "--print"@, "url"@, link]
}

/// The arguments that make the tool print the title of the video at `link`
/// without downloading it.
pub open spec fn title_command(link: Seq<char>) -> Seq<Seq<char>> {
    seq!["--print"@, "title"@, "--skip-download"@, link]
}

/// The output template that names a file in the output directory after
/// `title`, with the extension left to the tool.
pub open spec fn output_template(title: Seq<char>) -> Seq<char> {
    OUTPUT_DIR@ + title + ".%(ext)s"@
}

/// The arguments that choose the output file of `task`: a template built
/// from its title, or nothing, which leaves the name to the tool, where the
/// title is absent or empty.
pub open spec fn output_choice(task: TaskView) -> Seq<Seq<char>> {
    match task.title {
        Some(title) if title.len() > 0 => seq!["-o"@, output_template(title)],
        _ => Seq::empty(),
    }
}

/// The arguments that make the tool download `task` as an mp3 file.
pub open spec fn download_command(task: TaskView) -> Seq<Seq<char>> {
    seq!["-x"@, "--audio-format"@, "mp3"@] + output_choice(task) + seq![task.link]
}

/// Appends `arg` to `args`.
fn push_arg(args: &mut Vec<String>, arg: &str)
    ensures
        views(final(args)@) == views(old(args)@).push(arg@),
{
    let owned = arg.to_owned();
    proof {
        assert(views(args@.push(owned)) =~= views(args@).push(arg@));
    }
    args.push(owned);
}

/// The arguments that list the members of the playlist at `link`.
pub fn listing_args(link: &str) -> (args: Vec<String>)
    ensures
        views(args@) == listing_command(link@),
{
    let mut args: Vec<String> = Vec::new();
    proof {
        assert(views(args@) =~= Seq::empty());
    }
    push_arg(&mut args, "--flat-playlist");
    push_arg(&mut args, "--print");
    push_arg(&mut args, "url");
    push_arg(&mut args, link);
    proof {
        assert(views(args@) =~= listing_command(link@));
    }
    args
}

/// The arguments that print the title of the video at `link`.
pub fn title_args(link: &str) -> (args: Vec<String>)
    ensures
        views(args@) == title_command(link@),
{
    let mut args: Vec<String> = Vec::new();
    proof {
        assert(views(args@) =~= Seq::empty());
    }
    push_arg(&mut args, "--print");
    push_arg(&mut args, "title");
    push_arg(&mut args, "--skip-download");
    push_arg(&mut args, link);
    proof {
        assert(views(args@) =~= title_command(link@));
    }
    args
}

/// The arguments that download `task` as an mp3 file.
pub fn download_args(task: &VideoTask) -> (args: Vec<String>)
    ensures
        views(args@) == download_command(task@),
{
    let mut args: Vec<String> = Vec::new();
    proof {
        assert(views(args@) =~= Seq::empty());
    }
    push_arg(&mut args, "-x");
    push_arg(&mut args, "--audio-format");
    push_arg(&mut args, "mp3");
    match &task.title {
        Some(title) => {
            if !title.as_str().is_empty() {
                let mut template = OUTPUT_DIR.to_owned();
                template.append(title.as_str());
                template.append(".%(ext)s");
                push_arg(&mut args, "-o");
                push_arg(&mut args, template.as_str());
            }
        },
        None => {},
    }
    push_arg(&mut args, task.link.as_str());
    proof {
        assert(views(args@) =~= download_command(task@));
    }
    args
}

} // verus!

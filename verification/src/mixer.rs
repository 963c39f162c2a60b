use vstd::prelude::*;
use vstd::string::StringExecFns;
use crate::text::views;

verus! {

/// Mixes a voice track with background music by way of the external media
/// tool.
pub struct AudioMixer;

/// The filter that puts the music at 15% of its volume under the voice, for
/// as long as the voice lasts.
pub const MIX_FILTER: &'static str =
    "[1:a]volume=0.15[music];[0:a][music]amix=inputs=2:duration=first:dropout_transition=2[out]";

/// The arguments with which the media tool mixes the two tracks into an MP3
/// file.
pub open spec fn ffmpeg_args(voice_path: Seq<char>, music_path: Seq<char>, output_path: Seq<char>)
    -> Seq<Seq<char>> {
    seq![
        "-y"@,
        "-i"@,
        voice_path,
        "-i"@,
        music_path,
        "-filter_complex"@,
        MIX_FILTER@,
        "-map"@,
        "[out]"@,
        "-codec:a"@,
        "libmp3lame"@,
        "-q:a"@,
        "2"@,
        output_path,
    ]
}

/// The list of input files that the media tool reads when it joins them: one
/// line `file '<path>'` for each, lines separated by newlines.
pub open spec fn concat_list(paths: Seq<Seq<char>>) -> Seq<char>
    decreases paths.len(),
{
    if paths.len() == 0 {
        Seq::empty()
    } else if paths.len() == 1 {
        "file '"@ + paths[0] + "'"@
    } else {
        concat_list(paths.drop_last()) + "\n"@ + "file '"@ + paths.last() + "'"@
    }
}

/// The arguments with which the media tool joins the files of a list into
/// one, without encoding them again.
pub open spec fn concat_args(list_path: Seq<char>, output_path: Seq<char>) -> Seq<Seq<char>> {
    seq![
        "-y"@,
        "-f"@,
        "concat"@,
        "-safe"@,
        "0"@,
        "-i"@,
        list_path,
        "-c"@,
        "copy"@,
        output_path,
    ]
}

impl AudioMixer {
    /// Builds the media tool's arguments for mixing voice and music.
    pub fn build_ffmpeg_args(voice_path: &str, music_path: &str, output_path: &str) -> (args: Vec<
        String,
    >)
        ensures
            views(args@) == ffmpeg_args(voice_path@, music_path@, output_path@),
    {
        let mut args: Vec<String> = Vec::new();
        args.push(String::from_str("-y"));
        args.push(String::from_str("-i"));
        args.push(String::from_str(voice_path));
        args.push(String::from_str("-i"));
        args.push(String::from_str(music_path));
        args.push(String::from_str("-filter_complex"));
        args.push(String::from_str(MIX_FILTER));
        args.push(String::from_str("-map"));
        args.push(String::from_str("[out]"));
        args.push(String::from_str("-codec:a"));
        args.push(String::from_str("libmp3lame"));
        args.push(String::from_str("-q:a"));
        args.push(String::from_str("2"));
        args.push(String::from_str(output_path));
        proof {
            assert(views(args@) =~= ffmpeg_args(voice_path@, music_path@, output_path@));
        }
        args
    }

    /// Where the list of input files for joining into `output_path` is
    /// written: beside the output, with `.txt` added.
    pub fn concat_list_path(output_path: &str) -> (path: String)
        ensures
            path@ == output_path@ + ".txt"@,
    {
        let mut path = String::from_str(output_path);
        path.append(".txt");
        path
    }

    /// Writes out the list of input files for joining.
    pub fn build_concat_list(input_paths: &Vec<String>) -> (list: String)
        ensures
            list@ == concat_list(views(input_paths@)),
    {
        let mut list = String::new();
        let mut i: usize = 0;
        while i < input_paths.len()
            invariant
                i <= input_paths.len(),
                list@ == concat_list(views(input_paths@).take(i as int)),
            decreases input_paths.len() - i,
        {
            let ghost done = views(input_paths@).take(i as int);
            let ghost all = views(input_paths@).take(i + 1);
            proof {
                assert(all.drop_last() =~= done);
                assert(all.last() == input_paths@[i as int]@);
            }
            if i > 0 {
                list.append("\n");
            }
            list.append("file '");
            list.append(input_paths[i].as_str());
            list.append("'");
            proof {
                if i == 0 {
                    assert(done.len() == 0);
                    assert(list@ =~= "file '"@ + all[0] + "'"@);
                } else {
                    assert(list@ =~= concat_list(done) + "\n"@ + "file '"@ + all.last() + "'"@);
                }
            }
            i += 1;
        }
        proof {
            assert(views(input_paths@).take(input_paths.len() as int) =~= views(input_paths@));
        }
        list
    }

    /// Builds the media tool's arguments for joining the files of a list.
    pub fn build_concat_args(list_path: &str, output_path: &str) -> (args: Vec<String>)
        ensures
            views(args@) == concat_args(list_path@, output_path@),
    {
        let mut args: Vec<String> = Vec::new();
        args.push(String::from_str("-y"));
        args.push(String::from_str("-f"));
        args.push(String::from_str("concat"));
        args.push(String::from_str("-safe"));
        args.push(String::from_str("0"));
        args.push(String::from_str("-i"));
        args.push(String::from_str(list_path));
        args.push(String::from_str("-c"));
        args.push(String::from_str("copy"));
        args.push(String::from_str(output_path));
        proof {
            assert(views(args@) =~= concat_args(list_path@, output_path@));
        }
        args
    }
}

} // verus!

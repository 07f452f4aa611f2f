//! The ffmpeg arguments of the video encoders: the CPU encoders (x265, x264)
//! and the hardware encoders that ffmpeg reports on this machine.
use vstd::prelude::*;
use crate::decimal::{dec, decimal};
use crate::records::AppState;
use crate::text::{
    chars_of, contains, find_char, has_substring, index_of, same_text, seq_contains, starts_with,
    views,
};

verus! {

/// The stream selection that opens every video command: the first video
/// stream and, if there is one, the audio.
pub open spec fn stream_map_args() -> Seq<Seq<char>> {
    seq!["-map"@, "0:v:0"@, "-map"@, "0:a?"@]
}

/// The arguments that close every video command: 8-bit 4:2:0 pixels, AAC audio
/// at 160 kbit/s, and the index moved to the front of the file.
pub open spec fn output_tail_args() -> Seq<Seq<char>> {
    seq!["-pix_fmt"@, "yuv420p"@, "-c:a"@, "aac"@, "-b:a"@, "160k"@, "-movflags"@, "+faststart"@]
}

/// The constant rate factor for a CPU encoder and a quality level.
pub open spec fn crf_for(encoder: Seq<char>, quality: Seq<char>) -> nat {
    if encoder == "x265"@ {
        if quality == "lossless"@ {
            16
        } else if quality == "high"@ {
            20
        } else if quality == "compact"@ {
            24
        } else {
            20
        }
    } else {
        if quality == "lossless"@ {
            15
        } else if quality == "high"@ {
            18
        } else if quality == "compact"@ {
            22
        } else {
            20
        }
    }
}

/// The ffmpeg arguments for a CPU encoder: libx265 for `"x265"`, libx264 otherwise.
pub open spec fn cpu_args(encoder: Seq<char>, quality: Seq<char>) -> Seq<Seq<char>> {
    let crf = dec(crf_for(encoder, quality));
    let codec = if encoder == "x265"@ {
        seq!["-c:v"@, "libx265"@, "-preset"@, "fast"@, "-crf"@, crf, "-tag:v"@, "hvc1"@]
    } else {
        seq!["-c:v"@, "libx264"@, "-preset"@, "medium"@, "-crf"@, crf]
    };
    stream_map_args() + codec + output_tail_args()
}

/// The label recorded for a CPU encoder.
pub open spec fn cpu_label(encoder: Seq<char>) -> Seq<char> {
    if encoder == "x265"@ {
        "x265"@
    } else {
        "x264"@
    }
}

/// The hardware encoders that are looked for, in order of preference:
/// NVIDIA, Intel Quick Sync, AMD, Apple VideoToolbox; HEVC before H.264.
pub open spec fn gpu_encoder_names() -> Seq<Seq<char>> {
    seq![
        "hevc_nvenc"@,
        "h264_nvenc"@,
        "hevc_qsv"@,
        "h264_qsv"@,
        "hevc_amf"@,
        "h264_amf"@,
        "hevc_videotoolbox"@,
        "h264_videotoolbox"@,
    ]
}

/// The first of `encs` that contains `pat`.
pub open spec fn first_containing(encs: Seq<Seq<char>>, pat: Seq<char>) -> Option<Seq<char>>
    decreases encs.len(),
{
    if encs.len() == 0 {
        None
    } else if has_substring(encs[0], pat) {
        Some(encs[0])
    } else {
        first_containing(encs.drop_first(), pat)
    }
}

/// The hardware encoder used: the first HEVC one, else the first H.264 one.
pub open spec fn gpu_choice(encs: Seq<Seq<char>>) -> Option<Seq<char>> {
    match first_containing(encs, "hevc_"@) {
        Some(e) => Some(e),
        None => first_containing(encs, "h264_"@),
    }
}

/// The rate control of each hardware encoder.
pub open spec fn gpu_params(enc: Seq<char>) -> Seq<Seq<char>> {
    if enc == "hevc_nvenc"@ {
        seq!["-preset"@, "p5"@, "-cq"@, "30"@]
    } else if enc == "h264_nvenc"@ {
        seq!["-preset"@, "p5"@, "-cq"@, "26"@]
    } else if enc == "hevc_qsv"@ {
        seq!["-preset"@, "medium"@, "-global_quality"@, "30"@]
    } else if enc == "h264_qsv"@ {
        seq!["-preset"@, "medium"@, "-global_quality"@, "26"@]
    } else if enc == "hevc_amf"@ {
        seq![
            "-quality"@,
            "quality"@,
            "-rc"@,
            "cqp"@,
            "-qp_i"@,
            "30"@,
            "-qp_p"@,
            "30"@,
            "-qp_b"@,
            "30"@,
        ]
    } else if enc == "h264_amf"@ {
        seq![
            "-quality"@,
            "quality"@,
            "-rc"@,
            "cqp"@,
            "-qp_i"@,
            "26"@,
            "-qp_p"@,
            "26"@,
            "-qp_b"@,
            "26"@,
        ]
    } else if enc == "hevc_videotoolbox"@ {
        seq!["-q:v"@, "60"@]
    } else {
        seq!["-q:v"@, "50"@]
    }
}

/// The second `sep`-separated field of `s`, as `s.split(sep).nth(1)`.
pub open spec fn second_field(s: Seq<char>, sep: char) -> Option<Seq<char>> {
    let i = index_of(s, sep);
    if i >= s.len() {
        None
    } else {
        let rest = s.skip(i + 1int);
        Some(rest.take(index_of(rest, sep) as int))
    }
}

/// The label recorded for a hardware encoder: the part after its codec
/// (`"nvenc"`, `"qsv"`, ...), or `"gpu"` when the name has no `_`.
pub open spec fn gpu_label(enc: Seq<char>) -> Seq<char> {
    match second_field(enc, '_') {
        Some(f) => f,
        None => "gpu"@,
    }
}

/// The ffmpeg arguments for the hardware encoder `enc`.
pub open spec fn gpu_args(enc: Seq<char>) -> Seq<Seq<char>> {
    let tag = if starts_with(enc, "hevc_"@) {
        seq!["-tag:v"@, "hvc1"@]
    } else {
        Seq::<Seq<char>>::empty()
    };
    stream_map_args() + seq!["-c:v"@, enc] + gpu_params(enc) + tag + output_tail_args()
}

fn push_text(v: &mut Vec<String>, s: &str)
    ensures
        views(final(v)@) == views(old(v)@).push(s@),
{
    v.push(String::from_str(s));
    assert(views(v@) =~= views(old(v)@).push(s@));
}

fn push_stream_map(v: &mut Vec<String>)
    ensures
        views(final(v)@) == views(old(v)@) + stream_map_args(),
{
    push_text(v, "-map");
    push_text(v, "0:v:0");
    push_text(v, "-map");
    push_text(v, "0:a?");
    assert(views(v@) =~= views(old(v)@) + stream_map_args());
}

fn push_output_tail(v: &mut Vec<String>)
    ensures
        views(final(v)@) == views(old(v)@) + output_tail_args(),
{
    push_text(v, "-pix_fmt");
    push_text(v, "yuv420p");
    push_text(v, "-c:a");
    push_text(v, "aac");
    push_text(v, "-b:a");
    push_text(v, "160k");
    push_text(v, "-movflags");
    push_text(v, "+faststart");
    assert(views(v@) =~= views(old(v)@) + output_tail_args());
}

fn crf_value(encoder: &str, quality: &str) -> (crf: u64)
    ensures
        crf == crf_for(encoder@, quality@),
{
    let x265 = same_text(encoder, "x265");
    if same_text(quality, "lossless") {
        if x265 {
            16
        } else {
            15
        }
    } else if same_text(quality, "high") {
        if x265 {
            20
        } else {
            18
        }
    } else if same_text(quality, "compact") {
        if x265 {
            24
        } else {
            22
        }
    } else {
        20
    }
}

/// The ffmpeg arguments and the recorded label for a CPU encoder: libx265
/// (preset fast, tagged hvc1) for `"x265"`, libx264 (preset medium) for any
/// other name, with a quality that follows `quality`. Never fails.
pub fn cpu_video_args(encoder: &str, quality: &str) -> (r: Result<(Vec<String>, String), String>)
    ensures
        r matches Ok((args, label)) && views(args@) == cpu_args(encoder@, quality@) && label@
            == cpu_label(encoder@),
{
    let crf = crf_value(encoder, quality);
    let mut args: Vec<String> = Vec::new();
    push_stream_map(&mut args);
    let ghost start = views(args@);
    let x265 = same_text(encoder, "x265");
    if x265 {
        push_text(&mut args, "-c:v");
        push_text(&mut args, "libx265");
        push_text(&mut args, "-preset");
        push_text(&mut args, "fast");
        push_text(&mut args, "-crf");
        let ghost before = views(args@);
        args.push(decimal(crf));
        assert(views(args@) =~= before.push(dec(crf as nat)));
        push_text(&mut args, "-tag:v");
        push_text(&mut args, "hvc1");
        assert(views(args@) =~= start + seq![
            "-c:v"@,
            "libx265"@,
            "-preset"@,
            "fast"@,
            "-crf"@,
            dec(crf as nat),
            "-tag:v"@,
            "hvc1"@,
        ]);
    } else {
        push_text(&mut args, "-c:v");
        push_text(&mut args, "libx264");
        push_text(&mut args, "-preset");
        push_text(&mut args, "medium");
        push_text(&mut args, "-crf");
        let ghost before = views(args@);
        args.push(decimal(crf));
        assert(views(args@) =~= before.push(dec(crf as nat)));
        assert(views(args@) =~= start + seq![
            "-c:v"@,
            "libx264"@,
            "-preset"@,
            "medium"@,
            "-crf"@,
            dec(crf as nat),
        ]);
    }
    push_output_tail(&mut args);
    assert(views(args@) =~= cpu_args(encoder@, quality@));
    let label = if x265 {
        String::from_str("x265")
    } else {
        String::from_str("x264")
    };
    Ok((args, label))
}

proof fn lemma_first_containing_at(encs: Seq<Seq<char>>, pat: Seq<char>, p: int)
    requires
        0 <= p <= encs.len(),
        forall|q: int| 0 <= q < p ==> !has_substring(#[trigger] encs[q], pat),
        p == encs.len() || has_substring(encs[p], pat),
    ensures
        first_containing(encs, pat) == (if p < encs.len() {
            Some(encs[p])
        } else {
            None::<Seq<char>>
        }),
    decreases p,
{
    if p > 0 {
        let t = encs.drop_first();
        assert forall|q: int| 0 <= q < p - 1 implies !has_substring(#[trigger] t[q], pat) by {
            assert(t[q] == encs[q + 1]);
        }
        if p < encs.len() {
            assert(t[p - 1] == encs[p]);
        }
        assert(!has_substring(encs[0], pat));
        lemma_first_containing_at(t, pat, p - 1);
    }
}

/// The index of the first of `encs` that contains `pat`, or the length of `encs`.
fn find_containing(encs: &Vec<String>, pat: &str) -> (i: usize)
    ensures
        i <= encs@.len(),
        first_containing(views(encs@), pat@) == (if i < encs@.len() {
            Some(encs@[i as int]@)
        } else {
            None::<Seq<char>>
        }),
{
    let n = encs.len();
    let mut i: usize = 0;
    while i < n && !contains(encs[i].as_str(), pat)
        invariant
            n == encs@.len(),
            i <= n,
            forall|q: int| 0 <= q < i ==> !has_substring(#[trigger] views(encs@)[q], pat@),
        decreases n - i,
    {
        i = i + 1;
    }
    proof {
        if i < n {
            assert(views(encs@)[i as int] == encs@[i as int]@);
        }
        lemma_first_containing_at(views(encs@), pat@, i as int);
    }
    i
}

fn gpu_params_for(enc: &str, args: &mut Vec<String>)
    ensures
        views(final(args)@) == views(old(args)@) + gpu_params(enc@),
{
    if same_text(enc, "hevc_nvenc") || same_text(enc, "h264_nvenc") {
        let hevc = same_text(enc, "hevc_nvenc");
        push_text(args, "-preset");
        push_text(args, "p5");
        push_text(args, "-cq");
        push_text(args, if hevc { "30" } else { "26" });
    } else if same_text(enc, "hevc_qsv") || same_text(enc, "h264_qsv") {
        let hevc = same_text(enc, "hevc_qsv");
        push_text(args, "-preset");
        push_text(args, "medium");
        push_text(args, "-global_quality");
        push_text(args, if hevc { "30" } else { "26" });
    } else if same_text(enc, "hevc_amf") || same_text(enc, "h264_amf") {
        let q = if same_text(enc, "hevc_amf") { "30" } else { "26" };
        push_text(args, "-quality");
        push_text(args, "quality");
        push_text(args, "-rc");
        push_text(args, "cqp");
        push_text(args, "-qp_i");
        push_text(args, q);
        push_text(args, "-qp_p");
        push_text(args, q);
        push_text(args, "-qp_b");
        push_text(args, q);
    } else {
        push_text(args, "-q:v");
        push_text(args, if same_text(enc, "hevc_videotoolbox") { "60" } else { "50" });
    }
    assert(views(args@) =~= views(old(args)@) + gpu_params(enc@));
}

fn gpu_label_of(enc: &str) -> (label: String)
    ensures
        label@ == gpu_label(enc@),
{
    let cs = chars_of(enc);
    let i = find_char(&cs, '_', 0);
    assert(cs@.skip(0) =~= cs@);
    if i == cs.len() {
        return String::from_str("gpu");
    }
    let j = find_char(&cs, '_', i + 1);
    let field = enc.substring_char(i + 1, j);
    proof {
        assert(cs@.skip(i + 1).take(j - (i + 1)) =~= cs@.subrange(i + 1, j as int));
    }
    String::from_str(field)
}

/// The ffmpeg arguments and the recorded label for the preferred hardware
/// encoder of this machine (the first HEVC encoder of `state.gpu_encoders`,
/// else the first H.264 one), or `None` when it has neither.
pub fn gpu_video_args(state: &AppState) -> (r: Option<(Vec<String>, String)>)
    ensures
        match gpu_choice(views(state.gpu_encoders@)) {
            Some(e) => r matches Some((args, label)) && views(args@) == gpu_args(e) && label@
                == gpu_label(e),
            None => r is None,
        },
{
    let encs = &state.gpu_encoders;
    let mut i = find_containing(encs, "hevc_");
    if i == encs.len() {
        i = find_containing(encs, "h264_");
        if i == encs.len() {
            return None;
        }
    }
    let enc = encs[i].as_str();
    let mut args: Vec<String> = Vec::new();
    push_stream_map(&mut args);
    push_text(&mut args, "-c:v");
    push_text(&mut args, enc);
    gpu_params_for(enc, &mut args);
    let ghost before_tag = views(args@);
    let hevc_prefix = chars_of("hevc_");
    let ec = chars_of(enc);
    if crate::text::matches_at(&ec, &hevc_prefix, 0) {
        push_text(&mut args, "-tag:v");
        push_text(&mut args, "hvc1");
    }
    push_output_tail(&mut args);
    assert(views(args@) =~= gpu_args(enc@));
    Some((args, gpu_label_of(enc)))
}

fn gpu_encoder_name(i: usize) -> (name: &'static str)
    requires
        i < 8,
    ensures
        name@ == gpu_encoder_names()[i as int],
{
    if i == 0 {
        "hevc_nvenc"
    } else if i == 1 {
        "h264_nvenc"
    } else if i == 2 {
        "hevc_qsv"
    } else if i == 3 {
        "h264_qsv"
    } else if i == 4 {
        "hevc_amf"
    } else if i == 5 {
        "h264_amf"
    } else if i == 6 {
        "hevc_videotoolbox"
    } else {
        "h264_videotoolbox"
    }
}

/// The hardware encoders that the listing `encoders` (the output of
/// `ffmpeg -encoders`) mentions, in order of preference.
pub fn detect_gpu_encoders(encoders: &str) -> (found: Vec<String>)
    ensures
        views(found@) == gpu_encoder_names().filter(|n: Seq<char>| has_substring(encoders@, n)),
{
    let ghost pred = |n: Seq<char>| has_substring(encoders@, n);
    let ghost names = gpu_encoder_names();
    let txt = chars_of(encoders);
    let mut found: Vec<String> = Vec::new();
    let mut i: usize = 0;
    while i < 8
        invariant
            i <= 8,
            txt@ == encoders@,
            names == gpu_encoder_names(),
            pred == (|n: Seq<char>| has_substring(encoders@, n)),
            views(found@) == names.take(i as int).filter(pred),
        decreases 8 - i,
    {
        let name = gpu_encoder_name(i);
        let present = seq_contains(&txt, &chars_of(name));
        let ghost before = views(found@);
        if present {
            found.push(String::from_str(name));
            assert(views(found@) =~= before.push(name@));
        }
        proof {
            assert(names.take(i + 1) =~= names.take(i as int).push(names[i as int]));
            assert(names.take(i + 1).drop_last() =~= names.take(i as int));
            assert(names.take(i + 1).last() == name@);
            assert(pred(name@) == present);
            assert(names.take(i + 1).filter(pred) == if pred(name@) {
                names.take(i as int).filter(pred).push(name@)
            } else {
                names.take(i as int).filter(pred)
            }) by {
                reveal_with_fuel(Seq::filter, 1);
            }
        }
        i = i + 1;
    }
    assert(names.take(8) =~= names);
    found
}

} // verus!

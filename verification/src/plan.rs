//! What one compression job produces: its output name, its ffmpeg arguments,
//! the output format of an image and the encoder label of a video.
use vstd::prelude::*;
use crate::decimal::{dec, decimal};
use crate::encode::{cpu_args, cpu_label, cpu_video_args, gpu_args, gpu_choice, gpu_label, gpu_video_args};
use crate::naming::{first_free_name, unique_name, used_names};
use crate::records::{AppState, Outcome, Record};
use crate::text::{opt_view, same_text, views};

verus! {

/// The plan of one compression job.
pub struct BuildPlan {
    /// The name of the output file in the output directory.
    pub out_name: String,
    /// The ffmpeg arguments between the input and the output.
    pub args: Vec<String>,
    /// For an image: `"webp"` when it is written as WebP, else `"same"`; empty for a video.
    pub final_format: String,
    /// For a video: the label of the encoder used; empty for an image.
    pub encoder: String,
}

/// The lower-cased text of `s`, as `str::to_lowercase` computes it.
pub uninterp spec fn lowercase(s: Seq<char>) -> Seq<char>;

/// Image extensions that are kept as they are (or converted, see `image_suffix`).
pub open spec fn known_image_ext(ext: Seq<char>) -> bool {
    ||| ext == "jpg"@
    ||| ext == "jpeg"@
    ||| ext == "png"@
    ||| ext == "webp"@
    ||| ext == "bmp"@
    ||| ext == "tif"@
    ||| ext == "tiff"@
}

/// The suffix of an image output, from the lower-cased extension of the input
/// and the requested format: WebP when asked for, or when the input is a
/// BMP or TIFF; else the input's own extension when it is a known one; else JPEG.
pub open spec fn image_suffix(ext: Seq<char>, img_format: Seq<char>) -> Seq<char> {
    if img_format == "webp"@ {
        ".webp"@
    } else if known_image_ext(ext) {
        if ext == "bmp"@ || ext == "tif"@ || ext == "tiff"@ {
            ".webp"@
        } else {
            "."@ + ext
        }
    } else {
        ".jpg"@
    }
}

/// The ffmpeg quality level of an image: lower is better.
pub open spec fn image_level(quality: Seq<char>) -> nat {
    if quality == "high"@ {
        3
    } else if quality == "balanced"@ {
        6
    } else {
        9
    }
}

/// The ffmpeg arguments of an image with output suffix `suffix`: the
/// strongest lossless compression for PNG, a quality level otherwise.
pub open spec fn image_args(suffix: Seq<char>, quality: Seq<char>) -> Seq<Seq<char>> {
    if suffix == ".png"@ {
        seq!["-compression_level"@, "9"@]
    } else {
        seq!["-q:v"@, dec(image_level(quality))]
    }
}

/// The output format recorded for an image with output suffix `suffix`.
pub open spec fn image_format(suffix: Seq<char>) -> Seq<char> {
    if suffix == ".webp"@ {
        "webp"@
    } else {
        "same"@
    }
}

/// The ffmpeg arguments and the encoder label of a video: the preferred
/// hardware encoder for `"gpu"`, falling back to x265 when there is none;
/// the named CPU encoder otherwise.
pub open spec fn video_args(encs: Seq<Seq<char>>, encoder: Seq<char>, quality: Seq<char>) -> (
    Seq<Seq<char>>,
    Seq<char>,
) {
    if encoder == "gpu"@ {
        match gpu_choice(encs) {
            Some(e) => (gpu_args(e), gpu_label(e)),
            None => (cpu_args("x265"@, quality), cpu_label("x265"@)),
        }
    } else {
        (cpu_args(encoder, quality), cpu_label(encoder))
    }
}

/// `p` is the plan of a job on an input with file stem `stem` and lower-cased
/// extension `ext` (empty when it has none).
pub open spec fn is_plan(
    p: BuildPlan,
    records: Seq<Record>,
    encs: Seq<Seq<char>>,
    stem: Seq<char>,
    ext: Seq<char>,
    kind: Seq<char>,
    encoder: Seq<char>,
    quality: Seq<char>,
    img_format: Seq<char>,
    on_disk: Seq<Seq<char>>,
) -> bool {
    let used = used_names(records, on_disk);
    if kind == "image"@ {
        let suffix = image_suffix(ext, img_format);
        &&& p.out_name@ == first_free_name(stem, suffix, used)
        &&& views(p.args@) == image_args(suffix, quality)
        &&& p.final_format@ == image_format(suffix)
        &&& p.encoder@ == Seq::<char>::empty()
    } else {
        let va = video_args(encs, encoder, quality);
        &&& p.out_name@ == first_free_name(stem, ".mp4"@, used)
        &&& views(p.args@) == va.0
        &&& p.encoder@ == va.1
        &&& p.final_format@ == Seq::<char>::empty()
    }
}

/// `p` plans a video: an MP4 output under a name that no task and no listed
/// file holds, no image format, and the arguments and label of
/// `video_args`.
pub open spec fn is_video_plan(
    p: BuildPlan,
    records: Seq<Record>,
    encs: Seq<Seq<char>>,
    encoder: Seq<char>,
    quality: Seq<char>,
    on_disk: Seq<Seq<char>>,
) -> bool {
    &&& p.out_name@.len() >= 4
    &&& p.out_name@.skip(p.out_name@.len() - 4) == ".mp4"@
    &&& !used_names(records, on_disk).contains(p.out_name@)
    &&& p.final_format@ == Seq::<char>::empty()
    &&& views(p.args@) == video_args(encs, encoder, quality).0
    &&& p.encoder@ == video_args(encs, encoder, quality).1
}

fn image_suffix_of(ext: &str, img_format: &str) -> (s: String)
    ensures
        s@ == image_suffix(ext@, img_format@),
{
    if same_text(img_format, "webp") {
        String::from_str(".webp")
    } else if same_text(ext, "bmp") || same_text(ext, "tif") || same_text(ext, "tiff") {
        String::from_str(".webp")
    } else if same_text(ext, "jpg") || same_text(ext, "jpeg") || same_text(ext, "png") || same_text(
        ext,
        "webp",
    ) {
        let mut s = String::from_str(".");
        s.append(ext);
        s
    } else {
        String::from_str(".jpg")
    }
}

fn image_args_of(suffix: &str, quality: &str) -> (args: Vec<String>)
    ensures
        views(args@) == image_args(suffix@, quality@),
{
    let mut args: Vec<String> = Vec::new();
    if same_text(suffix, ".png") {
        args.push(String::from_str("-compression_level"));
        args.push(String::from_str("9"));
    } else {
        let level: u64 = if same_text(quality, "high") {
            3
        } else if same_text(quality, "balanced") {
            6
        } else {
            9
        };
        args.push(String::from_str("-q:v"));
        args.push(decimal(level));
    }
    assert(views(args@) =~= image_args(suffix@, quality@));
    args
}

/// Plans a job on an input whose file stem is `stem` and whose lower-cased
/// extension is `ext` (empty when it has none). `kind` is `"image"` or a
/// video; `on_disk` holds the names of the files in the output directory.
/// An image keeps its format (or becomes WebP, see `image_suffix`); a video
/// becomes MP4. The output name collides with no task and no file. Never fails.
pub fn plan_output(
    state: &AppState,
    stem: &str,
    ext: &str,
    kind: &str,
    encoder: &str,
    quality: &str,
    img_format: &str,
    on_disk: &Vec<String>,
) -> (r: Result<BuildPlan, String>)
    ensures
        r matches Ok(p) && !used_names(state.records@, views(on_disk@)).contains(p.out_name@),
        kind@ != "image"@ ==> (r matches Ok(p) && is_video_plan(
            p,
            state.records@,
            views(state.gpu_encoders@),
            encoder@,
            quality@,
            views(on_disk@),
        )),
        r matches Ok(p) && is_plan(
            p,
            state.records@,
            views(state.gpu_encoders@),
            stem@,
            ext@,
            kind@,
            encoder@,
            quality@,
            img_format@,
            views(on_disk@),
        ),
{
    if same_text(kind, "image") {
        let suffix = image_suffix_of(ext, img_format);
        let out_name = unique_name(state, stem, suffix.as_str(), on_disk);
        let args = image_args_of(suffix.as_str(), quality);
        let final_format = if same_text(suffix.as_str(), ".webp") {
            String::from_str("webp")
        } else {
            String::from_str("same")
        };
        Ok(BuildPlan { out_name, args, final_format, encoder: String::new() })
    } else {
        let out_name = unique_name(state, stem, ".mp4", on_disk);
        let chosen = if same_text(encoder, "gpu") {
            match gpu_video_args(state) {
                Some(found) => found,
                None => match cpu_video_args("x265", quality) {
                    Ok(found) => found,
                    Err(e) => {
                        return Err(e);
                    },
                },
            }
        } else {
            match cpu_video_args(encoder, quality) {
                Ok(found) => found,
                Err(e) => {
                    return Err(e);
                },
            }
        };
        let (args, label) = chosen;
        proof {
            crate::laws::lemma_chosen_name_is_free(
                stem@,
                ".mp4"@,
                used_names(state.records@, views(on_disk@)),
            );
            reveal_strlit(".mp4");
        }
        Ok(BuildPlan { out_name, args, final_format: String::new(), encoder: label })
    }
}

/// The offset of the last `c` in `s`, or -1 when there is none.
pub open spec fn last_index_of(s: Seq<char>, c: char) -> int
    decreases s.len(),
{
    if s.len() == 0 {
        -1
    } else if s.last() == c {
        s.len() - 1
    } else {
        last_index_of(s.drop_last(), c)
    }
}

/// `s` is one file name on every platform: not empty, not `.` or `..`, and
/// free of the separators `/` and `\` and of the drive mark `:`.
pub open spec fn plain_name(s: Seq<char>) -> bool {
    &&& s.len() > 0
    &&& s != seq!['.']
    &&& s != seq!['.', '.']
    &&& forall|i: int| 0 <= i < s.len() ==> #[trigger] s[i] != '/' && s[i] != '\\' && s[i] != ':'
}

/// The stem of the file name `s`: the part before its last `.`, unless that
/// `.` is its first character or it has none (then the whole name).
pub open spec fn name_stem(s: Seq<char>) -> Seq<char> {
    let d = last_index_of(s, '.');
    if d > 0 {
        s.take(d)
    } else {
        s
    }
}

/// The extension of the file name `s`: the part after its last `.`, when
/// that `.` is not its first character.
pub open spec fn name_ext(s: Seq<char>) -> Option<Seq<char>> {
    let d = last_index_of(s, '.');
    if d > 0 {
        Some(s.skip(d + 1))
    } else {
        None
    }
}

/// `s` holds ASCII characters only.
pub open spec fn is_ascii_text(s: Seq<char>) -> bool {
    forall|i: int| 0 <= i < s.len() ==> (#[trigger] s[i] as u32) < 128
}

/// `c` with `A`..`Z` turned into `a`..`z`.
pub open spec fn ascii_lower_char(c: char) -> char {
    let u = c as u32;
    if 65 <= u <= 90 {
        (u + 32) as char
    } else {
        c
    }
}

/// The text after the last `/` of `s` (all of `s` when it has none).
pub open spec fn last_part(s: Seq<char>) -> Seq<char> {
    s.skip(last_index_of(s, '/') + 1)
}

/// `s` is a path whose file name every platform finds after its last `/`:
/// it has no `\`, does not begin with `//`, and its last part is a plain
/// file name. A plain file name alone is such a path.
pub open spec fn slash_path(s: Seq<char>) -> bool {
    &&& forall|i: int| 0 <= i < s.len() ==> #[trigger] s[i] != '\\'
    &&& !(s.len() >= 2 && s[0] == '/' && s[1] == '/')
    &&& plain_name(last_part(s))
}

/// The file name of `path`, as `Path::file_name` finds it on this platform.
/// A path in general is read by the platform's own syntax, so the result is
/// stated only for a `slash_path`: on Unix and on Windows alike its last
/// component is the text after its last `/`, and `file_name` is documented
/// as the final component. The text is valid UTF-8, so the conversion loses
/// nothing.
#[verifier::external_body]
fn file_name_of(path: &str) -> (r: Option<String>)
    ensures
        slash_path(path@) ==> opt_view(r) == Some(last_part(path@)),
{
    std::path::Path::new(path).file_name().map(|s| s.to_string_lossy().into_owned())
}

/// The file stem of `path`, as `Path::file_stem` finds it on this platform.
/// Stated for a `slash_path`: its file name is its last part (see
/// `file_name_of`), and `file_stem` is documented as the part of the file
/// name before its final `.`, or all of it when there is no `.` or its only
/// `.` comes first.
#[verifier::external_body]
fn file_stem_of(path: &str) -> (r: Option<String>)
    ensures
        slash_path(path@) ==> opt_view(r) == Some(name_stem(last_part(path@))),
{
    std::path::Path::new(path).file_stem().map(|s| s.to_string_lossy().into_owned())
}

/// The extension of `path`, as `Path::extension` finds it on this platform.
/// Stated for a `slash_path`: `extension` is documented as the part of the
/// file name after its final `.`, and none when there is no `.` or its only
/// `.` comes first.
#[verifier::external_body]
fn extension_of(path: &str) -> (r: Option<String>)
    ensures
        slash_path(path@) ==> opt_view(r) == name_ext(last_part(path@)),
{
    std::path::Path::new(path).extension().map(|s| s.to_string_lossy().into_owned())
}

/// The name shown for a task: the input's file name, or `"file"` when it has none.
pub open spec fn name_or_file(o: Option<Seq<char>>) -> Seq<char> {
    match o {
        Some(n) => n,
        None => "file"@,
    }
}

/// The name shown for a task on the input `path`: its file name, or
/// `"file"` when it has none.
pub fn task_name(path: &str) -> (name: String)
    ensures
        slash_path(path@) ==> name@ == last_part(path@),
        exists|o: Option<Seq<char>>| name@ == #[trigger] name_or_file(o),
{
    let found = file_name_of(path);
    let ghost read = opt_view(found);
    let name = match found {
        Some(n) => n,
        None => String::from_str("file"),
    };
    assert(name@ == name_or_file(read));
    name
}

/// `str::to_lowercase`: the result is named, as a function of the text alone;
/// on ASCII text, Unicode lower-casing turns `A`..`Z` into `a`..`z` and
/// keeps every other character.
#[verifier::external_body]
fn to_lowercase(s: &str) -> (r: String)
    ensures
        r@ == lowercase(s@),
        is_ascii_text(s@) ==> r@ == s@.map_values(|c: char| ascii_lower_char(c)),
{
    s.to_lowercase()
}

/// The whole ffmpeg command line of a job after the program name: overwrite,
/// the input, the job's arguments, the progress report file, no console
/// statistics, and the output.
pub open spec fn command_args(
    input: Seq<char>,
    args: Seq<Seq<char>>,
    progress: Seq<char>,
    output: Seq<char>,
) -> Seq<Seq<char>> {
    seq!["-y"@, "-i"@, input] + args + seq!["-progress"@, progress, "-nostats"@, output]
}

/// The ffmpeg command line of a job (see `command_args`).
pub fn ffmpeg_command(input: &str, args: &Vec<String>, progress: &str, output: &str) -> (cmd: Vec<
    String,
>)
    ensures
        views(cmd@) == command_args(input@, views(args@), progress@, output@),
{
    let mut cmd: Vec<String> = Vec::new();
    cmd.push(String::from_str("-y"));
    cmd.push(String::from_str("-i"));
    cmd.push(String::from_str(input));
    let ghost head = views(cmd@);
    assert(head =~= seq!["-y"@, "-i"@, input@]);
    let n = args.len();
    let mut i: usize = 0;
    while i < n
        invariant
            n == args@.len(),
            i <= n,
            head == seq!["-y"@, "-i"@, input@],
            views(cmd@) == head + views(args@).take(i as int),
        decreases n - i,
    {
        let ghost before = views(cmd@);
        cmd.push(args[i].clone());
        proof {
            assert(views(cmd@) =~= before.push(args@[i as int]@));
            assert(views(args@).take(i + 1) =~= views(args@).take(i as int).push(args@[i as int]@));
        }
        i = i + 1;
    }
    let ghost middle = views(cmd@);
    cmd.push(String::from_str("-progress"));
    cmd.push(String::from_str(progress));
    cmd.push(String::from_str("-nostats"));
    cmd.push(String::from_str(output));
    proof {
        assert(views(args@).take(n as int) =~= views(args@));
        assert(views(cmd@) =~= middle + seq!["-progress"@, progress@, "-nostats"@, output@]);
        assert(views(cmd@) =~= command_args(input@, views(args@), progress@, output@));
    }
    cmd
}

/// The stem used for an input: its file stem, or `"media"` when it has none.
pub open spec fn stem_or_media(o: Option<Seq<char>>) -> Seq<char> {
    match o {
        Some(s) => s,
        None => "media"@,
    }
}

/// The extension used for an input: its extension lower-cased, or empty
/// when it has none.
pub open spec fn lower_ext(o: Option<Seq<char>>) -> Seq<char> {
    match o {
        Some(e) => lowercase(e),
        None => Seq::<char>::empty(),
    }
}

/// Plans a job on the input file `input` (see `plan_output`): the stem of
/// its file name (`"media"` when it has none) and its lower-cased extension
/// decide the output name and format. Never fails.
pub fn build_args(
    state: &AppState,
    input: &str,
    kind: &str,
    encoder: &str,
    quality: &str,
    img_format: &str,
    on_disk: &Vec<String>,
) -> (r: Result<BuildPlan, String>)
    ensures
        r matches Ok(p) && !used_names(state.records@, views(on_disk@)).contains(p.out_name@),
        slash_path(input@) ==> (r matches Ok(p) && is_plan(
            p,
            state.records@,
            views(state.gpu_encoders@),
            name_stem(last_part(input@)),
            lower_ext(name_ext(last_part(input@))),
            kind@,
            encoder@,
            quality@,
            img_format@,
            views(on_disk@),
        )),
        kind@ != "image"@ ==> (r matches Ok(p) && is_video_plan(
            p,
            state.records@,
            views(state.gpu_encoders@),
            encoder@,
            quality@,
            views(on_disk@),
        )),
        r matches Ok(p) && exists|stem: Option<Seq<char>>, ext: Option<Seq<char>>|
            #[trigger] is_plan(
                p,
                state.records@,
                views(state.gpu_encoders@),
                stem_or_media(stem),
                lower_ext(ext),
                kind@,
                encoder@,
                quality@,
                img_format@,
                views(on_disk@),
            ),
{
    let found_stem = file_stem_of(input);
    let found_ext = extension_of(input);
    let ghost stem_read = opt_view(found_stem);
    let ghost ext_read = opt_view(found_ext);
    let stem = match found_stem {
        Some(s) => s,
        None => String::from_str("media"),
    };
    let ext = match found_ext {
        Some(e) => to_lowercase(e.as_str()),
        None => String::new(),
    };
    assert(stem@ == stem_or_media(stem_read));
    assert(ext@ == lower_ext(ext_read));
    let r = plan_output(
        state,
        stem.as_str(),
        ext.as_str(),
        kind,
        encoder,
        quality,
        img_format,
        on_disk,
    );
    assert(r matches Ok(p) && is_plan(
        p,
        state.records@,
        views(state.gpu_encoders@),
        stem_or_media(stem_read),
        lower_ext(ext_read),
        kind@,
        encoder@,
        quality@,
        img_format@,
        views(on_disk@),
    ));
    r
}

} // verus!

verus! {

/// One step of settling a planned output name against the file system,
/// which may hold the name in a form the listing did not show (as a
/// case-insensitive one does): when `exists` reports the name taken, it
/// joins the names on disk and the job is planned again (`None`); else the
/// plan stands. Each retry adds one name, which the next plan cannot choose
/// again (see `laws::lemma_probed_name_not_chosen_again`).
pub fn accept_or_retry(on_disk: &mut Vec<String>, plan: BuildPlan, exists: bool) -> (r: Option<
    BuildPlan,
>)
    ensures
        exists ==> r is None && views(final(on_disk)@) == views(old(on_disk)@).push(plan.out_name@),
        !exists ==> r == Some(plan) && final(on_disk)@ == old(on_disk)@,
{
    if exists {
        let ghost name = plan.out_name@;
        on_disk.push(plan.out_name);
        assert(views(on_disk@) =~= views(old(on_disk)@).push(name));
        None
    } else {
        Some(plan)
    }
}

/// The record of a finished job: who and what it was, from its plan the
/// output name, encoder label and image format, from its outcome the status,
/// output size and whether the source was kept.
pub fn finished_record(
    id: String,
    name: String,
    kind: String,
    quality: String,
    plan: &BuildPlan,
    src_size: u64,
    outcome: &Outcome,
    created: u64,
) -> (r: Record)
    ensures
        r.id == id,
        r.name == name,
        r.kind == kind,
        r.quality == quality,
        r.status@ == outcome.status@,
        r.src_size == src_size,
        r.out_size == outcome.out_size,
        r.out_name@ == plan.out_name@,
        r.encoder@ == plan.encoder@,
        r.img_format@ == plan.final_format@,
        r.created == created,
        r.skipped == outcome.skipped,
{
    Record {
        id,
        name,
        kind,
        status: outcome.status.clone(),
        src_size,
        out_size: outcome.out_size,
        out_name: plan.out_name.clone(),
        encoder: plan.encoder.clone(),
        quality,
        img_format: plan.final_format.clone(),
        created,
        skipped: outcome.skipped,
    }
}

} // verus!

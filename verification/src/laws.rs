//! Properties that hold across the library's functions.
use vstd::prelude::*;
use crate::encode::{first_containing, gpu_choice, gpu_encoder_names};
use crate::naming::{
    candidate, first_free_name, is_first_free, lemma_candidates_bounded, lemma_first_free,
    used_names,
};
use crate::plan::{image_suffix, is_plan, is_video_plan, video_args, BuildPlan};
use crate::progress::{last_speed, usable_speed};
use crate::records::{first_with_id, record_names, Record};
use crate::text::{has_substring, occurs_at, views};

verus! {

proof fn lemma_find_free(stem: Seq<char>, suffix: Seq<char>, used: Seq<Seq<char>>, k: nat)
    requires
        forall|j: nat| j < k ==> used.contains(#[trigger] candidate(stem, suffix, j)),
        k <= used.len(),
    ensures
        exists|m: nat| is_first_free(stem, suffix, used, m),
    decreases used.len() - k,
{
    if !used.contains(candidate(stem, suffix, k)) {
        assert(is_first_free(stem, suffix, used, k));
    } else {
        assert forall|j: nat| j < k + 1 implies used.contains(
            #[trigger] candidate(stem, suffix, j),
        ) by {
            if j == k {
            }
        }
        lemma_candidates_bounded(stem, suffix, used, k + 1);
        lemma_find_free(stem, suffix, used, k + 1);
    }
}

/// Whatever names are in use, the name chosen for an output is not one of
/// them, and it is `stem`, possibly a ` (n)` counter, then `suffix`.
pub proof fn lemma_chosen_name_is_free(stem: Seq<char>, suffix: Seq<char>, used: Seq<Seq<char>>)
    ensures
        !used.contains(first_free_name(stem, suffix, used)),
        exists|k: nat| first_free_name(stem, suffix, used) == #[trigger] candidate(stem, suffix, k),
        first_free_name(stem, suffix, used).take(stem.len() as int) == stem,
        first_free_name(stem, suffix, used).skip(
            first_free_name(stem, suffix, used).len() - suffix.len(),
        ) == suffix,
{
    lemma_find_free(stem, suffix, used, 0);
    let k = choose|m: nat| is_first_free(stem, suffix, used, m);
    lemma_first_free(stem, suffix, used, k);
    let c = candidate(stem, suffix, k);
    assert(c.take(stem.len() as int) =~= stem);
    assert(c.skip(c.len() - suffix.len()) =~= suffix);
}

/// Recording a task under the name chosen for it makes the next choice, for
/// the same stem and suffix, a different name: outputs never overwrite each other.
pub proof fn lemma_recorded_name_not_chosen_again(
    records: Seq<Record>,
    on_disk: Seq<Seq<char>>,
    stem: Seq<char>,
    suffix: Seq<char>,
    r: Record,
)
    requires
        r.out_name@ == first_free_name(stem, suffix, used_names(records, on_disk)),
    ensures
        first_free_name(stem, suffix, used_names(records.push(r), on_disk)) != r.out_name@,
{
    let used2 = used_names(records.push(r), on_disk);
    lemma_chosen_name_is_free(stem, suffix, used2);
    assert(used2[records.len() as int] == r.out_name@);
}

/// When the name chosen is found to exist on disk after all and is added to
/// the names on disk, the next choice is a different name.
pub proof fn lemma_probed_name_not_chosen_again(
    records: Seq<Record>,
    on_disk: Seq<Seq<char>>,
    stem: Seq<char>,
    suffix: Seq<char>,
)
    ensures
        first_free_name(stem, suffix, used_names(records, on_disk.push(
            first_free_name(stem, suffix, used_names(records, on_disk)),
        ))) != first_free_name(stem, suffix, used_names(records, on_disk)),
{
    let n = first_free_name(stem, suffix, used_names(records, on_disk));
    let used2 = used_names(records, on_disk.push(n));
    lemma_chosen_name_is_free(stem, suffix, used2);
    assert(used2[used2.len() - 1] == n);
}

/// Each retry moves forward: when the chosen name joins the names on disk,
/// the next choice is a later candidate, so every earlier candidate stays
/// passed over.
pub proof fn lemma_retry_moves_forward(
    records: Seq<Record>,
    on_disk: Seq<Seq<char>>,
    stem: Seq<char>,
    suffix: Seq<char>,
    k: nat,
    k2: nat,
)
    requires
        is_first_free(stem, suffix, used_names(records, on_disk), k),
        is_first_free(
            stem,
            suffix,
            used_names(records, on_disk.push(candidate(stem, suffix, k))),
            k2,
        ),
    ensures
        k < k2,
{
    let used = used_names(records, on_disk);
    let used2 = used_names(records, on_disk.push(candidate(stem, suffix, k)));
    assert(used2[used2.len() - 1] == candidate(stem, suffix, k));
    if k2 < k {
        let c = candidate(stem, suffix, k2);
        assert(used.contains(c));
        let i = choose|i: int| 0 <= i < used.len() && used[i] == c;
        assert(used2[i] == c);
    }
}

/// Recording a finished job under the name chosen for it keeps the output
/// names of the task list pairwise distinct.
pub proof fn lemma_recorded_names_stay_distinct(
    records: Seq<Record>,
    on_disk: Seq<Seq<char>>,
    stem: Seq<char>,
    suffix: Seq<char>,
    r: Record,
)
    requires
        record_names(records).no_duplicates(),
        r.out_name@ == first_free_name(stem, suffix, used_names(records, on_disk)),
    ensures
        record_names(records.push(r)).no_duplicates(),
{
    let used = used_names(records, on_disk);
    lemma_chosen_name_is_free(stem, suffix, used);
    let names = record_names(records);
    let names2 = record_names(records.push(r));
    assert(names2 =~= names.push(r.out_name@));
    assert forall|i: int| 0 <= i < names.len() implies #[trigger] names[i] != r.out_name@ by {
        assert(used[i] == names[i]);
    }
}

/// Recording a finished job under a name that no task holds keeps the
/// output names of the task list pairwise distinct; the plan of a job gives
/// such a name (see `build_args`).
pub proof fn lemma_fresh_name_keeps_names_distinct(records: Seq<Record>, r: Record)
    requires
        record_names(records).no_duplicates(),
        !record_names(records).contains(r.out_name@),
    ensures
        record_names(records.push(r)).no_duplicates(),
{
    let names = record_names(records);
    assert(record_names(records.push(r)) =~= names.push(r.out_name@));
    assert forall|i: int| 0 <= i < names.len() implies #[trigger] names[i] != r.out_name@ by {
        assert(names.contains(names[i]));
    }
}

/// A job planned against the task list and recorded under its planned name
/// keeps the output names pairwise distinct.
pub proof fn lemma_planned_job_keeps_names_distinct(
    records: Seq<Record>,
    on_disk: Seq<Seq<char>>,
    p: BuildPlan,
    r: Record,
)
    requires
        record_names(records).no_duplicates(),
        !used_names(records, on_disk).contains(p.out_name@),
        r.out_name@ == p.out_name@,
    ensures
        record_names(records.push(r)).no_duplicates(),
{
    if record_names(records).contains(r.out_name@) {
        let i = choose|i: int| 0 <= i < record_names(records).len() && record_names(records)[i]
            == r.out_name@;
        assert(used_names(records, on_disk)[i] == r.out_name@);
    }
    lemma_fresh_name_keeps_names_distinct(records, r);
}

/// Removing a task keeps the output names of the task list pairwise distinct.
pub proof fn lemma_removal_keeps_names_distinct(records: Seq<Record>, p: int)
    requires
        record_names(records).no_duplicates(),
        0 <= p < records.len(),
    ensures
        record_names(records.remove(p)).no_duplicates(),
{
    let names = record_names(records);
    let names2 = record_names(records.remove(p));
    assert(names2 =~= names.remove(p));
    assert forall|i: int, j: int| 0 <= i < names2.len() && 0 <= j < names2.len() && i != j implies
        names2[i] != names2[j] by {
        let a = if i < p { i } else { i + 1 };
        let b = if j < p { j } else { j + 1 };
        assert(names2[i] == names[a]);
        assert(names2[j] == names[b]);
    }
}

/// The plan of a video: an MP4 output under a free name, no image format,
/// and the arguments and label of the preferred hardware encoder for
/// `"gpu"` (x265 when there is none) or of the named CPU encoder.
pub proof fn lemma_video_plan(
    p: BuildPlan,
    records: Seq<Record>,
    encs: Seq<Seq<char>>,
    stem: Seq<char>,
    ext: Seq<char>,
    kind: Seq<char>,
    encoder: Seq<char>,
    quality: Seq<char>,
    img_format: Seq<char>,
    on_disk: Seq<Seq<char>>,
)
    requires
        kind != "image"@,
        is_plan(p, records, encs, stem, ext, kind, encoder, quality, img_format, on_disk),
    ensures
        is_video_plan(p, records, encs, encoder, quality, on_disk),
        encoder == "gpu"@ && gpu_choice(encs) is None ==> views(p.args@) == crate::encode::cpu_args(
            "x265"@,
            quality,
        ) && p.encoder@ == "x265"@,
{
    lemma_chosen_name_is_free(stem, ".mp4"@, used_names(records, on_disk));
    reveal_strlit(".mp4");
    reveal_strlit("x265");
}

/// Deleting a task right after adding it, when no earlier task has its id,
/// gives back the task list as it was.
pub proof fn lemma_delete_undoes_add(records: Seq<Record>, r: Record)
    requires
        first_with_id(records, r.id@) is None,
    ensures
        first_with_id(records.push(r), r.id@) == Some(records.len() as int),
        records.push(r).remove(records.len() as int) == records,
    decreases records.len(),
{
    if records.len() > 0 {
        assert(records.push(r).drop_first() =~= records.drop_first().push(r));
        match first_with_id(records.drop_first(), r.id@) {
            Some(p) => {
            },
            None => {
                lemma_delete_undoes_add(records.drop_first(), r);
            },
        }
    }
    assert(records.push(r).remove(records.len() as int) =~= records);
}

proof fn lemma_first_containing_found(encs: Seq<Seq<char>>, pat: Seq<char>, i: int)
    requires
        0 <= i < encs.len(),
        has_substring(encs[i], pat),
    ensures
        first_containing(encs, pat) matches Some(e) && has_substring(e, pat) && encs.contains(e),
    decreases encs.len(),
{
    if !has_substring(encs[0], pat) {
        let t = encs.drop_first();
        assert(t[i - 1] == encs[i]);
        lemma_first_containing_found(t, pat, i - 1);
        let e = first_containing(t, pat)->0;
        let j = choose|j: int| 0 <= j < t.len() && t[j] == e;
        assert(encs[j + 1] == e);
    } else {
        assert(encs.contains(encs[0]));
    }
}

/// HEVC is preferred: when any hardware encoder of the machine is an HEVC
/// one, the encoder used is an HEVC encoder of the machine.
pub proof fn lemma_hevc_preferred(encs: Seq<Seq<char>>, i: int)
    requires
        0 <= i < encs.len(),
        has_substring(encs[i], "hevc_"@),
    ensures
        gpu_choice(encs) matches Some(e) && has_substring(e, "hevc_"@) && encs.contains(e),
{
    lemma_first_containing_found(encs, "hevc_"@, i);
}

/// A hardware encoder is used whenever the machine has an HEVC or H.264 one,
/// and it is one of the machine's.
pub proof fn lemma_gpu_used_when_present(encs: Seq<Seq<char>>, i: int)
    requires
        0 <= i < encs.len(),
        has_substring(encs[i], "hevc_"@) || has_substring(encs[i], "h264_"@),
    ensures
        gpu_choice(encs) matches Some(e) && encs.contains(e),
{
    if has_substring(encs[i], "hevc_"@) {
        lemma_first_containing_found(encs, "hevc_"@, i);
    } else {
        if exists|j: int| 0 <= j < encs.len() && has_substring(encs[j], "hevc_"@) {
            let j = choose|j: int| 0 <= j < encs.len() && has_substring(encs[j], "hevc_"@);
            lemma_first_containing_found(encs, "hevc_"@, j);
        } else {
            lemma_first_containing_none_absent(encs, "hevc_"@);
            lemma_first_containing_found(encs, "h264_"@, i);
        }
    }
}

proof fn lemma_first_containing_none_absent(encs: Seq<Seq<char>>, pat: Seq<char>)
    requires
        !(exists|j: int| 0 <= j < encs.len() && has_substring(encs[j], pat)),
    ensures
        first_containing(encs, pat) is None,
    decreases encs.len(),
{
    if encs.len() > 0 {
        assert(!has_substring(encs[0], pat));
        let t = encs.drop_first();
        assert forall|j: int| 0 <= j < t.len() implies !has_substring(#[trigger] t[j], pat) by {
            assert(t[j] == encs[j + 1]);
        }
        lemma_first_containing_none_absent(t, pat);
    }
}

/// NVIDIA's HEVC encoder comes first: when the encoder listing of the
/// machine mentions it, the hardware encoder used is `hevc_nvenc`.
pub proof fn lemma_nvidia_hevc_first(encoders: Seq<char>)
    requires
        has_substring(encoders, "hevc_nvenc"@),
    ensures
        gpu_choice(gpu_encoder_names().filter(|n: Seq<char>| has_substring(encoders, n)))
            == Some("hevc_nvenc"@),
{
    let p = |n: Seq<char>| has_substring(encoders, n);
    let names = gpu_encoder_names();
    let rest = names.drop_first();
    assert(names =~= seq!["hevc_nvenc"@] + rest);
    rest.lemma_filter_prepend("hevc_nvenc"@, p);
    let found = names.filter(p);
    assert(found[0] == "hevc_nvenc"@);
    reveal_strlit("hevc_nvenc");
    reveal_strlit("hevc_");
    assert("hevc_nvenc"@.subrange(0, 5) =~= "hevc_"@);
    assert(occurs_at("hevc_nvenc"@, "hevc_"@, 0));
}

/// Without a usable hardware encoder, asking for the GPU encodes exactly as
/// asking for x265 (H.265 on the CPU, the best compression).
pub proof fn lemma_gpu_falls_back_to_x265(encs: Seq<Seq<char>>, quality: Seq<char>)
    requires
        forall|i: int|
            0 <= i < encs.len() ==> !has_substring(#[trigger] encs[i], "hevc_"@)
                && !has_substring(encs[i], "h264_"@),
    ensures
        video_args(encs, "gpu"@, quality) == video_args(encs, "x265"@, quality),
{
    lemma_first_containing_none_absent(encs, "hevc_"@);
    lemma_first_containing_none_absent(encs, "h264_"@);
    reveal_strlit("gpu");
    reveal_strlit("x265");
}

/// An image is written as JPEG, PNG or WebP; BMP and TIFF inputs always
/// become WebP, and so does every image when WebP is asked for.
pub proof fn lemma_image_output_formats(ext: Seq<char>, img_format: Seq<char>)
    ensures
        image_suffix(ext, img_format) == ".jpg"@ || image_suffix(ext, img_format) == ".jpeg"@
            || image_suffix(ext, img_format) == ".png"@ || image_suffix(ext, img_format)
            == ".webp"@,
        ext == "bmp"@ || ext == "tif"@ || ext == "tiff"@ ==> image_suffix(ext, img_format)
            == ".webp"@,
        img_format == "webp"@ ==> image_suffix(ext, img_format) == ".webp"@,
{
    reveal_strlit(".");
    reveal_strlit("jpg");
    reveal_strlit("jpeg");
    reveal_strlit("png");
    reveal_strlit("webp");
    reveal_strlit(".jpg");
    reveal_strlit(".jpeg");
    reveal_strlit(".png");
    reveal_strlit(".webp");
    if img_format != "webp"@ && (ext == "jpg"@ || ext == "jpeg"@ || ext == "png"@ || ext
        == "webp"@) {
        if ext == "jpg"@ {
            assert("."@ + ext =~= ".jpg"@);
        } else if ext == "jpeg"@ {
            assert("."@ + ext =~= ".jpeg"@);
        } else if ext == "png"@ {
            assert("."@ + ext =~= ".png"@);
        } else {
            assert("."@ + ext =~= ".webp"@);
        }
    }
}

/// The speed that a progress report shows is never empty and never `N/A`.
pub proof fn lemma_shown_speed_is_usable(ls: Seq<Seq<char>>)
    ensures
        last_speed(ls) matches Some(v) ==> usable_speed(v),
    decreases ls.len(),
{
    if ls.len() > 0 {
        lemma_shown_speed_is_usable(ls.drop_last());
    }
}

} // verus!

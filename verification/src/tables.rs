//! The fixed choices of the application, stated against their literal values:
//! which image formats are kept, which speeds are shown, which encoders are
//! probed, and the arguments of each encoder.
use vstd::prelude::*;
use crate::decimal::dec;
use crate::encode::{cpu_args, cpu_label, crf_for, gpu_encoder_names, gpu_params};
use crate::plan::{image_format, image_suffix};
use crate::progress::{field_value, last_speed};
use crate::text::{has_substring, starts_with};

verus! {

/// An image that is not asked to become WebP, and whose extension is JPEG,
/// PNG or WebP, keeps its own extension as the output suffix.
pub proof fn lemma_known_image_keeps_its_extension(ext: Seq<char>, img_format: Seq<char>)
    requires
        img_format != "webp"@,
        ext == "jpg"@ || ext == "jpeg"@ || ext == "png"@ || ext == "webp"@,
    ensures
        image_suffix(ext, img_format) == "."@ + ext,
{
    lemma_image_names_differ();
}

proof fn lemma_image_names_differ()
    ensures
        "jpg"@ != "bmp"@ && "jpg"@ != "tif"@ && "jpg"@ != "tiff"@,
        "jpeg"@ != "bmp"@ && "jpeg"@ != "tif"@ && "jpeg"@ != "tiff"@,
        "png"@ != "bmp"@ && "png"@ != "tif"@ && "png"@ != "tiff"@,
        "webp"@ != "bmp"@ && "webp"@ != "tif"@ && "webp"@ != "tiff"@,
{
    reveal_strlit("jpg");
    reveal_strlit("jpeg");
    reveal_strlit("png");
    reveal_strlit("webp");
    reveal_strlit("bmp");
    reveal_strlit("tif");
    reveal_strlit("tiff");
    assert("jpg"@[0] == 'j' && "jpeg"@[0] == 'j' && "png"@[0] == 'p' && "webp"@[0] == 'w');
    assert("bmp"@[0] == 'b' && "tif"@[0] == 't' && "tiff"@[0] == 't');
}

/// A WebP input is written as WebP, whatever format is asked for.
pub proof fn lemma_webp_input_stays_webp(img_format: Seq<char>)
    ensures
        image_suffix("webp"@, img_format) == ".webp"@,
        image_format(image_suffix("webp"@, img_format)) == "webp"@,
{
    lemma_image_names_differ();
    reveal_strlit("webp");
    reveal_strlit(".webp");
    reveal_strlit(".");
    assert("."@ + "webp"@ =~= ".webp"@);
}

/// The speed reported is that of the last `speed=` line whose value is
/// neither empty nor `N/A`, whatever that value is.
pub proof fn lemma_last_speed_line_is_reported(ls: Seq<Seq<char>>, i: int)
    requires
        0 <= i < ls.len(),
        starts_with(ls[i], "speed="@),
        field_value(ls[i], "speed="@).len() > 0,
        field_value(ls[i], "speed="@) != "N/A"@,
        forall|j: int|
            i < j < ls.len() ==> !(starts_with(#[trigger] ls[j], "speed="@) && field_value(
                ls[j],
                "speed="@,
            ).len() > 0 && field_value(ls[j], "speed="@) != "N/A"@),
    ensures
        last_speed(ls) == Some(field_value(ls[i], "speed="@)),
    decreases ls.len(),
{
    if i < ls.len() - 1 {
        let t = ls.drop_last();
        assert(!(starts_with(ls[ls.len() - 1], "speed="@) && field_value(
            ls[ls.len() - 1],
            "speed="@,
        ).len() > 0 && field_value(ls[ls.len() - 1], "speed="@) != "N/A"@));
        assert forall|j: int| i < j < t.len() implies !(starts_with(#[trigger] t[j], "speed="@)
            && field_value(t[j], "speed="@).len() > 0 && field_value(t[j], "speed="@)
            != "N/A"@) by {
            assert(t[j] == ls[j]);
        }
        lemma_last_speed_line_is_reported(t, i);
    }
}

/// No speed is reported when no `speed=` line has a value that is neither
/// empty nor `N/A`.
pub proof fn lemma_no_speed_without_speed_line(ls: Seq<Seq<char>>)
    requires
        forall|j: int|
            0 <= j < ls.len() ==> !(starts_with(#[trigger] ls[j], "speed="@) && field_value(
                ls[j],
                "speed="@,
            ).len() > 0 && field_value(ls[j], "speed="@) != "N/A"@),
    ensures
        last_speed(ls) is None,
    decreases ls.len(),
{
    if ls.len() > 0 {
        let t = ls.drop_last();
        assert(!(starts_with(ls[ls.len() - 1], "speed="@) && field_value(
            ls[ls.len() - 1],
            "speed="@,
        ).len() > 0 && field_value(ls[ls.len() - 1], "speed="@) != "N/A"@));
        assert forall|j: int| 0 <= j < t.len() implies !(starts_with(#[trigger] t[j], "speed="@)
            && field_value(t[j], "speed="@).len() > 0 && field_value(t[j], "speed="@)
            != "N/A"@) by {
            assert(t[j] == ls[j]);
        }
        lemma_no_speed_without_speed_line(t);
    }
}

/// The rate control of each hardware encoder: NVENC and QSV with a quality
/// of 30 for HEVC and 26 for H.264, AMF with constant QP at those values,
/// VideoToolbox with `-q:v` 60 for HEVC; any other encoder gets `-q:v` 50.
pub proof fn lemma_gpu_rate_control(enc: Seq<char>)
    ensures
        enc == "hevc_nvenc"@ ==> gpu_params(enc) == seq!["-preset"@, "p5"@, "-cq"@, "30"@],
        enc == "h264_nvenc"@ ==> gpu_params(enc) == seq!["-preset"@, "p5"@, "-cq"@, "26"@],
        enc == "hevc_qsv"@ ==> gpu_params(enc) == seq![
            "-preset"@,
            "medium"@,
            "-global_quality"@,
            "30"@,
        ],
        enc == "h264_qsv"@ ==> gpu_params(enc) == seq![
            "-preset"@,
            "medium"@,
            "-global_quality"@,
            "26"@,
        ],
        enc == "hevc_amf"@ ==> gpu_params(enc) == seq![
            "-quality"@,
            "quality"@,
            "-rc"@,
            "cqp"@,
            "-qp_i"@,
            "30"@,
            "-qp_p"@,
            "30"@,
            "-qp_b"@,
            "30"@,
        ],
        enc == "h264_amf"@ ==> gpu_params(enc) == seq![
            "-quality"@,
            "quality"@,
            "-rc"@,
            "cqp"@,
            "-qp_i"@,
            "26"@,
            "-qp_p"@,
            "26"@,
            "-qp_b"@,
            "26"@,
        ],
        enc == "hevc_videotoolbox"@ ==> gpu_params(enc) == seq!["-q:v"@, "60"@],
        enc != "hevc_nvenc"@ && enc != "h264_nvenc"@ && enc != "hevc_qsv"@ && enc != "h264_qsv"@
            && enc != "hevc_amf"@ && enc != "h264_amf"@ && enc != "hevc_videotoolbox"@
            ==> gpu_params(enc) == seq!["-q:v"@, "50"@],
{
    reveal_strlit("hevc_nvenc");
    reveal_strlit("h264_nvenc");
    reveal_strlit("hevc_qsv");
    reveal_strlit("h264_qsv");
    reveal_strlit("hevc_amf");
    reveal_strlit("h264_amf");
    reveal_strlit("hevc_videotoolbox");
    assert("hevc_nvenc"@.len() == 10 && "hevc_nvenc"@[1] == 'e' && "hevc_nvenc"@[5] == 'n');
    assert("h264_nvenc"@.len() == 10 && "h264_nvenc"@[1] == '2' && "h264_nvenc"@[5] == 'n');
    assert("hevc_qsv"@.len() == 8 && "hevc_qsv"@[1] == 'e' && "hevc_qsv"@[5] == 'q');
    assert("h264_qsv"@.len() == 8 && "h264_qsv"@[1] == '2' && "h264_qsv"@[5] == 'q');
    assert("hevc_amf"@.len() == 8 && "hevc_amf"@[1] == 'e' && "hevc_amf"@[5] == 'a');
    assert("h264_amf"@.len() == 8 && "h264_amf"@[1] == '2' && "h264_amf"@[5] == 'a');
    assert("hevc_videotoolbox"@.len() == 17);
}

/// The arguments of the CPU encoders: the stream selection, then libx265
/// with preset fast and the hvc1 tag for `"x265"` or libx264 with preset
/// medium for any other name, with the quality's CRF, then the common tail.
/// The codec depends on the encoder alone, never on the quality.
pub proof fn lemma_cpu_codec(encoder: Seq<char>, quality: Seq<char>)
    ensures
        cpu_args(encoder, quality).len() == (if encoder == "x265"@ {
            20int
        } else {
            18int
        }),
        cpu_args(encoder, quality).take(4) == seq!["-map"@, "0:v:0"@, "-map"@, "0:a?"@],
        encoder == "x265"@ ==> cpu_args(encoder, quality).subrange(4, 12) == seq![
            "-c:v"@,
            "libx265"@,
            "-preset"@,
            "fast"@,
            "-crf"@,
            dec(crf_for(encoder, quality)),
            "-tag:v"@,
            "hvc1"@,
        ],
        encoder != "x265"@ ==> cpu_args(encoder, quality).subrange(4, 10) == seq![
            "-c:v"@,
            "libx264"@,
            "-preset"@,
            "medium"@,
            "-crf"@,
            dec(crf_for(encoder, quality)),
        ],
        cpu_args(encoder, quality).skip(cpu_args(encoder, quality).len() - 8) == seq![
            "-pix_fmt"@,
            "yuv420p"@,
            "-c:a"@,
            "aac"@,
            "-b:a"@,
            "160k"@,
            "-movflags"@,
            "+faststart"@,
        ],
        cpu_label(encoder) == (if encoder == "x265"@ {
            "x265"@
        } else {
            "x264"@
        }),
{
    let a = cpu_args(encoder, quality);
    assert(a.take(4) =~= seq!["-map"@, "0:v:0"@, "-map"@, "0:a?"@]);
    if encoder == "x265"@ {
        assert(a.subrange(4, 12) =~= seq![
            "-c:v"@,
            "libx265"@,
            "-preset"@,
            "fast"@,
            "-crf"@,
            dec(crf_for(encoder, quality)),
            "-tag:v"@,
            "hvc1"@,
        ]);
    } else {
        assert(a.subrange(4, 10) =~= seq![
            "-c:v"@,
            "libx264"@,
            "-preset"@,
            "medium"@,
            "-crf"@,
            dec(crf_for(encoder, quality)),
        ]);
    }
    assert(a.skip(a.len() - 8) =~= seq![
        "-pix_fmt"@,
        "yuv420p"@,
        "-c:a"@,
        "aac"@,
        "-b:a"@,
        "160k"@,
        "-movflags"@,
        "+faststart"@,
    ]);
}

/// The constant rate factors: x265 uses 16, 20 and 24 for lossless, high
/// and compact, x264 uses 15, 18 and 22; any other quality gets 20.
pub proof fn lemma_crf_levels(encoder: Seq<char>, quality: Seq<char>)
    ensures
        encoder == "x265"@ && quality == "lossless"@ ==> crf_for(encoder, quality) == 16,
        encoder == "x265"@ && quality == "high"@ ==> crf_for(encoder, quality) == 20,
        encoder == "x265"@ && quality == "compact"@ ==> crf_for(encoder, quality) == 24,
        encoder != "x265"@ && quality == "lossless"@ ==> crf_for(encoder, quality) == 15,
        encoder != "x265"@ && quality == "high"@ ==> crf_for(encoder, quality) == 18,
        encoder != "x265"@ && quality == "compact"@ ==> crf_for(encoder, quality) == 22,
        quality != "lossless"@ && quality != "high"@ && quality != "compact"@ ==> crf_for(
            encoder,
            quality,
        ) == 20,
{
    reveal_strlit("lossless");
    reveal_strlit("high");
    reveal_strlit("compact");
    assert("lossless"@.len() == 8 && "high"@.len() == 4 && "compact"@.len() == 7);
}

/// The encoders found in a listing are exactly those of the eight known
/// hardware encoders (NVIDIA, Intel Quick Sync, AMD and Apple, each in HEVC
/// and H.264) that the listing mentions.
pub proof fn lemma_detected_encoders(txt: Seq<char>, n: Seq<char>)
    ensures
        gpu_encoder_names().filter(|m: Seq<char>| has_substring(txt, m)).contains(n) <==> ((n
            == "hevc_nvenc"@ || n == "h264_nvenc"@ || n == "hevc_qsv"@ || n == "h264_qsv"@ || n
            == "hevc_amf"@ || n == "h264_amf"@ || n == "hevc_videotoolbox"@ || n
            == "h264_videotoolbox"@) && has_substring(txt, n)),
{
    let p = |m: Seq<char>| has_substring(txt, m);
    let names = gpu_encoder_names();
    let found = names.filter(p);
    let known = n == "hevc_nvenc"@ || n == "h264_nvenc"@ || n == "hevc_qsv"@ || n == "h264_qsv"@
        || n == "hevc_amf"@ || n == "h264_amf"@ || n == "hevc_videotoolbox"@ || n
        == "h264_videotoolbox"@;
    if found.contains(n) {
        names.lemma_filter_contains_rev(p, n);
        let k = choose|k: int| 0 <= k < found.len() && found[k] == n;
        names.lemma_filter_pred(p, k);
        let i = choose|i: int| 0 <= i < names.len() && names[i] == n;
        assert(known) by {
            if i == 0 {
            } else if i == 1 {
            } else if i == 2 {
            } else if i == 3 {
            } else if i == 4 {
            } else if i == 5 {
            } else if i == 6 {
            } else {
            }
        }
    }
    if known && has_substring(txt, n) {
        let i: int = if n == "hevc_nvenc"@ {
            0
        } else if n == "h264_nvenc"@ {
            1
        } else if n == "hevc_qsv"@ {
            2
        } else if n == "h264_qsv"@ {
            3
        } else if n == "hevc_amf"@ {
            4
        } else if n == "h264_amf"@ {
            5
        } else if n == "hevc_videotoolbox"@ {
            6
        } else {
            7
        };
        assert(names[i] == n);
        names.lemma_filter_contains(p, i);
    }
}

} // verus!

//! Argument lists for the two external collaborators: the frame
//! extractor and the image tool that preprocesses frames and composes
//! montages. The exact flags and filter parameters are a contract with
//! those tools and are pinned verbatim by the `ensures` below; the
//! binary that wraps this library only hands them to a process.

use vstd::prelude::*;
use vstd::string::StringExecFns;

use crate::layout::ThumbnailLayout;
use crate::resolution::{
    format_res_spec, lemma_format_res_injective, valid_resolution, Resolution,
};
use crate::text::{digits_of, push_char, push_u64};

verus! {

/// The frame extractor's program name.
pub fn extractor_program() -> (r: String)
    ensures
        r@ == "ffmpeg"@,
{
    String::from_str("ffmpeg")
}

/// The image tool's program name.
pub fn imaging_program() -> (r: String)
    ensures
        r@ == "magick"@,
{
    String::from_str("magick")
}

/// Arguments that extract one PNG per scene change from `input`,
/// at detection threshold 0.33, into zero-padded 6-digit filenames.
pub fn extract_args(input: &str) -> (args: Vec<String>)
    ensures
        args@.len() == 7,
        args@[0]@ == "-i"@,
        args@[1]@ == input@,
        args@[2]@ == "-vf"@,
        args@[3]@ == "select='gt(scene\\,0.33)'"@,
        args@[4]@ == "-vsync"@,
        args@[5]@ == "vfr"@,
        args@[6]@ == "%06d.png"@,
{
    let mut v: Vec<String> = Vec::new();
    v.push(String::from_str("-i"));
    v.push(String::from_str(input));
    v.push(String::from_str("-vf"));
    v.push(String::from_str("select='gt(scene\\,0.33)'"));
    v.push(String::from_str("-vsync"));
    v.push(String::from_str("vfr"));
    v.push(String::from_str("%06d.png"));
    v
}

/// Arguments that report `file`'s dimensions as `WIDTHxHEIGHT`.
pub fn identify_args(file: &str) -> (args: Vec<String>)
    ensures
        args@.len() == 5,
        args@[0]@ == "identify"@,
        args@[1]@ == "-ping"@,
        args@[2]@ == "-format"@,
        args@[3]@ == "%[w]x%[h]"@,
        args@[4]@ == file@,
{
    let mut v: Vec<String> = Vec::new();
    v.push(String::from_str("identify"));
    v.push(String::from_str("-ping"));
    v.push(String::from_str("-format"));
    v.push(String::from_str("%[w]x%[h]"));
    v.push(String::from_str(file));
    v
}

/// Arguments of the per-frame preprocessing filter chain, reading
/// `input_file` and writing `output_file`. The parameter values are a
/// visual-tuning contract and must stay as they are.
pub fn preprocess_args(input_file: &str, output_file: &str) -> (args: Vec<String>)
    ensures
        args@.len() == 26,
        args@[0]@ == input_file@,
        args@[1]@ == "-gamma"@,
        args@[2]@ == ".45455"@,
        args@[3]@ == "-despeckle"@,
        args@[4]@ == "-statistic"@,
        args@[5]@ == "Nonpeak"@,
        args@[6]@ == "1.75x1.75"@,
        args@[7]@ == "-wavelet-denoise"@,
        args@[8]@ == "18x0.06"@,
        args@[9]@ == "-adaptive-sharpen"@,
        args@[10]@ == "3"@,
        args@[11]@ == "+sigmoidal-contrast"@,
        args@[12]@ == "4,48%"@,
        args@[13]@ == "-filter"@,
        args@[14]@ == "Lanczos2Sharp"@,
        args@[15]@ == "-resize"@,
        args@[16]@ == "50%"@,
        args@[17]@ == "-unsharp"@,
        args@[18]@ == "0x2+1+0.04"@,
        args@[19]@ == "-linear-stretch"@,
        args@[20]@ == "0.3"@,
        args@[21]@ == "-modulate"@,
        args@[22]@ == "100x110"@,
        args@[23]@ == "-gamma"@,
        args@[24]@ == "2.2"@,
        args@[25]@ == output_file@,
{
    let mut v: Vec<String> = Vec::new();
    v.push(String::from_str(input_file));
    v.push(String::from_str("-gamma"));
    v.push(String::from_str(".45455"));
    v.push(String::from_str("-despeckle"));
    v.push(String::from_str("-statistic"));
    v.push(String::from_str("Nonpeak"));
    v.push(String::from_str("1.75x1.75"));
    v.push(String::from_str("-wavelet-denoise"));
    v.push(String::from_str("18x0.06"));
    v.push(String::from_str("-adaptive-sharpen"));
    v.push(String::from_str("3"));
    v.push(String::from_str("+sigmoidal-contrast"));
    v.push(String::from_str("4,48%"));
    v.push(String::from_str("-filter"));
    v.push(String::from_str("Lanczos2Sharp"));
    v.push(String::from_str("-resize"));
    v.push(String::from_str("50%"));
    v.push(String::from_str("-unsharp"));
    v.push(String::from_str("0x2+1+0.04"));
    v.push(String::from_str("-linear-stretch"));
    v.push(String::from_str("0.3"));
    v.push(String::from_str("-modulate"));
    v.push(String::from_str("100x110"));
    v.push(String::from_str("-gamma"));
    v.push(String::from_str("2.2"));
    v.push(String::from_str(output_file));
    v
}

/// The montage geometry string `WxH+MX+MY`.
pub open spec fn geometry_spec(t: ThumbnailLayout) -> Seq<char> {
    digits_of(t.cell_width as int) + seq!['x'] + digits_of(t.cell_height as int) + seq!['+']
        + digits_of(t.margin_x as int) + seq!['+'] + digits_of(t.margin_y as int)
}

/// Format the montage geometry string.
pub fn geometry_string(t: &ThumbnailLayout) -> (r: String)
    ensures
        r@ == geometry_spec(*t),
{
    let mut out = String::new();
    push_u64(&mut out, t.cell_width);
    push_char(&mut out, 'x');
    push_u64(&mut out, t.cell_height);
    push_char(&mut out, '+');
    push_u64(&mut out, t.margin_x);
    push_char(&mut out, '+');
    push_u64(&mut out, t.margin_y);
    proof {
        assert(out@ =~= geometry_spec(*t));
    }
    out
}

/// The output file name for one target resolution.
pub open spec fn montage_name_spec(r: Resolution) -> Seq<char> {
    "montage-"@ + format_res_spec(r) + ".png"@
}

/// Format the montage output file name, `montage-WIDTHxHEIGHT.png`.
pub fn montage_file_name(r: &Resolution) -> (name: String)
    ensures
        name@ == montage_name_spec(*r),
{
    let mut out = String::from_str("montage-");
    let label = r.format();
    out.append(label.as_str());
    out.append(".png");
    proof {
        assert(out@ =~= montage_name_spec(*r));
    }
    out
}

/// Distinct resolutions get distinct output file names, so concurrent
/// composition jobs never write to the same file.
pub proof fn lemma_montage_names_distinct(a: Resolution, b: Resolution)
    requires
        valid_resolution(a),
        valid_resolution(b),
        a != b,
    ensures
        montage_name_spec(a) != montage_name_spec(b),
{
    if montage_name_spec(a) == montage_name_spec(b) {
        reveal_strlit("montage-");
        reveal_strlit(".png");
        let na = montage_name_spec(a);
        let nb = montage_name_spec(b);
        assert(na.subrange(8, na.len() - 4) =~= format_res_spec(a));
        assert(nb.subrange(8, nb.len() - 4) =~= format_res_spec(b));
        lemma_format_res_injective(a, b);
    }
}

/// Arguments that tile every PNG of the preprocessed directory into
/// one output image, `columns` cells per row.
pub fn montage_args(t: &ThumbnailLayout, output_file: &str) -> (args: Vec<String>)
    ensures
        args@.len() == 13,
        args@[0]@ == "montage"@,
        args@[1]@ == "*.png"@,
        args@[2]@ == "-background"@,
        args@[3]@ == "#00000000"@,
        args@[4]@ == "-filter"@,
        args@[5]@ == "Lanczos2Sharp"@,
        args@[6]@ == "-unsharp"@,
        args@[7]@ == "0x3+1+0.01"@,
        args@[8]@ == "-geometry"@,
        args@[9]@ == geometry_spec(*t),
        args@[10]@ == "-tile"@,
        args@[11]@ == digits_of(t.columns as int),
        args@[12]@ == output_file@,
{
    let mut v: Vec<String> = Vec::new();
    v.push(String::from_str("montage"));
    v.push(String::from_str("*.png"));
    v.push(String::from_str("-background"));
    v.push(String::from_str("#00000000"));
    v.push(String::from_str("-filter"));
    v.push(String::from_str("Lanczos2Sharp"));
    v.push(String::from_str("-unsharp"));
    v.push(String::from_str("0x3+1+0.01"));
    v.push(String::from_str("-geometry"));
    v.push(geometry_string(t));
    v.push(String::from_str("-tile"));
    v.push(crate::text::u64_to_string(t.columns));
    v.push(String::from_str(output_file));
    v
}

} // verus!

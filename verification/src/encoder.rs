//! Choosing a video encoder for the external transcoder: the reported
//! graphics adapters are searched for a discrete, then an integrated GPU,
//! and the adapter's vendor name decides the encoder preset.

use vstd::prelude::*;
use vstd::string::StringSliceAdditionalSpecFns;

verus! {

/// One graphics adapter as the host reports it.
#[derive(Debug)]
pub struct GpuInfo {
    /// Adapter name, holding the vendor's name.
    pub name: String,
    /// Graphics backend the adapter was found through.
    pub backend: String,
    /// Adapter class: `DiscreteGpu`, `IntegratedGpu`, `VirtualGpu`, `Cpu`
    /// or `Other`.
    pub device_type: String,
}

/// One stretch of a video to keep when cutting highlights, as the frontend
/// hands it over: each bound is either `HH:MM:SS` or a plain second count.
#[derive(Clone, Debug)]
pub struct TimeSegment {
    /// Where the kept stretch begins.
    pub start: String,
    /// Where the kept stretch ends.
    pub end: String,
}

/// An encoder choice for the external transcoder, holding the encoder's
/// name.
#[derive(Debug)]
pub enum EncoderPreset {
    /// Hardware encoding on an Nvidia adapter.
    Nvidia(String),
    /// Hardware encoding on an Intel adapter.
    Intel(String),
    /// Hardware encoding on an AMD adapter.
    Amd(String),
    /// Hardware encoding on an Apple adapter.
    Apple(String),
    /// Software encoding.
    Cpu(String),
}

/// `b` with an ASCII capital folded to its small form.
pub open spec fn lower_byte(b: u8) -> u8 {
    if 65 <= b <= 90 {
        (b + 32) as u8
    } else {
        b
    }
}

/// `s` with every ASCII capital folded.
pub open spec fn lower_seq(s: Seq<u8>) -> Seq<u8> {
    s.map_values(|b: u8| lower_byte(b))
}

/// Whether `needle` occurs contiguously anywhere in `hay`.
pub open spec fn contains_seq(hay: Seq<u8>, needle: Seq<u8>) -> bool {
    exists|k: int|
        0 <= k && k + needle.len() <= hay.len()
            && #[trigger] hay.subrange(k, k + needle.len()) == needle
}

/// The bytes of `nvidia`.
pub open spec fn nvidia_bytes() -> Seq<u8> {
    seq![110u8, 118u8, 105u8, 100u8, 105u8, 97u8]
}

/// The bytes of `intel`.
pub open spec fn intel_bytes() -> Seq<u8> {
    seq![105u8, 110u8, 116u8, 101u8, 108u8]
}

/// The bytes of `amd`.
pub open spec fn amd_bytes() -> Seq<u8> {
    seq![97u8, 109u8, 100u8]
}

/// The bytes of `radeon`.
pub open spec fn radeon_bytes() -> Seq<u8> {
    seq![114u8, 97u8, 100u8, 101u8, 111u8, 110u8]
}

/// The bytes of `apple`.
pub open spec fn apple_bytes() -> Seq<u8> {
    seq![97u8, 112u8, 112u8, 108u8, 101u8]
}

/// Which preset an adapter name earns: its case-folded name is searched for
/// each vendor in turn, and an unknown vendor falls back to software
/// encoding.
pub open spec fn encoder_for(name: Seq<char>, r: EncoderPreset) -> bool {
    let l = lower_seq(vstd::utf8::encode_utf8(name));
    if contains_seq(l, nvidia_bytes()) {
        r matches EncoderPreset::Nvidia(s) && s@ == "hevc_nvenc"@
    } else if contains_seq(l, intel_bytes()) {
        r matches EncoderPreset::Intel(s) && s@ == "hevc_qsv"@
    } else if contains_seq(l, amd_bytes()) || contains_seq(l, radeon_bytes()) {
        r matches EncoderPreset::Amd(s) && s@ == "hevc_amf"@
    } else if contains_seq(l, apple_bytes()) {
        r matches EncoderPreset::Apple(s) && s@ == "hevc_videotoolbox"@
    } else {
        r matches EncoderPreset::Cpu(s) && s@ == "libx265"@
    }
}

/// Case-folds ASCII capitals in a byte string.
fn ascii_lower(s: &[u8]) -> (out: Vec<u8>)
    ensures
        out@ == lower_seq(s@),
{
    let mut out: Vec<u8> = Vec::new();
    let mut i: usize = 0;
    while i < s.len()
        invariant
            i <= s@.len(),
            out@.len() == i,
            forall|j: int| 0 <= j < i ==> out@[j] == lower_byte(s@[j]),
        decreases s@.len() - i,
    {
        let b = s[i];
        if 65 <= b && b <= 90 {
            out.push(b + 32);
        } else {
            out.push(b);
        }
        i = i + 1;
    }
    proof {
        assert(out@ =~= lower_seq(s@));
    }
    out
}

/// Whether the bytes of `hay` starting at `k` are exactly `needle`.
fn window_eq(hay: &[u8], needle: &[u8], k: usize) -> (b: bool)
    requires
        k + needle@.len() <= hay@.len(),
    ensures
        b == (hay@.subrange(k as int, k + needle@.len()) == needle@),
{
    let hay_len = hay.len();
    let mut j: usize = 0;
    while j < needle.len()
        invariant
            j <= needle@.len(),
            k + needle@.len() <= hay@.len(),
            hay@.len() == hay_len,
            forall|t: int| 0 <= t < j ==> hay@[k + t] == needle@[t],
        decreases needle@.len() - j,
    {
        if hay[k + j] != needle[j] {
            proof {
                assert(hay@.subrange(k as int, k + needle@.len())[j as int] == hay@[k + j]);
            }
            return false;
        }
        j = j + 1;
    }
    proof {
        assert(hay@.subrange(k as int, k + needle@.len()) =~= needle@);
    }
    true
}

/// Whether `needle` occurs contiguously anywhere in `hay`.
fn contains_sub(hay: &[u8], needle: &[u8]) -> (b: bool)
    ensures
        b == contains_seq(hay@, needle@),
{
    if needle.len() > hay.len() {
        return false;
    }
    if needle.len() == 0 {
        proof {
            assert(hay@.subrange(0, 0 + needle@.len() as int) =~= needle@);
        }
        return true;
    }
    let limit = hay.len() - needle.len();
    let mut k: usize = 0;
    while k <= limit
        invariant
            1 <= needle@.len() <= hay@.len(),
            hay@.len() <= usize::MAX,
            limit == hay@.len() - needle@.len(),
            k <= hay@.len() - needle@.len() + 1,
            forall|t: int| 0 <= t < k
                ==> #[trigger] hay@.subrange(t, t + needle@.len()) != needle@,
        decreases hay@.len() - needle@.len() + 1 - k,
    {
        if window_eq(hay, needle, k) {
            return true;
        }
        k = k + 1;
    }
    false
}

/// Whether two byte strings are equal.
fn bytes_eq(a: &[u8], b: &[u8]) -> (r: bool)
    ensures
        r == (a@ == b@),
{
    if a.len() != b.len() {
        return false;
    }
    let mut i: usize = 0;
    while i < a.len()
        invariant
            i <= a@.len(),
            a@.len() == b@.len(),
            forall|j: int| 0 <= j < i ==> a@[j] == b@[j],
        decreases a@.len() - i,
    {
        if a[i] != b[i] {
            return false;
        }
        i = i + 1;
    }
    proof {
        assert(a@ =~= b@);
    }
    true
}

/// Maps an adapter's vendor name to its encoder preset.
pub fn match_vendor_to_encoder(name: &str) -> (r: EncoderPreset)
    ensures
        encoder_for(name@, r),
{
    let lower = ascii_lower(name.as_bytes());
    let nvidia: [u8; 6] = [110, 118, 105, 100, 105, 97];
    let intel: [u8; 5] = [105, 110, 116, 101, 108];
    let amd: [u8; 3] = [97, 109, 100];
    let radeon: [u8; 6] = [114, 97, 100, 101, 111, 110];
    let apple: [u8; 5] = [97, 112, 112, 108, 101];
    proof {
        assert(nvidia@ =~= nvidia_bytes());
        assert(intel@ =~= intel_bytes());
        assert(amd@ =~= amd_bytes());
        assert(radeon@ =~= radeon_bytes());
        assert(apple@ =~= apple_bytes());
    }
    if contains_sub(lower.as_slice(), nvidia.as_slice()) {
        EncoderPreset::Nvidia(String::from_str("hevc_nvenc"))
    } else if contains_sub(lower.as_slice(), intel.as_slice()) {
        EncoderPreset::Intel(String::from_str("hevc_qsv"))
    } else if contains_sub(lower.as_slice(), amd.as_slice())
        || contains_sub(lower.as_slice(), radeon.as_slice()) {
        EncoderPreset::Amd(String::from_str("hevc_amf"))
    } else if contains_sub(lower.as_slice(), apple.as_slice()) {
        EncoderPreset::Apple(String::from_str("hevc_videotoolbox"))
    } else {
        EncoderPreset::Cpu(String::from_str("libx265"))
    }
}

/// Index of the first adapter whose class spells `ty`, or the count if
/// none does.
pub open spec fn find_device(gpus: Seq<GpuInfo>, ty: Seq<char>, i: int) -> int
    decreases gpus.len() - i,
{
    if i >= gpus.len() {
        gpus.len() as int
    } else if gpus[i].device_type@ == ty {
        i
    } else {
        find_device(gpus, ty, i + 1)
    }
}

/// Finds the first adapter of the given class.
fn find_by_type(gpus: &[GpuInfo], ty: &String) -> (r: Option<usize>)
    ensures
        r matches Some(i) ==> i == find_device(gpus@, ty@, 0) && i < gpus@.len(),
        r is None ==> find_device(gpus@, ty@, 0) == gpus@.len(),
{
    let mut i: usize = 0;
    while i < gpus.len()
        invariant
            i <= gpus@.len(),
            find_device(gpus@, ty@, 0) == find_device(gpus@, ty@, i as int),
        decreases gpus@.len() - i,
    {
        let g = &gpus[i];
        if g.device_type.eq(ty) {
            return Some(i);
        }
        i = i + 1;
    }
    None
}

/// Picks the best encoder for the reported adapters: the first discrete
/// GPU's vendor if there is one, else the first integrated GPU's vendor,
/// else software encoding.
pub fn select_best_encoder(gpus: &[GpuInfo]) -> (r: EncoderPreset)
    ensures
        ({
            let d = find_device(gpus@, "DiscreteGpu"@, 0);
            let ig = find_device(gpus@, "IntegratedGpu"@, 0);
            if d < gpus@.len() {
                encoder_for(gpus@[d].name@, r)
            } else if ig < gpus@.len() {
                encoder_for(gpus@[ig].name@, r)
            } else {
                r matches EncoderPreset::Cpu(s) && s@ == "libx265"@
            }
        }),
{
    let discrete = String::from_str("DiscreteGpu");
    let integrated = String::from_str("IntegratedGpu");
    if let Some(i) = find_by_type(gpus, &discrete) {
        return match_vendor_to_encoder(gpus[i].name.as_str());
    }
    if let Some(i) = find_by_type(gpus, &integrated) {
        return match_vendor_to_encoder(gpus[i].name.as_str());
    }
    EncoderPreset::Cpu(String::from_str("libx265"))
}

impl EncoderPreset {
    /// The transcoder arguments this preset stands for: the video codec
    /// choice, its quality setting, and the audio codec.
    pub fn to_ffmpeg_args(&self) -> (args: Vec<&str>)
        ensures
            self matches EncoderPreset::Nvidia(n) ==> args@.len() == 6 && args@[0]@ == "-c:v"@
                && args@[1]@ == n@ && args@[2]@ == "-cq"@ && args@[3]@ == "28"@
                && args@[4]@ == "-c:a"@ && args@[5]@ == "aac"@,
            self matches EncoderPreset::Intel(n) ==> args@.len() == 6 && args@[0]@ == "-c:v"@
                && args@[1]@ == n@ && args@[2]@ == "-global_quality"@ && args@[3]@ == "25"@
                && args@[4]@ == "-c:a"@ && args@[5]@ == "aac"@,
            self matches EncoderPreset::Apple(n) ==> args@.len() == 6 && args@[0]@ == "-c:v"@
                && args@[1]@ == n@ && args@[2]@ == "-q:v"@ && args@[3]@ == "60"@
                && args@[4]@ == "-c:a"@ && args@[5]@ == "aac"@,
            self matches EncoderPreset::Amd(n) ==> args@.len() == 4 && args@[0]@ == "-c:v"@
                && args@[1]@ == n@ && args@[2]@ == "-c:a"@ && args@[3]@ == "aac"@,
            self matches EncoderPreset::Cpu(n) ==> args@.len() == 6 && args@[0]@ == "-c:v"@
                && args@[1]@ == n@ && args@[2]@ == "-crf"@ && args@[3]@ == "28"@
                && args@[4]@ == "-c:a"@ && args@[5]@ == "aac"@,
    {
        let mut args: Vec<&str> = Vec::new();
        args.push("-c:v");
        match self {
            EncoderPreset::Nvidia(name) => {
                args.push(name.as_str());
                args.push("-cq");
                args.push("28");
                args.push("-c:a");
                args.push("aac");
            },
            EncoderPreset::Intel(name) => {
                args.push(name.as_str());
                args.push("-global_quality");
                args.push("25");
                args.push("-c:a");
                args.push("aac");
            },
            EncoderPreset::Apple(name) => {
                args.push(name.as_str());
                args.push("-q:v");
                args.push("60");
                args.push("-c:a");
                args.push("aac");
            },
            EncoderPreset::Amd(name) => {
                args.push(name.as_str());
                args.push("-c:a");
                args.push("aac");
            },
            EncoderPreset::Cpu(name) => {
                args.push(name.as_str());
                args.push("-crf");
                args.push("28");
                args.push("-c:a");
                args.push("aac");
            },
        }
        args
    }
}

} // verus!

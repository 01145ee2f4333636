//! Process-wide configuration: the set-once base-path value, and the pure
//! parts of choosing a fallback font for the external encoder.
//!
//! The base path is an explicit configuration slot constructed once at
//! process start and threaded through as a value, not a hidden global. The
//! file-existence probing for fonts happens outside the library, which hands
//! in one flag per candidate.

use vstd::prelude::*;
use vstd::pervasive::unreached;

verus! {

/// The base-path value of the process: set exactly once at startup, read
/// afterwards.
pub struct FilePathConfig {
    /// The stored path, once initialized.
    pub value: Option<String>,
}

impl FilePathConfig {
    /// Whether the slot has been initialized.
    pub open spec fn is_set(&self) -> bool {
        self.value is Some
    }

    /// A fresh, uninitialized slot.
    pub fn new() -> (cfg: FilePathConfig)
        ensures
            !cfg.is_set(),
    {
        FilePathConfig { value: None }
    }

    /// Stores the base path; the slot must not have been initialized yet.
    pub fn init_file_path(&mut self, file_path: String)
        requires
            !old(self).is_set(),
        ensures
            final(self).value == Some(file_path),
    {
        self.value = Some(file_path);
    }

    /// Reads the stored base path; the slot must have been initialized.
    pub fn get_file_path(&self) -> (r: &String)
        requires
            self.is_set(),
        ensures
            Some(*r) == self.value,
    {
        match &self.value {
            Some(s) => s,
            None => unreached(),
        }
    }
}

/// Index of the first `true` in `available` at or after `i`, or the length
/// if none.
pub open spec fn first_present(available: Seq<bool>, i: int) -> int
    decreases available.len() - i,
{
    if i >= available.len() {
        available.len() as int
    } else if available[i] {
        i
    } else {
        first_present(available, i + 1)
    }
}

/// The font name tried as a last resort when no candidate exists.
pub open spec fn fallback_font_bytes() -> Seq<u8> {
    seq![97u8, 114u8, 105u8, 97u8, 108u8, 46u8, 116u8, 116u8, 102u8]
}

/// The default font path for the external encoder, as bytes: the first
/// candidate reported present — escaped for the filter syntax when `escape`
/// is set — or the bare fallback name `arial.ttf` when none exists.
pub fn default_font_path(candidates: &Vec<Vec<u8>>, available: &Vec<bool>, escape: bool) -> (out:
    Vec<u8>)
    requires
        candidates@.len() == available@.len(),
    ensures
        ({
            let i = first_present(available@, 0);
            if i < available@.len() {
                out@ == if escape {
                    escape_font_bytes(candidates@[i]@)
                } else {
                    candidates@[i]@
                }
            } else {
                out@ == fallback_font_bytes()
            }
        }),
{
    let mut i: usize = 0;
    while i < available.len()
        invariant
            i <= available@.len(),
            candidates@.len() == available@.len(),
            first_present(available@, 0) == first_present(available@, i as int),
        decreases available@.len() - i,
    {
        if available[i] {
            if escape {
                return escape_font_path(&candidates[i]);
            } else {
                return vstd::slice::slice_to_vec(candidates[i].as_slice());
            }
        }
        i = i + 1;
    }
    let mut out: Vec<u8> = Vec::new();
    out.push(97);
    out.push(114);
    out.push(105);
    out.push(97);
    out.push(108);
    out.push(46);
    out.push(116);
    out.push(116);
    out.push(102);
    proof {
        assert(out@ =~= fallback_font_bytes());
    }
    out
}

/// A byte of a font path as it must reach the external encoder's filter
/// syntax: path separators forward, the drive colon escaped.
pub open spec fn escape_font_bytes(s: Seq<u8>) -> Seq<u8>
    decreases s.len(),
{
    if s.len() == 0 {
        s
    } else {
        let head = if s[0] == 92 {
            seq![47u8]
        } else if s[0] == 58 {
            seq![92u8, 92u8, 58u8]
        } else {
            seq![s[0]]
        };
        head + escape_font_bytes(s.skip(1))
    }
}

/// Rewrites a font path for the external encoder's filter syntax: every
/// backslash becomes a forward slash, and every colon gains two escaping
/// backslashes.
pub fn escape_font_path(path: &Vec<u8>) -> (out: Vec<u8>)
    ensures
        out@ == escape_font_bytes(path@),
{
    let mut out: Vec<u8> = Vec::new();
    let mut i: usize = 0;
    proof {
        assert(path@.skip(0) =~= path@);
        assert(out@ + escape_font_bytes(path@) =~= escape_font_bytes(path@));
    }
    while i < path.len()
        invariant
            i <= path@.len(),
            escape_font_bytes(path@) == out@ + escape_font_bytes(path@.skip(i as int)),
        decreases path@.len() - i,
    {
        let ghost rest = path@.skip(i as int);
        let ghost prev = out@;
        let b = path[i];
        proof {
            assert(rest[0] == path@[i as int]);
            assert(rest.skip(1) =~= path@.skip(i + 1));
        }
        if b == 92 {
            out.push(47);
            proof {
                assert(prev + escape_font_bytes(rest)
                    =~= out@ + escape_font_bytes(path@.skip(i + 1)));
            }
        } else if b == 58 {
            out.push(92);
            out.push(92);
            out.push(58);
            proof {
                assert(prev + escape_font_bytes(rest)
                    =~= out@ + escape_font_bytes(path@.skip(i + 1)));
            }
        } else {
            out.push(b);
            proof {
                assert(prev + escape_font_bytes(rest)
                    =~= out@ + escape_font_bytes(path@.skip(i + 1)));
            }
        }
        i = i + 1;
    }
    proof {
        assert(path@.skip(path@.len() as int) =~= Seq::<u8>::empty());
        assert(out@ + escape_font_bytes(path@.skip(path@.len() as int)) =~= out@);
    }
    out
}

} // verus!

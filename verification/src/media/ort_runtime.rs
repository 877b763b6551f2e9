//! Checks on a dynamically loaded ONNX Runtime library made before the
//! runtime is initialized: where the library is, and whether its version is
//! new enough; each failure says how to fix it.
use crate::media::vocabulary::{usize_of_text, parse_usize};
use crate::runtime::decimal::{decimal, push_decimal};
use crate::text::{chars_of, copy_range, push_str};
use vstd::prelude::*;

verus! {

/// The ONNX Runtime minor version the ORT bindings are built against.
pub const ORT_MINOR_VERSION: u32 = 24;

pub open spec fn ort_error_text(problem: Seq<char>) -> Seq<char> {
    "ONNX Runtime dynamic loading "@ + problem
        + ". Set ORT_DYLIB_PATH to an absolute path to the official ONNX Runtime 1."@ + decimal(ORT_MINOR_VERSION as nat)
        + ".x library (for example libonnxruntime.so or libonnxruntime.dylib)."@
}

/// An actionable message for a problem with the dynamically loaded runtime.
pub fn dynamic_ort_error(problem: &str) -> (r: String)
    ensures
        r@ == ort_error_text(problem@),
{
    let mut out = String::new();
    push_str(&mut out, "ONNX Runtime dynamic loading ");
    push_str(&mut out, problem);
    push_str(&mut out, ". Set ORT_DYLIB_PATH to an absolute path to the official ONNX Runtime 1.");
    push_decimal(&mut out, ORT_MINOR_VERSION as u64);
    push_str(&mut out, ".x library (for example libonnxruntime.so or libonnxruntime.dylib).");
    proof {
        reveal_strlit("ONNX Runtime dynamic loading ");
        reveal_strlit(". Set ORT_DYLIB_PATH to an absolute path to the official ONNX Runtime 1.");
        reveal_strlit(".x library (for example libonnxruntime.so or libonnxruntime.dylib).");
    }
    out
}

/// What the file system says about the configured runtime path.
#[derive(Debug, Clone, PartialEq, Eq)]
pub enum RuntimeFileProbe {
    /// Its metadata could not be read, for this reason.
    Unreadable { reason: String },
    /// It names something other than a file.
    NotAFile,
    File,
}

/// The runtime library path from `ORT_DYLIB_PATH` (unset or empty is
/// `None`), given what the file system says about it.
pub fn dynamic_ort_runtime_path_from_value(value: Option<String>, probe: &RuntimeFileProbe) -> (r: Result<String, String>)
    ensures
        match value {
            None => r matches Err(m) && m@ == ort_error_text("is not set"@),
            Some(path) => match *probe {
                RuntimeFileProbe::Unreadable { reason } => r matches Err(m)
                    && m@ == ort_error_text("does not name a readable file ("@ + reason@ + ")"@),
                RuntimeFileProbe::NotAFile => r matches Err(m) && m@ == ort_error_text("does not name a file"@),
                RuntimeFileProbe::File => r matches Ok(p) && p@ == path@,
            },
        },
{
    match value {
        None => {
            proof {
                reveal_strlit("is not set");
            }
            Err(dynamic_ort_error("is not set"))
        },
        Some(path) => match probe {
            RuntimeFileProbe::Unreadable { reason } => {
                let mut problem = String::new();
                push_str(&mut problem, "does not name a readable file (");
                push_str(&mut problem, reason.as_str());
                push_str(&mut problem, ")");
                proof {
                    reveal_strlit("does not name a readable file (");
                    reveal_strlit(")");
                }
                Err(dynamic_ort_error(problem.as_str()))
            },
            RuntimeFileProbe::NotAFile => {
                proof {
                    reveal_strlit("does not name a file");
                }
                Err(dynamic_ort_error("does not name a file"))
            },
            RuntimeFileProbe::File => Ok(path),
        },
    }
}

/// The position of the first `c` at or after `from`.
pub open spec fn first_index_of(s: Seq<char>, c: char, from: int) -> Option<int>
    decreases s.len() - from,
{
    if from < 0 || from >= s.len() {
        None
    } else if s[from] == c {
        Some(from)
    } else {
        first_index_of(s, c, from + 1)
    }
}

/// The second `.`-separated part of a version text, if it has one.
pub open spec fn second_part(v: Seq<char>) -> Option<Seq<char>> {
    match first_index_of(v, '.', 0) {
        None => None,
        Some(a) => match first_index_of(v, '.', a + 1) {
            Some(b) => Some(v.subrange(a + 1, b)),
            None => Some(v.skip(a + 1)),
        },
    }
}

/// The minor version of a version text, as `u32` parsing reads it.
pub open spec fn minor_version(v: Seq<char>) -> Option<nat> {
    match second_part(v) {
        None => None,
        Some(p) => match usize_of_text(p) {
            Some(n) => if n <= u32::MAX { Some(n) } else { None },
            None => None,
        },
    }
}

fn first_index(cs: &Vec<char>, c: char, from: usize) -> (r: Option<usize>)
    requires
        from <= cs.len(),
    ensures
        match r {
            Some(p) => from <= p < cs@.len() && first_index_of(cs@, c, from as int) == Some(p as int),
            None => first_index_of(cs@, c, from as int) is None,
        },
{
    let mut i = from;
    while i < cs.len()
        invariant
            from <= i <= cs.len(),
            first_index_of(cs@, c, from as int) == first_index_of(cs@, c, i as int),
        decreases cs.len() - i,
    {
        if cs[i] == c {
            return Some(i);
        }
        i = i + 1;
    }
    None
}

/// Accepts a runtime whose minor version is at least the bindings' own;
/// a version without a readable minor part is refused too.
pub fn validate_dynamic_ort_version(version: &str) -> (r: Result<(), String>)
    ensures
        match minor_version(version@) {
            Some(minor) => if minor >= ORT_MINOR_VERSION {
                r is Ok
            } else {
                r matches Err(m) && m@ == ort_error_text("reports version "@ + version@ + "; expected ONNX Runtime 1."@
                    + decimal(ORT_MINOR_VERSION as nat) + ".x or newer"@)
            },
            None => r matches Err(m) && m@ == ort_error_text("reports version "@ + version@ + "; expected ONNX Runtime 1."@
                + decimal(ORT_MINOR_VERSION as nat) + ".x or newer"@),
        },
{
    let cs = chars_of(version);
    let mut minor: Option<u32> = None;
    if let Some(a) = first_index(&cs, '.', 0) {
        let part = match first_index(&cs, '.', a + 1) {
            Some(b) => copy_range(&cs, a + 1, b),
            None => copy_range(&cs, a + 1, cs.len()),
        };
        proof {
            assert(cs@.skip(a + 1) =~= cs@.subrange(a + 1, cs@.len() as int));
            assert(second_part(cs@) == Some(part@));
        }
        if let Some(n) = parse_usize(&part) {
            if n <= 4294967295 {
                minor = Some(n as u32);
            }
        }
    }
    proof {
        assert(cs@ == version@);
    }
    match minor {
        Some(m) if m >= ORT_MINOR_VERSION => Ok(()),
        _ => {
            let mut problem = String::new();
            push_str(&mut problem, "reports version ");
            push_str(&mut problem, version);
            push_str(&mut problem, "; expected ONNX Runtime 1.");
            push_decimal(&mut problem, ORT_MINOR_VERSION as u64);
            push_str(&mut problem, ".x or newer");
            proof {
                reveal_strlit("reports version ");
                reveal_strlit("; expected ONNX Runtime 1.");
                reveal_strlit(".x or newer");
            }
            Err(dynamic_ort_error(problem.as_str()))
        },
    }
}

} // verus!

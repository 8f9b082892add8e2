//! The command line: mesh file, image file, image extents and render mode.

use std::num::NonZeroU32;
use vstd::prelude::*;
use vstd::string::StrSliceExecFns;

verus! {

/// What a render writes into the depth buffer: every covered pixel, or only pixels near the
/// triangle's edges.
#[derive(Debug, PartialEq, Eq, Copy, Clone)]
pub enum Mode {
    Depth,
    Wireframe,
}

/// The parsed command line.
#[derive(Debug, PartialEq)]
pub struct Args {
    pub mesh_file: String,
    pub image_file: String,
    pub image_width: u32,
    pub image_height: u32,
    pub mode: Mode,
}

/// Why a command line was rejected.
#[derive(Debug, PartialEq)]
pub enum ArgsError {
    /// Neither four nor five arguments follow the program name.
    BadLength,
    /// An image extent is not a positive 32-bit integer; the text says which.
    ImageDimensions(&'static str),
    /// A sixth token is present but is not a wireframe flag.
    BadMode,
}

pub open spec fn is_digit(ch: char) -> bool {
    '0' <= ch <= '9'
}

/// The value of a string of decimal digits.
pub open spec fn digits_value(s: Seq<char>) -> nat
    decreases s.len(),
{
    if s.len() == 0 {
        0
    } else {
        digits_value(s.drop_last()) * 10 + ((s.last() as u32) - ('0' as u32)) as nat
    }
}

/// The digits of a decimal numeral: the text after an optional leading `+`.
pub open spec fn numeral_digits(s: Seq<char>) -> Seq<char> {
    if s.len() > 0 && s[0] == '+' {
        s.skip(1)
    } else {
        s
    }
}

/// `s` read as a positive 32-bit decimal numeral: an optional `+`, then one or more ASCII
/// digits, with a value in `1..=u32::MAX`.
pub open spec fn positive_u32(s: Seq<char>) -> Option<u32> {
    let d = numeral_digits(s);
    if d.len() > 0 && (forall|i: int| 0 <= i < d.len() ==> is_digit(#[trigger] d[i])) && 0
        < digits_value(d) <= u32::MAX {
        Some(digits_value(d) as u32)
    } else {
        None
    }
}

/// Relies on `str::parse::<NonZeroU32>`, which reads `s` with `u32::from_str` (an optional
/// `+`, then only ASCII digits, no overflow) and rejects zero.
#[verifier::external_body]
fn parse_positive(s: &str) -> (r: Option<u32>)
    ensures
        r == positive_u32(s@),
{
    match s.parse::<NonZeroU32>() {
        Ok(n) => Some(n.get()),
        Err(_) => None,
    }
}

/// Whether two strings hold the same characters.
fn same_text(s: &str, t: &str) -> (r: bool)
    ensures
        r == (s@ == t@),
{
    let n = s.unicode_len();
    if n != t.unicode_len() {
        return false;
    }
    let mut i: usize = 0;
    while i < n
        invariant
            n == s@.len(),
            n == t@.len(),
            i <= n,
            forall|j: int| 0 <= j < i ==> s@[j] == t@[j],
        decreases n - i,
    {
        if s.get_char(i) != t.get_char(i) {
            return false;
        }
        i = i + 1;
    }
    assert(s@ =~= t@);
    true
}

/// The render mode a flag selects, if it is one.
pub open spec fn mode_flag(flag: Seq<char>) -> Option<Mode> {
    if flag == "--wireframe"@ || flag == "-w"@ {
        Some(Mode::Wireframe)
    } else {
        None
    }
}

/// The error a command line is rejected with, checked in this order: its length, the width,
/// the height, then the mode flag.
pub open spec fn args_error(args: Seq<&str>) -> Option<ArgsError> {
    if !(args.len() == 5 || args.len() == 6) {
        Some(ArgsError::BadLength)
    } else if positive_u32(args[3]@) is None {
        Some(ArgsError::ImageDimensions("width invalid"))
    } else if positive_u32(args[4]@) is None {
        Some(ArgsError::ImageDimensions("height invalid"))
    } else if args.len() == 6 && mode_flag(args[5]@) is None {
        Some(ArgsError::BadMode)
    } else {
        None
    }
}

impl Args {
    /// The usage line.
    pub fn help() -> (r: &'static str)
        ensures
            r@ == "Usage: rusterizer Meshfile Imagefile image_width image_height [-w | --wireframe]"@,
    {
        "Usage: rusterizer Meshfile Imagefile image_width image_height [-w | --wireframe]"
    }

    /// Reads `program mesh_file image_file width height [-w | --wireframe]`.
    pub fn structure_args(args: &[&str]) -> (r: Result<Args, ArgsError>)
        ensures
            match r {
                Ok(parsed) => {
                    &&& args_error(args@) is None
                    &&& parsed.mesh_file@ == args@[1]@
                    &&& parsed.image_file@ == args@[2]@
                    &&& Some(parsed.image_width) == positive_u32(args@[3]@)
                    &&& Some(parsed.image_height) == positive_u32(args@[4]@)
                    &&& parsed.mode == (if args.len() == 6 {
                        Mode::Wireframe
                    } else {
                        Mode::Depth
                    })
                },
                Err(e) => args_error(args@) == Some(e),
            },
    {
        if !(args.len() == 5 || args.len() == 6) {
            return Err(ArgsError::BadLength);
        }
        let input_mesh = args[1];
        let input_image = args[2];
        let width = match parse_positive(args[3]) {
            Some(w) => w,
            None => return Err(ArgsError::ImageDimensions("width invalid")),
        };
        let height = match parse_positive(args[4]) {
            Some(h) => h,
            None => return Err(ArgsError::ImageDimensions("height invalid")),
        };
        let mode = if args.len() == 6 {
            if same_text(args[5], "--wireframe") || same_text(args[5], "-w") {
                Mode::Wireframe
            } else {
                return Err(ArgsError::BadMode);
            }
        } else {
            Mode::Depth
        };
        Ok(
            Args {
                mesh_file: input_mesh.to_owned(),
                image_file: input_image.to_owned(),
                image_width: width,
                image_height: height,
                mode,
            },
        )
    }
}

} // verus!

//! The parts of the command line that the library reads as text: the input
//! paths, the output folder, the colorize colour and strength, and the name
//! of the file that a result is written to.

use vstd::prelude::*;
use vstd::utf8::{encode_utf8, is_ascii_chars};
use crate::mode::{Format, format_ext};
use crate::text::{byte_in_radix, parse_byte, trim, trimmed_of};

verus! {

/// The pieces of `s` between its commas, in order: one more piece than
/// there are commas.
pub open spec fn comma_pieces(s: Seq<char>) -> Seq<Seq<char>>
    decreases s.len(),
{
    if s.len() == 0 {
        seq![Seq::empty()]
    } else {
        let init = comma_pieces(s.drop_last());
        if s.last() == ',' {
            init.push(Seq::empty())
        } else {
            init.update(init.len() - 1, init.last().push(s.last()))
        }
    }
}

proof fn lemma_comma_pieces_nonempty(s: Seq<char>)
    ensures
        comma_pieces(s).len() >= 1,
    decreases s.len(),
{
    if s.len() > 0 {
        lemma_comma_pieces_nonempty(s.drop_last());
    }
}

/// The pieces of `s` between its commas.
fn split_commas(s: &str) -> (r: Vec<&str>)
    ensures
        r@.len() == comma_pieces(s@).len(),
        forall|k: int| 0 <= k < r@.len() ==> (#[trigger] r@[k])@ == comma_pieces(s@)[k],
{
    let n = s.unicode_len();
    let mut pieces: Vec<&str> = Vec::new();
    let mut start: usize = 0;
    let mut i: usize = 0;
    while i < n
        invariant
            n == s@.len(),
            start <= i <= n,
            comma_pieces(s@.subrange(0, i as int)).len() == pieces@.len() + 1,
            forall|k: int|
                0 <= k < pieces@.len() ==> (#[trigger] pieces@[k])@ == comma_pieces(
                    s@.subrange(0, i as int),
                )[k],
            comma_pieces(s@.subrange(0, i as int)).last() == s@.subrange(start as int, i as int),
        decreases n - i,
    {
        let ghost prev = s@.subrange(0, i as int);
        let ghost next = s@.subrange(0, i + 1);
        proof {
            assert(next.drop_last() =~= prev);
            assert(next.last() == s@[i as int]);
            lemma_comma_pieces_nonempty(prev);
        }
        if s.get_char(i) == ',' {
            pieces.push(s.substring_char(start, i));
            start = i + 1;
            proof {
                assert(s@.subrange(start as int, i + 1) =~= Seq::<char>::empty());
            }
        } else {
            proof {
                assert(s@.subrange(start as int, i + 1) =~= s@.subrange(start as int, i as int).push(
                    s@[i as int],
                ));
            }
        }
        i = i + 1;
    }
    pieces.push(s.substring_char(start, n));
    proof {
        assert(s@.subrange(0, n as int) =~= s@);
    }
    pieces
}

/// Whether a colour is written in the `#RRGGBB` form.
pub open spec fn is_hex_form(s: Seq<char>) -> bool {
    s.len() > 0 && s[0] == '#'
}

/// The byte written by the `k`-th pair of hex digits after the `#`.
pub open spec fn hex_pair(s: Seq<char>, k: int) -> Option<u8> {
    byte_in_radix(s.subrange(2 * k + 1, 2 * k + 3), 16)
}

/// The colour that an ASCII `#RRGGBB` text gives, if each pair is a byte.
pub open spec fn hex_color(s: Seq<char>) -> Option<Seq<u8>> {
    if is_ascii_chars(s) && s.len() == 7 && hex_pair(s, 0) is Some && hex_pair(s, 1) is Some
        && hex_pair(s, 2) is Some {
        Some(seq![hex_pair(s, 0)->0, hex_pair(s, 1)->0, hex_pair(s, 2)->0])
    } else {
        None
    }
}

/// The byte that one piece of an `R,G,B` text gives, white space around it
/// aside.
pub open spec fn decimal_component(piece: Seq<char>) -> Option<u8> {
    byte_in_radix(trimmed_of(piece), 10)
}

/// Why an option cannot be used.
#[derive(Debug, Clone, PartialEq, Eq)]
pub enum OptionError {
    /// One of the two input paths is empty.
    NoInput,
    /// The output folder was given as an empty text.
    EmptyOutput,
    /// A `#` colour that is not seven bytes long.
    HexLength,
    /// A `#` colour whose digits do not spell three bytes.
    InvalidHex,
    /// A colour that is neither `#RRGGBB` nor three comma-separated values.
    ColorFormat(String),
    /// A component of an `R,G,B` colour that is not a byte.
    ColorComponent(String),
}

impl OptionError {
    /// A description of the error for the user.
    pub fn message(&self) -> (r: String)
        ensures
            *self == OptionError::NoInput ==> r@ == "No input file specified"@,
            *self == OptionError::EmptyOutput ==> r@ == "Output folder is empty"@,
            *self == OptionError::HexLength ==> r@ == "colorize color must be #RRGGBB"@,
            *self == OptionError::InvalidHex ==> r@ == "Invalid hex value"@,
            self matches OptionError::ColorFormat(t) ==> r@ == "Invalid color format: "@ + t@
                + ". Expected 'R,G,B' or '#RRGGBB'"@,
            self matches OptionError::ColorComponent(t) ==> r@ == "Invalid color component: "@
                + t@,
    {
        match self {
            OptionError::NoInput => String::from_str("No input file specified"),
            OptionError::EmptyOutput => String::from_str("Output folder is empty"),
            OptionError::HexLength => String::from_str("colorize color must be #RRGGBB"),
            OptionError::InvalidHex => String::from_str("Invalid hex value"),
            OptionError::ColorFormat(t) => String::from_str("Invalid color format: ").concat(
                t.as_str(),
            ).concat(". Expected 'R,G,B' or '#RRGGBB'"),
            OptionError::ColorComponent(t) => String::from_str("Invalid color component: ").concat(
                t.as_str(),
            ),
        }
    }
}

/// What reading `s` as a colour gives: `#RRGGBB` (hex digits, seven bytes
/// in all) or `R,G,B` (decimal bytes, white space around each allowed).
pub open spec fn color_parsed(s: Seq<char>, r: Result<Seq<u8>, OptionError>) -> bool {
    if is_hex_form(s) {
        if encode_utf8(s).len() != 7 {
            r == Err::<Seq<u8>, OptionError>(OptionError::HexLength)
        } else {
            match hex_color(s) {
                Some(c) => r == Ok::<Seq<u8>, OptionError>(c),
                None => r == Err::<Seq<u8>, OptionError>(OptionError::InvalidHex),
            }
        }
    } else if comma_pieces(s).len() != 3 {
        r matches Err(OptionError::ColorFormat(t)) && t@ == s
    } else {
        let p = comma_pieces(s);
        match (decimal_component(p[0]), decimal_component(p[1]), decimal_component(p[2])) {
            (Some(x), Some(y), Some(z)) => r == Ok::<Seq<u8>, OptionError>(seq![x, y, z]),
            (None, _, _) => (r matches Err(OptionError::ColorComponent(t)) && t@ == trimmed_of(
                p[0],
            )),
            (Some(_), None, _) => (r matches Err(OptionError::ColorComponent(t)) && t@
                == trimmed_of(p[1])),
            (Some(_), Some(_), None) => (r matches Err(OptionError::ColorComponent(t)) && t@
                == trimmed_of(p[2])),
        }
    }
}

/// A result with the channels of a colour as a sequence.
pub open spec fn channels_of(r: Result<Vec<u8>, OptionError>) -> Result<Seq<u8>, OptionError> {
    match r {
        Ok(v) => Ok(v@),
        Err(e) => Err(e),
    }
}

/// Reads a colour written as `#RRGGBB` (hex digits) or as `R,G,B` (decimal
/// bytes, white space around each allowed) into its three channels.
pub fn parse_color_text(text: &str) -> (r: Result<Vec<u8>, OptionError>)
    ensures
        color_parsed(text@, channels_of(r)),
{
    let n = text.unicode_len();
    if n > 0 && text.get_char(0) == '#' {
        if text.as_bytes().len() != 7 {
            return Err(OptionError::HexLength);
        }
        if !text.is_ascii() {
            return Err(OptionError::InvalidHex);
        }
        proof {
            vstd::string::is_ascii_spec_bytes(text);
            assert(text@.len() == 7);
        }
        let mut rgb: Vec<u8> = Vec::with_capacity(3);
        let mut k: usize = 0;
        while k < 3
            invariant
                is_hex_form(text@),
                encode_utf8(text@).len() == 7,
                text@.len() == 7,
                is_ascii_chars(text@),
                k <= 3,
                rgb@.len() == k,
                forall|j: int| 0 <= j < k ==> hex_pair(text@, j) == Some(#[trigger] rgb@[j]),
            decreases 3 - k,
        {
            match parse_byte(text.substring_ascii(2 * k + 1, 2 * k + 3), 16) {
                Some(v) => rgb.push(v),
                None => return Err(OptionError::InvalidHex),
            }
            k = k + 1;
        }
        proof {
            assert(hex_pair(text@, 0) == Some(rgb@[0]));
            assert(hex_pair(text@, 1) == Some(rgb@[1]));
            assert(hex_pair(text@, 2) == Some(rgb@[2]));
            assert(rgb@ =~= hex_color(text@)->0);
        }
        Ok(rgb)
    } else {
        let pieces = split_commas(text);
        if pieces.len() != 3 {
            return Err(OptionError::ColorFormat(String::from_str(text)));
        }
        let ghost p = comma_pieces(text@);
        let mut rgb: Vec<u8> = Vec::with_capacity(3);
        let mut k: usize = 0;
        while k < 3
            invariant
                !is_hex_form(text@),
                p == comma_pieces(text@),
                pieces@.len() == 3,
                p.len() == 3,
                forall|j: int| 0 <= j < 3 ==> (#[trigger] pieces@[j])@ == p[j],
                k <= 3,
                rgb@.len() == k,
                forall|j: int| 0 <= j < k ==> decimal_component(p[j]) == Some(#[trigger] rgb@[j]),
            decreases 3 - k,
        {
            let part = trim(pieces[k]);
            match parse_byte(part, 10) {
                Some(v) => rgb.push(v),
                None => {
                    proof {
                        assert(decimal_component(p[k as int]) is None);
                        if k >= 1 {
                            assert(decimal_component(p[0]) == Some(rgb@[0]));
                        }
                        if k >= 2 {
                            assert(decimal_component(p[1]) == Some(rgb@[1]));
                        }
                    }
                    return Err(OptionError::ColorComponent(String::from_str(part)));
                },
            }
            k = k + 1;
        }
        proof {
            assert(decimal_component(p[0]) == Some(rgb@[0]));
            assert(decimal_component(p[1]) == Some(rgb@[1]));
            assert(decimal_component(p[2]) == Some(rgb@[2]));
            assert(rgb@ =~= seq![rgb@[0], rgb@[1], rgb@[2]]);
        }
        Ok(rgb)
    }
}

/// Reads the colorize strength: a decimal byte of at most 100.
pub fn colorize_strength_parse(s: &str) -> (r: Result<u8, String>)
    ensures
        match byte_in_radix(s@, 10) {
            None => (r matches Err(m) && m@ == "`"@ + s@ + "` is not a valid number"@),
            Some(v) => if v > 100 {
                (r matches Err(m) && m@ == "`"@ + s@
                    + "` is out of range. It should be between 0 and 100"@)
            } else {
                r == Ok::<u8, String>(v)
            },
        },
{
    match parse_byte(s, 10) {
        None => Err(String::from_str("`").concat(s).concat("` is not a valid number")),
        Some(v) => {
            if v > 100 {
                Err(
                    String::from_str("`").concat(s).concat(
                        "` is out of range. It should be between 0 and 100",
                    ),
                )
            } else {
                Ok(v)
            }
        },
    }
}

/// What the command line gives as text and what is made of it.
pub trait ArgParseProcess {
    type Error;

    /// The folder that results are written to; `current_dir` is the
    /// process's working directory.
    fn output_folder(&self, current_dir: &str) -> Result<String, Self::Error>;

    /// The colorize colour, when one is given.
    fn parse_color(&self) -> Result<Option<Vec<u8>>, Self::Error>;
}

/// The options that the library reads as text.
pub struct TextOptions {
    /// The base image.
    pub image: String,
    /// The overlay image.
    pub image2: String,
    /// The output folder, when one is given.
    pub output: Option<String>,
    /// The colorize colour, as written.
    pub colorize_color: Option<String>,
}

/// The output folder for a given `output` option and working directory:
/// the option when it is given and not empty, the working directory when it
/// is not given.
pub open spec fn folder_for(output: Option<String>, current_dir: Seq<char>, r: Result<
    String,
    OptionError,
>) -> bool {
    match output {
        Some(o) => if o@.len() == 0 {
            r == Err::<String, OptionError>(OptionError::EmptyOutput)
        } else {
            r matches Ok(f) && f@ == o@
        },
        None => r matches Ok(f) && f@ == current_dir,
    }
}

impl ArgParseProcess for TextOptions {
    type Error = OptionError;

    fn output_folder(&self, current_dir: &str) -> (r: Result<String, OptionError>)
        ensures
            folder_for(self.output, current_dir@, r),
    {
        match &self.output {
            Some(o) => {
                if o.as_str().is_empty() {
                    Err(OptionError::EmptyOutput)
                } else {
                    Ok(o.clone())
                }
            },
            None => Ok(String::from_str(current_dir)),
        }
    }

    fn parse_color(&self) -> (r: Result<Option<Vec<u8>>, OptionError>)
        ensures
            match self.colorize_color {
                None => r matches Ok(None),
                Some(t) => match r {
                    Ok(Some(v)) => color_parsed(t@, Ok(v@)),
                    Ok(None) => false,
                    Err(e) => color_parsed(t@, Err(e)),
                },
            },
    {
        match &self.colorize_color {
            Some(t) => match parse_color_text(t.as_str()) {
                Ok(v) => Ok(Some(v)),
                Err(e) => Err(e),
            },
            None => Ok(None),
        }
    }
}

/// Checks that both input paths are given, then settles the output folder.
pub fn options_post_processing(options: &TextOptions, current_dir: &str) -> (r: Result<
    String,
    OptionError,
>)
    ensures
        options.image@.len() == 0 || options.image2@.len() == 0 ==> r == Err::<String, OptionError>(
            OptionError::NoInput,
        ),
        options.image@.len() > 0 && options.image2@.len() > 0 ==> folder_for(
            options.output,
            current_dir@,
            r,
        ),
{
    if options.image.as_str().is_empty() || options.image2.as_str().is_empty() {
        return Err(OptionError::NoInput);
    }
    options.output_folder(current_dir)
}

/// The index of the last `.` in `s`, or -1 when there is none.
pub open spec fn last_dot(s: Seq<char>) -> int
    decreases s.len(),
{
    if s.len() == 0 {
        -1
    } else if s.last() == '.' {
        s.len() - 1
    } else {
        last_dot(s.drop_last())
    }
}

/// A file name without its last extension: what comes before the last `.`,
/// or the whole name when it has none.
pub open spec fn file_stem(s: Seq<char>) -> Seq<char> {
    if last_dot(s) >= 0 {
        s.subrange(0, last_dot(s))
    } else {
        s
    }
}

proof fn lemma_last_dot(s: Seq<char>, i: int)
    requires
        0 <= i <= s.len(),
        forall|j: int| i <= j < s.len() ==> s[j] != '.',
    ensures
        last_dot(s) == last_dot(s.subrange(0, i)),
    decreases s.len() - i,
{
    if i < s.len() {
        assert(s.drop_last() =~= s.subrange(0, s.len() - 1));
        lemma_last_dot(s.drop_last(), i);
        assert(s.drop_last().subrange(0, i) =~= s.subrange(0, i));
    } else {
        assert(s.subrange(0, i) =~= s);
    }
}

/// The name of the file a result is written to: the base image's file name
/// with its last extension replaced by the format's.
pub fn output_file_name(file_name: &str, format: Format) -> (r: String)
    ensures
        r@ == file_stem(file_name@) + "."@ + format_ext(format),
{
    let n = file_name.unicode_len();
    let mut i: usize = n;
    while i > 0
        invariant
            n == file_name@.len(),
            i <= n,
            forall|j: int| i <= j < n ==> file_name@[j] != '.',
        decreases i,
    {
        if file_name.get_char(i - 1) == '.' {
            proof {
                lemma_last_dot(file_name@, i as int);
                assert(file_name@.subrange(0, i as int).last() == '.');
            }
            let stem = file_name.substring_char(0, i - 1);
            return String::from_str(stem).concat(".").concat(format.format_name().as_str());
        }
        i = i - 1;
    }
    proof {
        lemma_last_dot(file_name@, 0);
    }
    String::from_str(file_name).concat(".").concat(format.format_name().as_str())
}

} // verus!

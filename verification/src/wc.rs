//! The counting tool's core: per-text line, word, character and byte
//! counts, and the right-aligned column formatting of the report.

use vstd::prelude::*;
use vstd::string::StringSliceAdditionalSpecFns;
use crate::numerals::{spec_decimal, spec_num_digits, padded, padded_decimal, lemma_decimal_len, lemma_num_digits_le};
use crate::text::{is_space, char_is_space, count_words_upto, count_words, count_newlines_upto, count_lines, lemma_count_newlines_le, str_eq};

verus! {

/// The counting tool's configuration: which files to read and which
/// counts to print.
#[derive(Debug)]
pub struct ArgConfig {
    pub files: Vec<String>,
    pub lines: bool,
    pub chars: bool,
    pub bytes: bool,
    pub words: bool,
}

/// Normalises a parsed configuration: no files means standard input
/// (written `"-"`), and no counts asked for means lines, words and bytes.
pub fn get_args(cfg: ArgConfig) -> (r: ArgConfig)
    ensures
        cfg.files@.len() == 0 ==> r.files@.len() == 1 && r.files@[0]@ == "-"@,
        cfg.files@.len() > 0 ==> r.files == cfg.files,
        (!cfg.lines && !cfg.words && !cfg.bytes && !cfg.chars) ==> r.lines && r.words && r.bytes
            && !r.chars,
        (cfg.lines || cfg.words || cfg.bytes || cfg.chars) ==> r.lines == cfg.lines && r.words
            == cfg.words && r.bytes == cfg.bytes && r.chars == cfg.chars,
{
    let mut cfg = cfg;
    if cfg.files.len() == 0 {
        let mut fs: Vec<String> = Vec::new();
        fs.push("-".to_owned());
        cfg.files = fs;
    }
    if !cfg.lines && !cfg.words && !cfg.bytes && !cfg.chars {
        cfg.lines = true;
        cfg.words = true;
        cfg.bytes = true;
    }
    cfg
}

/// One text's counts.
#[derive(Debug, PartialEq, Eq, Structural)]
pub struct FileInfo {
    pub line_count: usize,
    pub word_count: usize,
    pub char_count: usize,
    pub byte_count: usize,
}

impl FileInfo {
    /// All counts zero.
    pub fn new() -> (r: Self)
        ensures
            r.line_count == 0 && r.word_count == 0 && r.char_count == 0 && r.byte_count == 0,
    {
        Self { line_count: 0, word_count: 0, char_count: 0, byte_count: 0 }
    }
}

/// Counts one text: lines as a line reader hands them out, words as
/// maximal non-space runs, characters as Unicode scalar values, bytes of
/// the UTF-8 form.
pub fn count(text: &str) -> (r: FileInfo)
    ensures
        r.line_count == count_lines(text@),
        r.word_count == count_words(text@),
        r.char_count == text@.len(),
        r.byte_count == text.spec_bytes().len(),
{
    let n = text.unicode_len();
    let mut nl: usize = 0;
    let mut wd: usize = 0;
    let mut prev_space: bool = true;
    let mut i: usize = 0;
    while i < n
        invariant
            0 <= i <= n,
            n == text@.len(),
            nl == count_newlines_upto(text@, i as int),
            wd == count_words_upto(text@, i as int),
            nl <= i,
            wd <= i,
            prev_space == (i == 0 || is_space(text@[i - 1])),
        decreases n - i,
    {
        let c = text.get_char(i);
        if c == '\n' {
            nl = nl + 1;
        }
        let sp = char_is_space(c);
        if !sp && prev_space {
            wd = wd + 1;
        }
        prev_space = sp;
        i = i + 1;
    }
    let mut lines = nl;
    if n > 0 {
        let lastc = text.get_char(n - 1);
        if lastc != '\n' {
            proof {
                lemma_count_newlines_le(text@, n - 1);
                assert(count_newlines_upto(text@, n as int) == count_newlines_upto(
                    text@,
                    n - 1,
                ));
            }
            lines = lines + 1;
        }
    }
    let bytes = text.as_bytes().len();
    FileInfo { line_count: lines, word_count: wd, char_count: n, byte_count: bytes }
}

/// One column of the report: the count right-aligned in `pad` places when
/// it is shown, nothing when it is not.
pub fn format_field(value: &usize, pad: usize, show: bool) -> (r: String)
    ensures
        show ==> r@ == padded(spec_decimal(*value as nat), pad as nat),
        !show ==> r@ == Seq::<char>::empty(),
{
    if show {
        padded_decimal(*value, pad)
    } else {
        String::new()
    }
}

/// A numeral is far shorter than its value: at most one place per power of
/// ten, plus one.
proof fn lemma_num_digits_small(n: nat)
    ensures
        n >= 1 ==> spec_num_digits(n) <= n / 10 + 1,
    decreases n,
{
    if n >= 1 {
        lemma_num_digits_small(n / 10);
        assert(spec_num_digits(n) == 1 + spec_num_digits(n / 10));
        if n / 10 >= 1 {
            let m = n / 10;
            assert(spec_num_digits(m) <= m / 10 + 1);
            vstd::arithmetic::div_mod::lemma_fundamental_div_mod(m as int, 10);
            vstd::arithmetic::div_mod::lemma_mod_bound(m as int, 10);
            if m / 10 >= m {
                vstd::arithmetic::mul::lemma_mul_inequality(m as int, (m / 10) as int, 10);
                assert(false);
            }
            assert(m / 10 + 1 <= m);
        } else {
            assert(spec_num_digits((n / 10) as nat) == 0);
        }
    }
}

/// The column width for a total byte count `bc`: one more than the number
/// of decimal places, and two when there is nothing at all.
pub fn get_pad(bc: usize) -> (r: usize)
    ensures
        bc == 0 ==> r == 2,
        bc > 0 ==> r == spec_decimal(bc as nat).len() + 1,
{
    if bc == 0 {
        2
    } else {
        let mut temp = bc;
        let mut pad: usize = 0;
        proof {
            lemma_num_digits_le(bc as nat);
        }
        while temp > 0
            invariant
                0 <= temp <= bc,
                pad + spec_num_digits(temp as nat) == spec_num_digits(bc as nat),
                spec_num_digits(bc as nat) <= bc,
            decreases temp,
        {
            temp = temp / 10;
            pad = pad + 1;
        }
        proof {
            lemma_decimal_len(bc as nat);
            lemma_num_digits_small(bc as nat);
        }
        pad + 1
    }
}

/// What one shown column holds.
pub open spec fn field_spec(v: nat, width: nat, show: bool) -> Seq<char> {
    if show {
        padded(spec_decimal(v), width)
    } else {
        Seq::<char>::empty()
    }
}

/// One report line: the four columns in line-word-character-byte order
/// (the line column one place narrower), then the file's name — unless the
/// text came from standard input, written `"-"`, which stays nameless.
pub fn format_fileinfo(info: &FileInfo, filename: &str, cfg: &ArgConfig, pad: usize) -> (r: String)
    requires
        pad >= 1,
    ensures
        r@ == field_spec(info.line_count as nat, (pad - 1) as nat, cfg.lines) + field_spec(
            info.word_count as nat,
            pad as nat,
            cfg.words,
        ) + field_spec(info.char_count as nat, pad as nat, cfg.chars) + field_spec(
            info.byte_count as nat,
            pad as nat,
            cfg.bytes,
        ) + (if filename@ == "-"@ {
            Seq::<char>::empty()
        } else {
            " "@ + filename@
        }),
{
    let mut r = format_field(&info.line_count, pad - 1, cfg.lines);
    r.append(format_field(&info.word_count, pad, cfg.words).as_str());
    r.append(format_field(&info.char_count, pad, cfg.chars).as_str());
    r.append(format_field(&info.byte_count, pad, cfg.bytes).as_str());
    if !str_eq(filename, "-") {
        r.append(" ");
        r.append(filename);
    }
    proof {
        assert(r@ =~= field_spec(info.line_count as nat, (pad - 1) as nat, cfg.lines) + field_spec(
            info.word_count as nat,
            pad as nat,
            cfg.words,
        ) + field_spec(info.char_count as nat, pad as nat, cfg.chars) + field_spec(
            info.byte_count as nat,
            pad as nat,
            cfg.bytes,
        ) + (if filename@ == "-"@ {
            Seq::<char>::empty()
        } else {
            " "@ + filename@
        }));
    }
    r
}

} // verus!

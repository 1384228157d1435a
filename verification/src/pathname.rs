//! Verified path-name arithmetic.
//!
//! The library carries file locations as plain strings. This module gives the
//! string functions the pipeline needs — the name after the last separator,
//! the stem and extension around the last dot, the recognized image
//! extensions, and decimal labels for frames without a path — each pinned to
//! a spec-level definition over the character sequence.

use vstd::prelude::*;

verus! {

/// The index just after the last `'/'` in `s`, or `0` when `s` holds none:
/// where the file name of a path begins.
pub open spec fn name_start(s: Seq<char>) -> int
    decreases s.len(),
{
    if s.len() == 0 {
        0
    } else if s.last() == '/' {
        s.len() as int
    } else {
        name_start(s.drop_last())
    }
}

pub proof fn lemma_name_start_bounds(s: Seq<char>)
    ensures
        0 <= name_start(s) <= s.len(),
    decreases s.len(),
{
    if s.len() > 0 && s.last() != '/' {
        lemma_name_start_bounds(s.drop_last());
    }
}

/// The file name of a path: everything after the last `'/'`.
pub open spec fn spec_file_name(s: Seq<char>) -> Seq<char> {
    s.subrange(name_start(s), s.len() as int)
}

/// The index of the dot that separates a file name from its extension: the
/// last `'.'` of `name`, provided something precedes it, or `-1` when the
/// name carries no extension.
pub open spec fn dot_index(name: Seq<char>) -> int
    decreases name.len(),
{
    if name.len() <= 1 {
        -1
    } else if name.last() == '.' {
        name.len() - 1
    } else {
        dot_index(name.drop_last())
    }
}

pub proof fn lemma_dot_index_bounds(name: Seq<char>)
    ensures
        dot_index(name) == -1 || (1 <= dot_index(name) < name.len()),
    decreases name.len(),
{
    if name.len() > 1 && name.last() != '.' {
        lemma_dot_index_bounds(name.drop_last());
    }
}

/// The stem of a path's file name: the name up to (not including) the
/// extension dot, or the whole name when there is no extension.
pub open spec fn spec_file_stem(s: Seq<char>) -> Seq<char> {
    let name = spec_file_name(s);
    if dot_index(name) == -1 {
        name
    } else {
        name.take(dot_index(name))
    }
}

/// The extension of a path's file name: the part after the extension dot,
/// or nothing when the name carries no dot past its first character.
pub open spec fn spec_extension(s: Seq<char>) -> Option<Seq<char>> {
    let name = spec_file_name(s);
    if dot_index(name) == -1 {
        Option::None
    } else {
        Option::Some(name.skip(dot_index(name) + 1))
    }
}

/// ASCII lowercasing of one character; anything but `'A'..'Z'` is untouched.
pub open spec fn lower_char(c: char) -> char {
    if 'A' <= c && c <= 'Z' {
        ((c as u8) + 32) as char
    } else {
        c
    }
}

/// ASCII lowercasing of a character sequence.
pub open spec fn lower_seq(s: Seq<char>) -> Seq<char> {
    s.map_values(|c: char| lower_char(c))
}

/// Whether `e` names a recognized image extension, compared without regard
/// to ASCII case.
pub open spec fn is_image_ext(e: Seq<char>) -> bool {
    ||| lower_seq(e) == "jpg"@
    ||| lower_seq(e) == "jpeg"@
    ||| lower_seq(e) == "png"@
    ||| lower_seq(e) == "bmp"@
    ||| lower_seq(e) == "gif"@
    ||| lower_seq(e) == "webp"@
    ||| lower_seq(e) == "tiff"@
    ||| lower_seq(e) == "tif"@
}

/// Whether the path ends in a recognized image extension.
pub open spec fn is_image_path(s: Seq<char>) -> bool {
    match spec_extension(s) {
        Option::Some(e) => is_image_ext(e),
        Option::None => false,
    }
}

/// The decimal numeral of `n`, most significant digit first.
pub open spec fn spec_decimal(n: nat) -> Seq<char>
    decreases n,
{
    if n < 10 {
        seq![digit_char(n)]
    } else {
        spec_decimal(n / 10) + seq![digit_char(n % 10)]
    }
}

/// The digit character for a value below ten.
pub open spec fn digit_char(d: nat) -> char {
    if d == 0 {
        '0'
    } else if d == 1 {
        '1'
    } else if d == 2 {
        '2'
    } else if d == 3 {
        '3'
    } else if d == 4 {
        '4'
    } else if d == 5 {
        '5'
    } else if d == 6 {
        '6'
    } else if d == 7 {
        '7'
    } else if d == 8 {
        '8'
    } else {
        '9'
    }
}

/// The label given to a frame that has no originating path.
pub open spec fn spec_frame_label(i: nat) -> Seq<char> {
    "frame_"@ + spec_decimal(i)
}

/// Whether a path stands on its own: it begins with the separator.
pub open spec fn spec_is_absolute(s: Seq<char>) -> bool {
    s.len() > 0 && s[0] == '/'
}

/// A path against a base: an absolute path is kept, a relative one is joined
/// under the base.
pub open spec fn spec_resolved(root: Seq<char>, p: Seq<char>) -> Seq<char> {
    if spec_is_absolute(p) {
        p
    } else {
        root + "/"@ + p
    }
}

/// Whether `p` begins with the separator.
pub fn is_absolute_path(p: &str) -> (r: bool)
    ensures
        r == spec_is_absolute(p@),
{
    p.unicode_len() > 0 && p.get_char(0) == '/'
}

/// Resolve `p` against `root`: an absolute path is kept as it is, a relative
/// one is joined under `root`.
pub fn resolve_path(root: &String, p: &String) -> (r: String)
    ensures
        r@ == spec_resolved(root@, p@),
{
    if is_absolute_path(p.as_str()) {
        p.clone()
    } else {
        let mut r = root.clone();
        r.append("/");
        r.append(p.as_str());
        r
    }
}

/// Where the file name of `path` begins.
fn find_name_start(path: &str) -> (r: usize)
    ensures
        r == name_start(path@),
{
    let n = path.unicode_len();
    let mut cut: usize = 0;
    let mut i: usize = 0;
    while i < n
        invariant
            i <= n,
            n == path@.len(),
            cut == name_start(path@.take(i as int)),
        decreases n - i,
    {
        proof {
            assert(path@.take(i + 1).drop_last() =~= path@.take(i as int));
            assert(path@.take(i + 1).last() == path@[i as int]);
        }
        if path.get_char(i) == '/' {
            cut = i + 1;
        }
        i += 1;
    }
    proof {
        assert(path@.take(n as int) =~= path@);
    }
    cut
}

/// The file name of `path`: everything after the last `'/'`, the whole of
/// `path` when it holds no separator.
pub fn file_name_of(path: &str) -> (r: String)
    ensures
        r@ == spec_file_name(path@),
{
    let n = path.unicode_len();
    let cut = find_name_start(path);
    proof {
        lemma_name_start_bounds(path@);
    }
    String::from_str(path.substring_char(cut, n))
}

/// The index just after the extension dot of `name`, or `0` when `name`
/// carries no extension.
fn find_dot(name: &str) -> (r: usize)
    ensures
        r == 0 ==> dot_index(name@) == -1,
        r > 0 ==> dot_index(name@) == r - 1,
{
    let n = name.unicode_len();
    let mut j = n;
    proof {
        assert(name@.take(n as int) =~= name@);
    }
    while j > 1
        invariant
            j <= n,
            n == name@.len(),
            dot_index(name@) == dot_index(name@.take(j as int)),
        decreases j,
    {
        proof {
            assert(name@.take(j as int).last() == name@[j - 1]);
            assert(name@.take(j as int).drop_last() =~= name@.take(j - 1));
        }
        if name.get_char(j - 1) == '.' {
            return j;
        }
        j -= 1;
    }
    proof {
        assert(dot_index(name@.take(j as int)) == -1);
    }
    0
}

/// The stem of `path`'s file name.
pub fn file_stem_of(path: &str) -> (r: String)
    ensures
        r@ == spec_file_stem(path@),
{
    let name = file_name_of(path);
    let dot = find_dot(name.as_str());
    if dot == 0 {
        name
    } else {
        proof {
            lemma_dot_index_bounds(name@);
        }
        String::from_str(name.as_str().substring_char(0, dot - 1))
    }
}

/// The extension of `path`'s file name, when it has one.
pub fn extension_of(path: &str) -> (r: Option<String>)
    ensures
        match r {
            Option::Some(e) => spec_extension(path@) == Option::Some(e@),
            Option::None => spec_extension(path@) is None,
        },
{
    let name = file_name_of(path);
    let n = name.as_str().unicode_len();
    let dot = find_dot(name.as_str());
    if dot == 0 {
        Option::None
    } else {
        proof {
            lemma_dot_index_bounds(name@);
        }
        Option::Some(String::from_str(name.as_str().substring_char(dot, n)))
    }
}

/// Whether `s`, lowered character by character, equals `lit`.
fn eq_lowered(s: &str, lit: &str) -> (r: bool)
    ensures
        r == (lower_seq(s@) == lit@),
{
    let n = s.unicode_len();
    let m = lit.unicode_len();
    if n != m {
        proof {
            assert(lower_seq(s@).len() == s@.len());
        }
        return false;
    }
    let mut i: usize = 0;
    while i < n
        invariant
            i <= n,
            n == s@.len(),
            n == lit@.len(),
            forall|k: int| 0 <= k < i ==> lower_char(s@[k]) == lit@[k],
        decreases n - i,
    {
        let c = s.get_char(i);
        let lc = if 'A' <= c && c <= 'Z' {
            ((c as u8) + 32) as char
        } else {
            c
        };
        proof {
            assert(lc == lower_char(s@[i as int]));
        }
        if lc != lit.get_char(i) {
            proof {
                assert(lower_seq(s@)[i as int] == lower_char(s@[i as int]));
            }
            return false;
        }
        i += 1;
    }
    proof {
        assert(lower_seq(s@) =~= lit@);
    }
    true
}

/// Whether `path` names a recognized image file, judged by its extension
/// alone, without regard to ASCII case.
pub fn is_image_file(path: &String) -> (r: bool)
    ensures
        r == is_image_path(path@),
{
    match extension_of(path.as_str()) {
        Option::Some(e) => {
            let s = e.as_str();
            eq_lowered(s, "jpg") || eq_lowered(s, "jpeg") || eq_lowered(s, "png") || eq_lowered(
                s,
                "bmp",
            ) || eq_lowered(s, "gif") || eq_lowered(s, "webp") || eq_lowered(s, "tiff")
                || eq_lowered(s, "tif")
        },
        Option::None => false,
    }
}

/// The digit character for `d`.
fn digit_str(d: usize) -> (r: &'static str)
    requires
        d < 10,
    ensures
        r@ =~= seq![digit_char(d as nat)],
{
    proof {
        reveal_strlit("0");
        reveal_strlit("1");
        reveal_strlit("2");
        reveal_strlit("3");
        reveal_strlit("4");
        reveal_strlit("5");
        reveal_strlit("6");
        reveal_strlit("7");
        reveal_strlit("8");
        reveal_strlit("9");
    }
    match d {
        0 => "0",
        1 => "1",
        2 => "2",
        3 => "3",
        4 => "4",
        5 => "5",
        6 => "6",
        7 => "7",
        8 => "8",
        _ => "9",
    }
}

/// The decimal numeral of `n`.
pub fn decimal_string(n: usize) -> (r: String)
    ensures
        r@ == spec_decimal(n as nat),
    decreases n,
{
    if n < 10 {
        String::from_str(digit_str(n))
    } else {
        let mut r = decimal_string(n / 10);
        r.append(digit_str(n % 10));
        proof {
            assert(r@ =~= spec_decimal(n as nat));
        }
        r
    }
}

/// The label for a frame without a path: `frame_` and the frame index.
pub fn frame_label(idx: usize) -> (r: String)
    ensures
        r@ == spec_frame_label(idx as nat),
{
    let digits = decimal_string(idx);
    let r = String::from_str("frame_").concat(digits.as_str());
    r
}

} // verus!

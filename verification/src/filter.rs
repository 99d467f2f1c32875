//! The file filter: a binary predicate over parsed files, built from two
//! independently configurable policies.
//!
//! The extension policy keeps a file only if its name ends,
//! case-insensitively, with one of the recognized archive extensions
//! (`.nsp`, `.nsz`, `.xci`, `.xcz`); an override admits every extension.
//! The identifier policy keeps a file only if its percent-encoded name
//! holds a bracketed sixteen-hex-digit token, `%5B` then sixteen hex
//! digits then `%5D`; an override skips the check.

use crate::index::ParsedFileInfo;
use vstd::prelude::*;
use vstd::string::StringSliceAdditionalSpecFns;
use vstd::utf8::encode_utf8;

verus! {

/// ASCII lowercasing of one byte.
pub open spec fn lower_byte(b: u8) -> u8 {
    if 0x41 <= b <= 0x5A {
        (b + 0x20) as u8
    } else {
        b
    }
}

fn lower(b: u8) -> (r: u8)
    ensures
        r == lower_byte(b),
{
    if 0x41 <= b && b <= 0x5A {
        b + 0x20
    } else {
        b
    }
}

/// The last four bytes of `s` are `.` followed by the three letters
/// `a b c` up to ASCII case.
pub open spec fn ext_is(s: Seq<u8>, a: u8, b: u8, c: u8) -> bool {
    let n = s.len() as int;
    &&& s[n - 4] == 0x2E
    &&& lower_byte(s[n - 3]) == a
    &&& lower_byte(s[n - 2]) == b
    &&& lower_byte(s[n - 1]) == c
}

/// `s` (the UTF-8 bytes of a file name) ends, case-insensitively, with a
/// recognized archive extension. Names shorter than the extension window
/// simply lack an extension; they never fault.
pub open spec fn has_archive_extension(s: Seq<u8>) -> bool {
    s.len() >= 4 && (ext_is(s, 0x6E, 0x73, 0x70) || ext_is(s, 0x6E, 0x73, 0x7A) || ext_is(
        s,
        0x78,
        0x63,
        0x69,
    ) || ext_is(s, 0x78, 0x63, 0x7A))
}

/// Whether the file name ends with a recognized archive extension.
pub fn name_has_archive_extension(name: &str) -> (r: bool)
    ensures
        r == has_archive_extension(encode_utf8(name@)),
{
    let b = name.as_bytes();
    let n = b.len();
    if n < 4 {
        return false;
    }
    if b[n - 4] != 0x2E {
        return false;
    }
    let e1 = lower(b[n - 3]);
    let e2 = lower(b[n - 2]);
    let e3 = lower(b[n - 1]);
    (e1 == 0x6E && e2 == 0x73 && (e3 == 0x70 || e3 == 0x7A)) || (e1 == 0x78 && e2 == 0x63 && (e3
        == 0x69 || e3 == 0x7A))
}

/// `b` is an ASCII hex digit, either case.
pub open spec fn is_hex_digit(b: u8) -> bool {
    (0x30 <= b <= 0x39) || (0x41 <= b <= 0x46) || (0x61 <= b <= 0x66)
}

fn hex_digit(b: u8) -> (r: bool)
    ensures
        r == is_hex_digit(b),
{
    (0x30 <= b && b <= 0x39) || (0x41 <= b && b <= 0x46) || (0x61 <= b && b <= 0x66)
}

/// A bracketed title-id token (`%5B`, sixteen hex digits, `%5D`) starts
/// at position `i` of `s`.
pub open spec fn token_at(s: Seq<u8>, i: int) -> bool {
    &&& s[i] == 0x25
    &&& s[i + 1] == 0x35
    &&& s[i + 2] == 0x42
    &&& (forall|j: int| i + 3 <= j < i + 19 ==> is_hex_digit(#[trigger] s[j]))
    &&& s[i + 19] == 0x25
    &&& s[i + 20] == 0x35
    &&& s[i + 21] == 0x44
}

/// `s` (the UTF-8 bytes of a percent-encoded name) holds a bracketed
/// title-id token somewhere.
pub open spec fn has_title_id_token(s: Seq<u8>) -> bool {
    exists|i: int| 0 <= i && i + 22 <= s.len() && #[trigger] token_at(s, i)
}

fn token_at_idx(b: &[u8], i: usize) -> (r: bool)
    requires
        i + 22 <= b@.len(),
    ensures
        r == token_at(b@, i as int),
{
    let n = b.len();
    if b[i] != 0x25 || b[i + 1] != 0x35 || b[i + 2] != 0x42 {
        return false;
    }
    if b[i + 19] != 0x25 || b[i + 20] != 0x35 || b[i + 21] != 0x44 {
        return false;
    }
    let mut j: usize = i + 3;
    while j < i + 19
        invariant
            i + 3 <= j <= i + 19,
            i + 22 <= n,
            n == b@.len(),
            forall|k: int| i + 3 <= k < j ==> is_hex_digit(#[trigger] b@[k]),
        decreases i + 19 - j,
    {
        if !hex_digit(b[j]) {
            return false;
        }
        j = j + 1;
    }
    true
}

/// Whether the percent-encoded name holds a bracketed title-id token.
pub fn encoded_has_title_id(encoded: &str) -> (r: bool)
    ensures
        r == has_title_id_token(encode_utf8(encoded@)),
{
    let b = encoded.as_bytes();
    let n = b.len();
    if n < 22 {
        return false;
    }
    let mut i: usize = 0;
    while i <= n - 22
        invariant
            22 <= n == b@.len(),
            b@ == encode_utf8(encoded@),
            0 <= i <= n - 21,
            forall|k: int| 0 <= k < i ==> !(k + 22 <= b@.len() && #[trigger] token_at(b@, k)),
        decreases n - i,
    {
        if token_at_idx(b, i) {
            proof {
                let s = encode_utf8(encoded@);
                assert(encoded.spec_bytes() == s);
                assert(b@ == s);
                assert(token_at(s, i as int));
                assert(has_title_id_token(s));
            }
            return true;
        }
        i = i + 1;
    }
    false
}

/// The filter predicate. `allow_non_nsw` overrides the extension policy;
/// `allow_missing_title_id` overrides the identifier policy. With both
/// overrides set, every file is kept.
pub open spec fn spec_keep(f: ParsedFileInfo, allow_non_nsw: bool, allow_missing_title_id:
    bool) -> bool {
    &&& (allow_non_nsw || has_archive_extension(encode_utf8(f.name@)))
    &&& (allow_missing_title_id || has_title_id_token(encode_utf8(f.name_encoded@)))
}

/// Applies the filter predicate to one file.
pub fn keep_file(f: &ParsedFileInfo, allow_non_nsw: bool, allow_missing_title_id: bool) -> (r:
    bool)
    ensures
        r == spec_keep(*f, allow_non_nsw, allow_missing_title_id),
{
    let ext_ok = allow_non_nsw || name_has_archive_extension(f.name.as_str());
    let id_ok = allow_missing_title_id || encoded_has_title_id(f.name_encoded.as_str());
    ext_ok && id_ok
}

/// An exact copy of a parsed file record.
fn copy_parsed(f: &ParsedFileInfo) -> (r: ParsedFileInfo)
    ensures
        r == *f,
{
    ParsedFileInfo {
        id: f.id.clone(),
        size: f.size.clone(),
        name: f.name.clone(),
        name_encoded: f.name_encoded.clone(),
        shared: f.shared,
    }
}

/// One step of filtering: extending the input by one element extends the
/// filtered output by that element exactly when it passes.
pub proof fn lemma_filter_take_step<A>(s: Seq<A>, p: spec_fn(A) -> bool, i: int)
    requires
        0 <= i < s.len(),
    ensures
        s.take(i + 1).filter(p) == if p(s[i]) {
            s.take(i).filter(p).push(s[i])
        } else {
            s.take(i).filter(p)
        },
{
    reveal(Seq::filter);
    assert(s.take(i + 1).drop_last() =~= s.take(i));
    assert(s.take(i + 1).last() == s[i]);
}

/// Filtering a sequence every element of which passes leaves it unchanged.
proof fn lemma_filter_all_pass<A>(s: Seq<A>, p: spec_fn(A) -> bool)
    requires
        forall|i: int| 0 <= i < s.len() ==> p(#[trigger] s[i]),
    ensures
        s.filter(p) == s,
    decreases s.len(),
{
    reveal(Seq::filter);
    if s.len() > 0 {
        lemma_filter_all_pass(s.drop_last(), p);
        assert(s.drop_last().push(s.last()) =~= s);
    }
}

/// Law: the filter is idempotent — applying it twice yields the same
/// result as applying it once.
pub proof fn lemma_filter_idempotent(
    files: Seq<ParsedFileInfo>,
    allow_non_nsw: bool,
    allow_missing_title_id: bool,
)
    ensures
        files.filter(
            |f: ParsedFileInfo| spec_keep(f, allow_non_nsw, allow_missing_title_id),
        ).filter(|f: ParsedFileInfo| spec_keep(f, allow_non_nsw, allow_missing_title_id))
            == files.filter(
            |f: ParsedFileInfo| spec_keep(f, allow_non_nsw, allow_missing_title_id),
        ),
{
    let p = |f: ParsedFileInfo| spec_keep(f, allow_non_nsw, allow_missing_title_id);
    let once = files.filter(p);
    assert forall|i: int| 0 <= i < once.len() implies p(#[trigger] once[i]) by {
        files.lemma_filter_pred(p, i);
    }
    lemma_filter_all_pass(once, p);
}

/// Filters a list of parsed files, keeping order.
pub fn filter_files(
    files: &Vec<ParsedFileInfo>,
    allow_non_nsw: bool,
    allow_missing_title_id: bool,
) -> (r: Vec<ParsedFileInfo>)
    ensures
        r@ == files@.filter(|f: ParsedFileInfo| spec_keep(f, allow_non_nsw, allow_missing_title_id)),
{
    let ghost p = |f: ParsedFileInfo| spec_keep(f, allow_non_nsw, allow_missing_title_id);
    let mut out: Vec<ParsedFileInfo> = Vec::new();
    let mut i: usize = 0;
    proof {
        reveal(Seq::filter);
    }
    while i < files.len()
        invariant
            0 <= i <= files@.len(),
            out@ == files@.take(i as int).filter(p),
            p == (|f: ParsedFileInfo| spec_keep(f, allow_non_nsw, allow_missing_title_id)),
        decreases files@.len() - i,
    {
        if keep_file(&files[i], allow_non_nsw, allow_missing_title_id) {
            out.push(copy_parsed(&files[i]));
        }
        proof {
            lemma_filter_take_step(files@, p, i as int);
        }
        i = i + 1;
    }
    proof {
        assert(files@.take(files@.len() as int) =~= files@);
    }
    out
}

} // verus!

//! The manifest's serialized form: a JSON object built byte by byte.
//!
//! The byte layout produced here is what the external reader parses, so it
//! is pinned exactly by `json_of`: an object member per set field, in a
//! fixed order, with unset fields omitted entirely.

use crate::decimal::dec_digits_of;
use crate::decimal::push_dec_u64;
use crate::index::FileEntry;
use crate::index::Index;
use vstd::prelude::*;
use vstd::utf8::encode_utf8;

verus! {

/// The lowercase hex digit for `n` (`n < 16`).
pub open spec fn hex_digit_lower(n: u8) -> u8 {
    if n < 10 {
        (0x30 + n) as u8
    } else {
        (0x57 + n) as u8
    }
}

fn hex_lower(n: u8) -> (r: u8)
    requires
        n < 16,
    ensures
        r == hex_digit_lower(n),
{
    if n < 10 {
        0x30 + n
    } else {
        0x57 + n
    }
}

/// How one byte of string content is written inside a JSON string:
/// quote and backslash are escaped, control bytes become `\u00XX`,
/// every other byte stands for itself.
pub open spec fn escape_byte(b: u8) -> Seq<u8> {
    if b == 0x22 {
        seq![0x5Cu8, 0x22u8]
    } else if b == 0x5C {
        seq![0x5Cu8, 0x5Cu8]
    } else if b < 0x20 {
        seq![0x5Cu8, 0x75u8, 0x30u8, 0x30u8, hex_digit_lower(b / 16), hex_digit_lower(b % 16)]
    } else {
        seq![b]
    }
}

/// The escaped form of a whole byte string.
pub open spec fn escaped(s: Seq<u8>) -> Seq<u8>
    decreases s.len(),
{
    if s.len() == 0 {
        Seq::empty()
    } else {
        escaped(s.drop_last()) + escape_byte(s.last())
    }
}

/// A JSON string literal: quotes around the escaped UTF-8 bytes.
pub open spec fn json_str(s: Seq<char>) -> Seq<u8> {
    seq![0x22u8] + escaped(encode_utf8(s)) + seq![0x22u8]
}

/// An object key followed by the member separator `:`.
pub open spec fn json_key(name: Seq<char>) -> Seq<u8> {
    json_str(name) + seq![0x3Au8]
}

/// `parts` joined with `,` between consecutive parts.
pub open spec fn joined(parts: Seq<Seq<u8>>) -> Seq<u8>
    decreases parts.len(),
{
    if parts.len() == 0 {
        Seq::empty()
    } else if parts.len() == 1 {
        parts[0]
    } else {
        joined(parts.drop_last()) + seq![0x2Cu8] + parts.last()
    }
}

/// A JSON array of strings.
pub open spec fn json_str_list(xs: Seq<Seq<char>>) -> Seq<u8> {
    seq![0x5Bu8] + joined(xs.map_values(|s: Seq<char>| json_str(s))) + seq![0x5Du8]
}

/// One manifest entry: `{"url":...,"size":N}`.
pub open spec fn json_file_entry(e: FileEntry) -> Seq<u8> {
    seq![0x7Bu8] + json_key("url"@) + json_str(e.url@) + seq![0x2Cu8] + json_key("size"@)
        + dec_digits_of(e.size as nat) + seq![0x7Du8]
}

/// The JSON array holding every manifest entry.
pub open spec fn json_file_list(es: Seq<FileEntry>) -> Seq<u8> {
    seq![0x5Bu8] + joined(es.map_values(|e: FileEntry| json_file_entry(e))) + seq![0x5Du8]
}

/// The rendered members contributed by an optional string field: one
/// member when set, none when unset.
pub open spec fn part_str(key: Seq<char>, v: Option<String>) -> Seq<Seq<u8>> {
    match v {
        Option::Some(s) => seq![json_key(key) + json_str(s@)],
        Option::None => Seq::empty(),
    }
}

/// The rendered members contributed by an optional list-of-strings field.
pub open spec fn part_str_list(key: Seq<char>, v: Option<Vec<String>>) -> Seq<Seq<u8>> {
    match v {
        Option::Some(xs) => seq![json_key(key) + json_str_list(xs.deep_view())],
        Option::None => Seq::empty(),
    }
}

/// The rendered members contributed by the file list.
pub open spec fn part_files(v: Option<Vec<FileEntry>>) -> Seq<Seq<u8>> {
    match v {
        Option::Some(es) => seq![json_key("files"@) + json_file_list(es@)],
        Option::None => Seq::empty(),
    }
}

/// The rendered members contributed by the minimum reader version. The
/// value is decimal text and is emitted verbatim, as a bare JSON number.
pub open spec fn part_version(v: Option<String>) -> Seq<Seq<u8>> {
    match v {
        Option::Some(s) => seq![json_key("version"@) + encode_utf8(s@)],
        Option::None => Seq::empty(),
    }
}

/// Every rendered object member of the manifest, in serialization order.
/// A field contributes a member exactly when it is set.
pub open spec fn manifest_parts(m: Index) -> Seq<Seq<u8>> {
    part_files(m.files) + part_str_list("directories"@, m.directories) + part_str(
        "success"@,
        m.success,
    ) + part_str("referrer"@, m.referrer) + part_str("googleApiKey"@, m.google_api_key)
        + part_str_list("oneFichierKeys"@, m.one_fichier_keys) + part_str_list(
        "headers"@,
        m.headers,
    ) + part_version(m.version) + part_str_list("themeBlackList"@, m.theme_blacklist)
        + part_str_list("themeWhiteList"@, m.theme_whitelist) + part_str(
        "themeError"@,
        m.theme_error,
    )
}

/// The serialized manifest: one JSON object.
pub open spec fn json_of(m: Index) -> Seq<u8> {
    seq![0x7Bu8] + joined(manifest_parts(m)) + seq![0x7Du8]
}

/// How many fields of `m` are set.
pub open spec fn set_field_count(m: Index) -> int {
    (if m.files is Some {
        1int
    } else {
        0int
    }) + (if m.directories is Some {
        1int
    } else {
        0int
    }) + (if m.success is Some {
        1int
    } else {
        0int
    }) + (if m.referrer is Some {
        1int
    } else {
        0int
    }) + (if m.google_api_key is Some {
        1int
    } else {
        0int
    }) + (if m.one_fichier_keys is Some {
        1int
    } else {
        0int
    }) + (if m.headers is Some {
        1int
    } else {
        0int
    }) + (if m.version is Some {
        1int
    } else {
        0int
    }) + (if m.theme_blacklist is Some {
        1int
    } else {
        0int
    }) + (if m.theme_whitelist is Some {
        1int
    } else {
        0int
    }) + (if m.theme_error is Some {
        1int
    } else {
        0int
    })
}

/// Law: the serialized object holds exactly one member per set field.
/// A field absent from the configuration contributes nothing at all to
/// the output — no member, no null, no empty value.
pub proof fn lemma_field_presence(m: Index)
    ensures
        manifest_parts(m).len() == set_field_count(m),
{
}

/// Law: a manifest with only `files` set serializes to an object holding
/// exactly that one member.
pub proof fn lemma_only_files(m: Index, es: Vec<FileEntry>)
    requires
        m.files == Option::Some(es),
        m.directories is None,
        m.success is None,
        m.referrer is None,
        m.google_api_key is None,
        m.one_fichier_keys is None,
        m.headers is None,
        m.version is None,
        m.theme_blacklist is None,
        m.theme_whitelist is None,
        m.theme_error is None,
    ensures
        json_of(m) == seq![0x7Bu8] + json_key("files"@) + json_file_list(es@) + seq![0x7Du8],
{
    assert(manifest_parts(m) =~= seq![json_key("files"@) + json_file_list(es@)]);
}

/// Appends the escaped form of `s` to `out`.
fn escape_push(out: &mut Vec<u8>, s: &[u8])
    ensures
        final(out)@ == old(out)@ + escaped(s@),
{
    let mut i: usize = 0;
    while i < s.len()
        invariant
            0 <= i <= s@.len(),
            out@ == old(out)@ + escaped(s@.take(i as int)),
        decreases s@.len() - i,
    {
        let b = s[i];
        proof {
            assert(s@.take(i as int + 1).drop_last() =~= s@.take(i as int));
        }
        if b == 0x22 {
            out.push(0x5C);
            out.push(0x22);
        } else if b == 0x5C {
            out.push(0x5C);
            out.push(0x5C);
        } else if b < 0x20 {
            out.push(0x5C);
            out.push(0x75);
            out.push(0x30);
            out.push(0x30);
            out.push(hex_lower(b / 16));
            out.push(hex_lower(b % 16));
        } else {
            out.push(b);
        }
        proof {
            assert(out@ =~= old(out)@ + escaped(s@.take(i as int + 1)));
        }
        i = i + 1;
    }
    proof {
        assert(s@.take(s@.len() as int) =~= s@);
    }
}

/// Appends a JSON string literal for `s` to `out`.
fn push_json_str(out: &mut Vec<u8>, s: &str)
    ensures
        final(out)@ == old(out)@ + json_str(s@),
{
    out.push(0x22);
    escape_push(out, s.as_bytes());
    out.push(0x22);
    proof {
        assert(out@ =~= old(out)@ + json_str(s@));
    }
}

/// Appends an object key and the member separator to `out`.
fn push_key(out: &mut Vec<u8>, name: &str)
    ensures
        final(out)@ == old(out)@ + json_key(name@),
{
    push_json_str(out, name);
    out.push(0x3A);
    proof {
        assert(out@ =~= old(out)@ + json_key(name@));
    }
}

/// Appends a JSON array of strings to `out`.
fn push_str_list(out: &mut Vec<u8>, xs: &Vec<String>)
    ensures
        final(out)@ == old(out)@ + json_str_list(xs.deep_view()),
{
    let ghost parts = xs.deep_view().map_values(|s: Seq<char>| json_str(s));
    out.push(0x5B);
    let mut i: usize = 0;
    while i < xs.len()
        invariant
            0 <= i <= xs@.len(),
            parts == xs.deep_view().map_values(|s: Seq<char>| json_str(s)),
            parts.len() == xs@.len(),
            xs.deep_view().len() == xs@.len(),
            out@ == old(out)@ + seq![0x5Bu8] + joined(parts.take(i as int)),
        decreases xs@.len() - i,
    {
        if i > 0 {
            out.push(0x2C);
        }
        push_json_str(out, xs[i].as_str());
        proof {
            assert(xs.deep_view()[i as int] == xs@[i as int]@);
            assert(parts.take(i as int + 1).drop_last() =~= parts.take(i as int));
            assert(parts.take(i as int + 1).last() == json_str(xs@[i as int]@));
            assert(out@ =~= old(out)@ + seq![0x5Bu8] + joined(parts.take(i as int + 1)));
        }
        i = i + 1;
    }
    out.push(0x5D);
    proof {
        assert(parts.take(xs@.len() as int) =~= parts);
        assert(out@ =~= old(out)@ + json_str_list(xs.deep_view()));
    }
}

/// Appends one manifest entry to `out`.
fn push_file_entry(out: &mut Vec<u8>, e: &FileEntry)
    ensures
        final(out)@ == old(out)@ + json_file_entry(*e),
{
    out.push(0x7B);
    push_key(out, "url");
    push_json_str(out, e.url.as_str());
    out.push(0x2C);
    push_key(out, "size");
    push_dec_u64(out, e.size);
    out.push(0x7D);
    proof {
        assert(out@ =~= old(out)@ + json_file_entry(*e));
    }
}

/// Appends the JSON array of manifest entries to `out`.
fn push_file_list(out: &mut Vec<u8>, es: &Vec<FileEntry>)
    ensures
        final(out)@ == old(out)@ + json_file_list(es@),
{
    let ghost parts = es@.map_values(|e: FileEntry| json_file_entry(e));
    out.push(0x5B);
    let mut i: usize = 0;
    while i < es.len()
        invariant
            0 <= i <= es@.len(),
            parts == es@.map_values(|e: FileEntry| json_file_entry(e)),
            parts.len() == es@.len(),
            out@ == old(out)@ + seq![0x5Bu8] + joined(parts.take(i as int)),
        decreases es@.len() - i,
    {
        if i > 0 {
            out.push(0x2C);
        }
        push_file_entry(out, &es[i]);
        proof {
            assert(parts.take(i as int + 1).drop_last() =~= parts.take(i as int));
            assert(parts.take(i as int + 1).last() == json_file_entry(es@[i as int]));
            assert(out@ =~= old(out)@ + seq![0x5Bu8] + joined(parts.take(i as int + 1)));
        }
        i = i + 1;
    }
    out.push(0x5D);
    proof {
        assert(parts.take(es@.len() as int) =~= parts);
        assert(out@ =~= old(out)@ + json_file_list(es@));
    }
}

/// Builds the rendered member for one optional string field.
fn render_str_member(key: &str, s: &String) -> (p: Vec<u8>)
    ensures
        p@ == json_key(key@) + json_str(s@),
{
    let mut p: Vec<u8> = Vec::new();
    push_key(&mut p, key);
    push_json_str(&mut p, s.as_str());
    p
}

/// Builds the rendered member for one optional list-of-strings field.
fn render_list_member(key: &str, xs: &Vec<String>) -> (p: Vec<u8>)
    ensures
        p@ == json_key(key@) + json_str_list(xs.deep_view()),
{
    let mut p: Vec<u8> = Vec::new();
    push_key(&mut p, key);
    push_str_list(&mut p, xs);
    p
}

/// The members contributed by the file list: one when set, none when not.
fn member_files(v: &Option<Vec<FileEntry>>) -> (ps: Vec<Vec<u8>>)
    ensures
        ps@.len() == part_files(*v).len(),
        forall|j: int| 0 <= j < ps@.len() ==> ps@[j]@ == part_files(*v)[j],
{
    match v {
        Option::Some(es) => {
            let mut p: Vec<u8> = Vec::new();
            push_key(&mut p, "files");
            push_file_list(&mut p, es);
            let mut ps: Vec<Vec<u8>> = Vec::new();
            ps.push(p);
            ps
        },
        Option::None => Vec::new(),
    }
}

/// The members contributed by one optional string field.
fn member_str(key: &str, v: &Option<String>) -> (ps: Vec<Vec<u8>>)
    ensures
        ps@.len() == part_str(key@, *v).len(),
        forall|j: int| 0 <= j < ps@.len() ==> ps@[j]@ == part_str(key@, *v)[j],
{
    match v {
        Option::Some(s) => {
            let p = render_str_member(key, s);
            let mut ps: Vec<Vec<u8>> = Vec::new();
            ps.push(p);
            ps
        },
        Option::None => Vec::new(),
    }
}

/// The members contributed by one optional list-of-strings field.
fn member_list(key: &str, v: &Option<Vec<String>>) -> (ps: Vec<Vec<u8>>)
    ensures
        ps@.len() == part_str_list(key@, *v).len(),
        forall|j: int| 0 <= j < ps@.len() ==> ps@[j]@ == part_str_list(key@, *v)[j],
{
    match v {
        Option::Some(xs) => {
            let p = render_list_member(key, xs);
            let mut ps: Vec<Vec<u8>> = Vec::new();
            ps.push(p);
            ps
        },
        Option::None => Vec::new(),
    }
}

/// The members contributed by the minimum reader version; its decimal
/// text is emitted verbatim, as a bare JSON number.
fn member_version(v: &Option<String>) -> (ps: Vec<Vec<u8>>)
    ensures
        ps@.len() == part_version(*v).len(),
        forall|j: int| 0 <= j < ps@.len() ==> ps@[j]@ == part_version(*v)[j],
{
    match v {
        Option::Some(s) => {
            let mut p: Vec<u8> = Vec::new();
            push_key(&mut p, "version");
            p.extend_from_slice(s.as_str().as_bytes());
            let mut ps: Vec<Vec<u8>> = Vec::new();
            ps.push(p);
            ps
        },
        Option::None => Vec::new(),
    }
}

/// Serializes the manifest. The output is exactly `json_of(*m)`: the
/// fixed-order JSON object whose members are the set fields and only
/// those.
#[verifier::rlimit(100)]
pub fn serialize_index(m: &Index) -> (r: Vec<u8>)
    ensures
        r@ == json_of(*m),
{
    let mut parts: Vec<Vec<u8>> = Vec::new();
    let ghost mut pseq: Seq<Seq<u8>> = Seq::empty();

    let mut ps = member_files(&m.files);
    parts.append(&mut ps);
    proof {
        pseq = pseq + part_files(m.files);
        assert(parts@.len() == pseq.len());
        assert(forall|j: int| 0 <= j < pseq.len() ==> parts@[j]@ == pseq[j]);
    }
    let mut ps = member_list("directories", &m.directories);
    parts.append(&mut ps);
    proof {
        pseq = pseq + part_str_list("directories"@, m.directories);
        assert(parts@.len() == pseq.len());
        assert(forall|j: int| 0 <= j < pseq.len() ==> parts@[j]@ == pseq[j]);
    }
    let mut ps = member_str("success", &m.success);
    parts.append(&mut ps);
    proof {
        pseq = pseq + part_str("success"@, m.success);
        assert(parts@.len() == pseq.len());
        assert(forall|j: int| 0 <= j < pseq.len() ==> parts@[j]@ == pseq[j]);
    }
    let mut ps = member_str("referrer", &m.referrer);
    parts.append(&mut ps);
    proof {
        pseq = pseq + part_str("referrer"@, m.referrer);
        assert(parts@.len() == pseq.len());
        assert(forall|j: int| 0 <= j < pseq.len() ==> parts@[j]@ == pseq[j]);
    }
    let mut ps = member_str("googleApiKey", &m.google_api_key);
    parts.append(&mut ps);
    proof {
        pseq = pseq + part_str("googleApiKey"@, m.google_api_key);
        assert(parts@.len() == pseq.len());
        assert(forall|j: int| 0 <= j < pseq.len() ==> parts@[j]@ == pseq[j]);
    }
    let mut ps = member_list("oneFichierKeys", &m.one_fichier_keys);
    parts.append(&mut ps);
    proof {
        pseq = pseq + part_str_list("oneFichierKeys"@, m.one_fichier_keys);
        assert(parts@.len() == pseq.len());
        assert(forall|j: int| 0 <= j < pseq.len() ==> parts@[j]@ == pseq[j]);
    }
    let mut ps = member_list("headers", &m.headers);
    parts.append(&mut ps);
    proof {
        pseq = pseq + part_str_list("headers"@, m.headers);
        assert(parts@.len() == pseq.len());
        assert(forall|j: int| 0 <= j < pseq.len() ==> parts@[j]@ == pseq[j]);
    }
    let mut ps = member_version(&m.version);
    parts.append(&mut ps);
    proof {
        pseq = pseq + part_version(m.version);
        assert(parts@.len() == pseq.len());
        assert(forall|j: int| 0 <= j < pseq.len() ==> parts@[j]@ == pseq[j]);
    }
    let mut ps = member_list("themeBlackList", &m.theme_blacklist);
    parts.append(&mut ps);
    proof {
        pseq = pseq + part_str_list("themeBlackList"@, m.theme_blacklist);
        assert(parts@.len() == pseq.len());
        assert(forall|j: int| 0 <= j < pseq.len() ==> parts@[j]@ == pseq[j]);
    }
    let mut ps = member_list("themeWhiteList", &m.theme_whitelist);
    parts.append(&mut ps);
    proof {
        pseq = pseq + part_str_list("themeWhiteList"@, m.theme_whitelist);
        assert(parts@.len() == pseq.len());
        assert(forall|j: int| 0 <= j < pseq.len() ==> parts@[j]@ == pseq[j]);
    }
    let mut ps = member_str("themeError", &m.theme_error);
    parts.append(&mut ps);
    proof {
        pseq = pseq + part_str("themeError"@, m.theme_error);
        assert(parts@.len() == pseq.len());
        assert(forall|j: int| 0 <= j < pseq.len() ==> parts@[j]@ == pseq[j]);
        assert(pseq == manifest_parts(*m));
    }

    let mut out: Vec<u8> = Vec::new();
    out.push(0x7B);
    let mut i: usize = 0;
    while i < parts.len()
        invariant
            0 <= i <= parts@.len(),
            pseq.len() == parts@.len(),
            pseq == manifest_parts(*m),
            forall|j: int| 0 <= j < pseq.len() ==> parts@[j]@ == pseq[j],
            out@ == seq![0x7Bu8] + joined(pseq.take(i as int)),
        decreases parts@.len() - i,
    {
        if i > 0 {
            out.push(0x2C);
        }
        out.extend_from_slice(parts[i].as_slice());
        proof {
            assert(pseq.take(i as int + 1).drop_last() =~= pseq.take(i as int));
            assert(pseq.take(i as int + 1).last() == parts@[i as int]@);
            assert(out@ =~= seq![0x7Bu8] + joined(pseq.take(i as int + 1)));
        }
        i = i + 1;
    }
    out.push(0x7D);
    proof {
        assert(pseq.take(parts@.len() as int) =~= pseq);
        assert(out@ =~= json_of(*m));
    }
    out
}

} // verus!

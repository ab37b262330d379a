//! Local path handling: joining, dropped `file://` URIs, unique download names.
use vstd::prelude::*;
use vstd::utf8::{decode_utf8, valid_utf8};
use crate::text::{chars_eq, chars_of, concat_chars, decimal, find_char, has_prefix, is_prefix, string_of, sub_chars, u64_to_decimal};

verus! {

/// What `Path::join` gives for `base` and `name`, as a string.
pub uninterp spec fn spec_path_join(base: Seq<char>, name: Seq<char>) -> Seq<char>;

/// What `Path::file_stem` gives for `path`, when it is valid text.
pub uninterp spec fn spec_file_stem(path: Seq<char>) -> Option<Seq<char>>;

/// What `Path::extension` gives for `path`, when it is valid text.
pub uninterp spec fn spec_extension(path: Seq<char>) -> Option<Seq<char>>;

/// What `Path::parent` gives for `path`.
pub uninterp spec fn spec_parent(path: Seq<char>) -> Option<Seq<char>>;

/// `base` joined with `name` by `std::path::Path::join`.
///
/// Trusted: calls `Path::new(base).join(name)` and reads the result back as
/// a string. The contract only names the result as a function of the two
/// arguments; std's rules for separators, fixed by the platform the library
/// is built for, are not restated.
#[verifier::external_body]
pub(crate) fn path_join(base: &str, name: &str) -> (r: String)
    ensures
        r@ == spec_path_join(base@, name@),
{
    std::path::Path::new(base).join(name).to_string_lossy().into_owned()
}

/// The file name of `path` without its extension.
///
/// Trusted: calls `Path::file_stem` and keeps the result when it is valid
/// UTF-8 (it always is for a path made from a `str`). The contract names the
/// result as a function of `path`; std's splitting rules, fixed by the
/// platform the library is built for, are not restated.
#[verifier::external_body]
pub(crate) fn file_stem(path: &str) -> (r: Option<String>)
    ensures
        r matches Some(s) ==> spec_file_stem(path@) == Some(s@),
        r is None ==> spec_file_stem(path@) is None,
{
    std::path::Path::new(path).file_stem().and_then(|s| s.to_str()).map(|s| s.to_string())
}

/// The extension of the file name of `path`.
///
/// Trusted: calls `Path::extension` and keeps the result when it is valid
/// UTF-8. The contract names the result as a function of `path`; std's
/// splitting rules, fixed by the platform the library is built for, are not
/// restated.
#[verifier::external_body]
pub(crate) fn extension(path: &str) -> (r: Option<String>)
    ensures
        r matches Some(s) ==> spec_extension(path@) == Some(s@),
        r is None ==> spec_extension(path@) is None,
{
    std::path::Path::new(path).extension().and_then(|s| s.to_str()).map(|s| s.to_string())
}

/// The directory that holds `path`.
///
/// Trusted: calls `Path::parent` and reads the result back as a string. The
/// contract names the result as a function of `path`; std's splitting
/// rules, fixed by the platform the library is built for, are not restated.
#[verifier::external_body]
pub(crate) fn parent(path: &str) -> (r: Option<String>)
    ensures
        r matches Some(s) ==> spec_parent(path@) == Some(s@),
        r is None ==> spec_parent(path@) is None,
{
    std::path::Path::new(path).parent().map(|p| p.to_string_lossy().into_owned())
}

/// The texts of a list of strings.
pub open spec fn texts(v: Seq<String>) -> Seq<Seq<char>> {
    v.map_values(|s: String| s@)
}

/// The `i`-th alternative name for `path`: `stem (i).ext` (or `stem (i)`)
/// next to it, where a missing stem reads `file` and a missing parent `.`.
pub open spec fn spec_candidate(path: Seq<char>, i: nat) -> Seq<char> {
    let stem = match spec_file_stem(path) {
        Some(s) => s,
        None => "file"@,
    };
    let base = stem + " ("@ + decimal(i) + ")"@;
    let name = match spec_extension(path) {
        Some(e) => base + "."@ + e,
        None => base,
    };
    let dir = match spec_parent(path) {
        Some(p) => p,
        None => "."@,
    };
    spec_path_join(dir, name)
}

/// A path is free when no job uses it and nothing is on disk there.
pub open spec fn is_free(p: Seq<char>, taken: Seq<String>, on_disk: Seq<String>) -> bool {
    !has_path(taken, p) && !has_path(on_disk, p)
}

/// Whether one of `v` names the same path as `p`.
pub open spec fn has_path(v: Seq<String>, p: Seq<char>) -> bool {
    exists|i: int| 0 <= i < v.len() && spec_same_path(v[i]@, p)
}

/// What `Path::new(a) == Path::new(b)` gives.
pub uninterp spec fn spec_same_path(a: Seq<char>, b: Seq<char>) -> bool;

/// Whether `a` and `b` name the same path.
///
/// Trusted: compares `Path::new(a) == Path::new(b)`, which std defines as
/// comparing the paths' components (so `a//b` and `a/b` are the same path).
/// The contract names the result as a function of the two texts and states
/// that equal texts name the same path; std's component rules, fixed by the
/// platform the library is built for, are not restated.
#[verifier::external_body]
pub(crate) fn same_path(a: &str, b: &str) -> (r: bool)
    ensures
        r == spec_same_path(a@, b@),
        a@ == b@ ==> r,
{
    std::path::Path::new(a) == std::path::Path::new(b)
}

/// Whether one of `v` names the same path as `p`.
pub fn contains_path(v: &Vec<String>, p: &str) -> (r: bool)
    ensures
        r == has_path(v@, p@),
{
    let mut i: usize = 0;
    while i < v.len()
        invariant
            i <= v.len(),
            forall|j: int| 0 <= j < i ==> !spec_same_path(v@[j]@, p@),
        decreases v.len() - i,
    {
        if same_path(v[i].as_str(), p) {
            return true;
        }
        i = i + 1;
    }
    false
}

/// The first free alternative name from the `i`-th on, or `path` itself
/// when all of them up to the 999th are in use.
pub open spec fn first_free(path: Seq<char>, taken: Seq<String>, on_disk: Seq<String>, i: nat) -> Seq<char>
    decreases 1000 - i,
{
    if i >= 1000 {
        path
    } else if is_free(spec_candidate(path, i), taken, on_disk) {
        spec_candidate(path, i)
    } else {
        first_free(path, taken, on_disk, i + 1)
    }
}

/// Where a download to `path` lands: `path` itself when free, else the first
/// free `name (n).ext` with `n` in `1..1000`, else `path` after all.
pub open spec fn spec_unique_dest(path: Seq<char>, taken: Seq<String>, on_disk: Seq<String>) -> Seq<char> {
    if is_free(path, taken, on_disk) {
        path
    } else {
        first_free(path, taken, on_disk, 1)
    }
}

/// The `i`-th alternative name for `path`.
pub fn candidate(path: &str, i: u64) -> (r: String)
    ensures
        r@ == spec_candidate(path@, i as nat),
{
    let stem = match file_stem(path) {
        Some(s) => chars_of(s.as_str()),
        None => chars_of("file"),
    };
    let base = concat_chars(
        &concat_chars(&concat_chars(&stem, &chars_of(" (")), &u64_to_decimal(i)),
        &chars_of(")"),
    );
    let name = match extension(path) {
        Some(e) => concat_chars(&concat_chars(&base, &chars_of(".")), &chars_of(e.as_str())),
        None => base,
    };
    let dir = match parent(path) {
        Some(p) => p,
        None => string_of(&chars_of(".")),
    };
    let name_s = string_of(&name);
    path_join(dir.as_str(), name_s.as_str())
}

/// Whether no job in `taken` and no file in `on_disk` uses `p`.
pub fn is_free_path(p: &str, taken: &Vec<String>, on_disk: &Vec<String>) -> (r: bool)
    ensures
        r == is_free(p@, taken@, on_disk@),
{
    !contains_path(taken, p) && !contains_path(on_disk, p)
}

/// A destination for a download to `path` that no job in `taken` and no
/// file in `on_disk` already uses.
pub fn unique_dest_among(path: &str, taken: &Vec<String>, on_disk: &Vec<String>) -> (r: String)
    ensures
        r@ == spec_unique_dest(path@, taken@, on_disk@),
{
    if is_free_path(path, taken, on_disk) {
        return path.to_owned();
    }
    let mut i: u64 = 1;
    while i < 1000
        invariant
            1 <= i <= 1000,
            !is_free(path@, taken@, on_disk@),
            first_free(path@, taken@, on_disk@, 1) == first_free(path@, taken@, on_disk@, i as nat),
        decreases 1000 - i,
    {
        let c = candidate(path, i);
        if is_free_path(c.as_str(), taken, on_disk) {
            return c;
        }
        i = i + 1;
    }
    path.to_owned()
}

/// Where a download to `path` lands when no job is queued and `on_disk`
/// lists the files that already exist.
pub fn unique_dest(path: &str, on_disk: &Vec<String>) -> (r: String)
    ensures
        r@ == spec_unique_dest(path@, Seq::empty(), on_disk@),
{
    let none: Vec<String> = Vec::new();
    unique_dest_among(path, &none, on_disk)
}

/// A unique destination is always free unless every alternative is taken.
pub proof fn lemma_unique_dest_free(path: Seq<char>, taken: Seq<String>, on_disk: Seq<String>)
    ensures
        spec_unique_dest(path, taken, on_disk) == path || is_free(spec_unique_dest(path, taken, on_disk), taken, on_disk),
{
    lemma_first_free(path, taken, on_disk, 1);
}

/// A download destination never overwrites what it need not: a free path
/// is kept; otherwise the destination is the first free `name (n).ext` with
/// `n` in `1..1000`, every earlier one being in use; and it falls back to
/// `path` only when all of `1..1000` are in use.
pub proof fn lemma_unique_dest_first_free(path: Seq<char>, taken: Seq<String>, on_disk: Seq<String>)
    ensures
        is_free(path, taken, on_disk) ==> spec_unique_dest(path, taken, on_disk) == path,
        !is_free(path, taken, on_disk) && (exists|n: nat| 1 <= n < 1000 && is_free(#[trigger] spec_candidate(path, n), taken, on_disk))
            ==> exists|m: nat|
            1 <= m < 1000 && spec_unique_dest(path, taken, on_disk) == #[trigger] spec_candidate(path, m) && is_free(
                spec_candidate(path, m),
                taken,
                on_disk,
            ) && forall|k: nat| 1 <= k < m ==> !is_free(#[trigger] spec_candidate(path, k), taken, on_disk),
        !is_free(path, taken, on_disk) && spec_unique_dest(path, taken, on_disk) == path ==> forall|k: nat|
            1 <= k < 1000 ==> !is_free(#[trigger] spec_candidate(path, k), taken, on_disk),
{
    if !is_free(path, taken, on_disk) {
        lemma_first_free_scan(path, taken, on_disk, 1);
    }
}

/// Scanning from the `i`-th alternative on, when the ones before are all in
/// use: either some later one is free and the scan stops at the first such,
/// or none is and the scan gives `path`.
proof fn lemma_first_free_scan(path: Seq<char>, taken: Seq<String>, on_disk: Seq<String>, i: nat)
    requires
        1 <= i <= 1000,
        !is_free(path, taken, on_disk),
        forall|k: nat| 1 <= k < i ==> !is_free(#[trigger] spec_candidate(path, k), taken, on_disk),
    ensures
        (exists|n: nat| 1 <= n < 1000 && is_free(#[trigger] spec_candidate(path, n), taken, on_disk)) ==> exists|m: nat|
            1 <= m < 1000 && first_free(path, taken, on_disk, i) == #[trigger] spec_candidate(path, m) && is_free(
                spec_candidate(path, m),
                taken,
                on_disk,
            ) && forall|k: nat| 1 <= k < m ==> !is_free(#[trigger] spec_candidate(path, k), taken, on_disk),
        first_free(path, taken, on_disk, i) == path ==> forall|k: nat|
            1 <= k < 1000 ==> !is_free(#[trigger] spec_candidate(path, k), taken, on_disk),
    decreases 1000 - i,
{
    if i < 1000 {
        if is_free(spec_candidate(path, i), taken, on_disk) {
            assert(first_free(path, taken, on_disk, i) == spec_candidate(path, i));
            assert(first_free(path, taken, on_disk, i) != path);
        } else {
            assert forall|k: nat| 1 <= k < i + 1 implies !is_free(#[trigger] spec_candidate(path, k), taken, on_disk) by {
                if k < i {
                } else {
                    assert(k == i);
                }
            }
            lemma_first_free_scan(path, taken, on_disk, i + 1);
        }
    } else {
        assert(first_free(path, taken, on_disk, i) == path);
        assert forall|n: nat| 1 <= n < 1000 implies !is_free(#[trigger] spec_candidate(path, n), taken, on_disk) by {
        }
    }
}

proof fn lemma_first_free(path: Seq<char>, taken: Seq<String>, on_disk: Seq<String>, i: nat)
    ensures
        first_free(path, taken, on_disk, i) == path || is_free(first_free(path, taken, on_disk, i), taken, on_disk),
    decreases 1000 - i,
{
    if i < 1000 && !is_free(spec_candidate(path, i), taken, on_disk) {
        lemma_first_free(path, taken, on_disk, i + 1);
    }
}


/// The value of an ASCII hex digit.
pub open spec fn spec_from_hex(b: u8) -> Option<u8> {
    if 48 <= b && b <= 57 {
        Some((b - 48) as u8)
    } else if 97 <= b && b <= 102 {
        Some((b - 97 + 10) as u8)
    } else if 65 <= b && b <= 70 {
        Some((b - 65 + 10) as u8)
    } else {
        None
    }
}

/// The value of the hex digit `b` (`0-9`, `a-f`, `A-F`).
pub fn from_hex(b: u8) -> (r: Option<u8>)
    ensures
        r == spec_from_hex(b),
{
    if b >= 48 && b <= 57 {
        Some(b - 48)
    } else if b >= 97 && b <= 102 {
        Some(b - 97 + 10)
    } else if b >= 65 && b <= 70 {
        Some(b - 65 + 10)
    } else {
        None
    }
}

/// Percent-decoding of bytes: `%` followed by two hex digits (with at least
/// one more byte after the `%` than the two digits need to be read) stands
/// for the byte they spell; every other byte stands for itself.
pub open spec fn spec_percent_decode_bytes(b: Seq<u8>) -> Seq<u8>
    decreases b.len(),
{
    if b.len() == 0 {
        Seq::empty()
    } else if b[0] == 37 && 2 < b.len() && spec_from_hex(b[1]) is Some && spec_from_hex(b[2]) is Some {
        seq![(spec_from_hex(b[1]).unwrap() * 16 + spec_from_hex(b[2]).unwrap()) as u8] + spec_percent_decode_bytes(b.skip(3))
    } else {
        seq![b[0]] + spec_percent_decode_bytes(b.skip(1))
    }
}

/// What `String::from_utf8_lossy` makes of `b`.
pub uninterp spec fn spec_utf8_lossy(b: Seq<u8>) -> Seq<char>;

/// The text of `b`, with invalid UTF-8 replaced.
///
/// Trusted: calls `String::from_utf8_lossy`. The contract names the result
/// as a function of the bytes and states the documented case: valid UTF-8
/// comes back as the characters it encodes. How invalid sequences are
/// replaced is not restated.
#[verifier::external_body]
pub(crate) fn utf8_lossy(b: &[u8]) -> (r: String)
    ensures
        r@ == spec_utf8_lossy(b@),
        valid_utf8(b@) ==> r@ == decode_utf8(b@),
{
    String::from_utf8_lossy(b).into_owned()
}

/// `%XX` escapes in `s` decoded, then read back as UTF-8 (lossily).
pub open spec fn spec_percent_decode(s: &str) -> Seq<char> {
    spec_percent_decode_of(s@)
}

/// Decodes the `%XX` escapes of a `file://` URI.
pub fn percent_decode(s: &str) -> (r: String)
    ensures
        r@ == spec_percent_decode(s),
{
    let bytes = s.as_bytes();
    let mut out: Vec<u8> = Vec::new();
    let mut i: usize = 0;
    assert(bytes@.skip(0) =~= bytes@);
    assert(out@ + spec_percent_decode_bytes(bytes@) =~= spec_percent_decode_bytes(bytes@));
    while i < bytes.len()
        invariant
            i <= bytes@.len(),
            spec_percent_decode_bytes(bytes@) == out@ + spec_percent_decode_bytes(bytes@.skip(i as int)),
        decreases bytes@.len() - i,
    {
        let ghost rest = bytes@.skip(i as int);
        if bytes[i] == 37u8 && bytes.len() - i > 2 {
            let h = from_hex(bytes[i + 1]);
            let l = from_hex(bytes[i + 2]);
            if let (Some(h), Some(l)) = (h, l) {
                assert(rest[0] == 37 && rest[1] == bytes@[i + 1] && rest[2] == bytes@[i + 2]);
                assert(rest.skip(3) == bytes@.skip(i + 3));
                let v = h * 16 + l;
                out.push(v);
                i = i + 3;
                assert(out@ == out@.drop_last().push(v));
                assert(seq![v] + spec_percent_decode_bytes(bytes@.skip(i as int)) == spec_percent_decode_bytes(rest));
                assert(spec_percent_decode_bytes(bytes@) =~= out@ + spec_percent_decode_bytes(bytes@.skip(i as int)));
                continue;
            }
        }
        assert(rest[0] == bytes@[i as int]);
        assert(rest.skip(1) == bytes@.skip(i + 1));
        out.push(bytes[i]);
        i = i + 1;
        assert(spec_percent_decode_bytes(bytes@) =~= out@ + spec_percent_decode_bytes(bytes@.skip(i as int)));
    }
    assert(bytes@.skip(i as int) =~= Seq::<u8>::empty());
    assert(out@ =~= out@ + Seq::<u8>::empty());
    utf8_lossy(out.as_slice())
}

/// `p` is a contiguous piece of `s`.
pub open spec fn is_piece_of(p: Seq<char>, s: Seq<char>) -> bool {
    exists|a: int, b: int| 0 <= a <= b <= s.len() && p == s.subrange(a, b)
}

/// Whether `c` has the Unicode property `White_Space`, by which
/// `str::trim` decides what to strip.
pub open spec fn is_white_space(c: char) -> bool {
    ('\u{9}' <= c && c <= '\u{d}') || c == ' ' || c == '\u{85}' || c == '\u{a0}' || c == '\u{1680}' || ('\u{2000}'
        <= c && c <= '\u{200a}') || c == '\u{2028}' || c == '\u{2029}' || c == '\u{202f}' || c == '\u{205f}' || c
        == '\u{3000}'
}

/// `s` without its leading white space.
pub open spec fn trim_start_of(s: Seq<char>) -> Seq<char>
    decreases s.len(),
{
    if s.len() > 0 && is_white_space(s[0]) {
        trim_start_of(s.drop_first())
    } else {
        s
    }
}

/// `s` without its trailing white space.
pub open spec fn trim_end_of(s: Seq<char>) -> Seq<char>
    decreases s.len(),
{
    if s.len() > 0 && is_white_space(s.last()) {
        trim_end_of(s.drop_last())
    } else {
        s
    }
}

/// What `str::trim` leaves of `s`: `s` without leading and trailing white
/// space.
pub open spec fn spec_trim(s: Seq<char>) -> Seq<char> {
    trim_end_of(trim_start_of(s))
}

/// Whether `c` is white space in the sense of `is_white_space`.
fn white_space(c: char) -> (r: bool)
    ensures
        r == is_white_space(c),
{
    ('\u{9}' <= c && c <= '\u{d}') || c == ' ' || c == '\u{85}' || c == '\u{a0}' || c == '\u{1680}' || ('\u{2000}'
        <= c && c <= '\u{200a}') || c == '\u{2028}' || c == '\u{2029}' || c == '\u{202f}' || c == '\u{205f}' || c
        == '\u{3000}'
}

/// `s` without leading and trailing white space, as `str::trim` leaves it.
pub(crate) fn trim(s: &str) -> (r: String)
    ensures
        r@ == spec_trim(s@),
        is_piece_of(r@, s@),
{
    let cs = chars_of(s);
    let n = cs.len();
    let mut i: usize = 0;
    assert(cs@.skip(0) =~= cs@);
    while i < n && white_space(cs[i])
        invariant
            n == cs@.len(),
            i <= n,
            trim_start_of(cs@) == trim_start_of(cs@.skip(i as int)),
        decreases n - i,
    {
        assert(cs@.skip(i as int).drop_first() =~= cs@.skip(i + 1));
        i = i + 1;
    }
    assert(trim_start_of(cs@.skip(i as int)) == cs@.skip(i as int));
    assert(cs@.skip(i as int) =~= cs@.subrange(i as int, n as int));
    let mut j: usize = n;
    while j > i && white_space(cs[j - 1])
        invariant
            n == cs@.len(),
            i <= j <= n,
            trim_end_of(cs@.subrange(i as int, n as int)) == trim_end_of(cs@.subrange(i as int, j as int)),
        decreases j,
    {
        assert(cs@.subrange(i as int, j as int).drop_last() =~= cs@.subrange(i as int, j - 1));
        j = j - 1;
    }
    assert(trim_end_of(cs@.subrange(i as int, j as int)) == cs@.subrange(i as int, j as int));
    string_of(&sub_chars(&cs, i, j))
}

/// The first index of `c` in `s`.
pub open spec fn first_index_of(s: Seq<char>, c: char) -> int {
    choose|i: int| 0 <= i < s.len() && s[i] == c && forall|j: int| 0 <= j < i ==> s[j] != c
}

/// Where a decoded `file:` URI points: a `localhost/` host becomes `/`, an
/// absolute path is kept, a path after some other host keeps what follows
/// the host, and anything else is kept as it is.
pub open spec fn spec_decoded_path(decoded: Seq<char>) -> Seq<char> {
    if is_prefix("localhost/"@, decoded) {
        "/"@ + decoded.subrange(10, decoded.len() as int)
    } else if decoded.len() > 0 && decoded[0] == '/' {
        decoded
    } else if decoded.contains('/') {
        "/"@ + decoded.subrange(first_index_of(decoded, '/') + 1, decoded.len() as int)
    } else {
        decoded
    }
}

/// The local path for already trimmed text: a plain path is kept; a `file:`
/// URI loses the scheme and an optional `//`, is percent-decoded and then
/// resolved by `spec_decoded_path`.
pub open spec fn spec_normalize_trimmed(s: Seq<char>) -> Seq<char> {
    if !is_prefix("file:"@, s) {
        s
    } else {
        let after = s.subrange(5, s.len() as int);
        let rest = if is_prefix("//"@, after) { after.subrange(2, after.len() as int) } else { after };
        spec_decoded_path(spec_percent_decode_of(rest))
    }
}

/// The local path a dropped item stands for: its text trimmed, then
/// normalized by `spec_normalize_trimmed`.
pub open spec fn spec_normalize_drop_path(raw: &str) -> Seq<char> {
    spec_normalize_trimmed(spec_trim(raw@))
}

/// Percent-decoding of the text `s`: its UTF-8 bytes with the `%XX` escapes
/// decoded, read back as the characters they encode when they are valid
/// UTF-8, else lossily.
pub open spec fn spec_percent_decode_of(s: Seq<char>) -> Seq<char> {
    let b = spec_percent_decode_bytes(vstd::utf8::encode_utf8(s));
    if valid_utf8(b) {
        decode_utf8(b)
    } else {
        spec_utf8_lossy(b)
    }
}

/// The local path a percent-decoded `file:` URI points to.
pub fn decoded_path(decoded: &str) -> (r: String)
    ensures
        r@ == spec_decoded_path(decoded@),
{
    let d = chars_of(decoded);
    if has_prefix(&d, &chars_of("localhost/")) {
        proof {
            reveal_strlit("localhost/");
        }
        let tail = sub_chars(&d, 10, d.len());
        return string_of(&concat_chars(&chars_of("/"), &tail));
    }
    if d.len() > 0 && d[0] == '/' {
        return decoded.to_owned();
    }
    match find_char(&d, '/') {
        Some(i) => {
            proof {
                let w = first_index_of(d@, '/');
                assert(d@.contains('/'));
                if w < i {
                    assert(d@[w] != '/');
                }
                if i < w {
                    assert(d@[i as int] != '/');
                }
            }
            let tail = sub_chars(&d, i + 1, d.len());
            string_of(&concat_chars(&chars_of("/"), &tail))
        },
        None => decoded.to_owned(),
    }
}

/// The local path for the trimmed text `t` of a dropped item.
pub fn normalize_trimmed_path(t: &str) -> (r: String)
    ensures
        r@ == spec_normalize_trimmed(t@),
{
    let s = chars_of(t);
    if !has_prefix(&s, &chars_of("file:")) {
        return t.to_owned();
    }
    proof {
        reveal_strlit("file:");
    }
    let after = sub_chars(&s, 5, s.len());
    let rest = if has_prefix(&after, &chars_of("//")) {
        proof {
            reveal_strlit("//");
        }
        sub_chars(&after, 2, after.len())
    } else {
        after
    };
    let rest_s = string_of(&rest);
    let decoded = percent_decode(rest_s.as_str());
    decoded_path(decoded.as_str())
}

/// The local path for something dropped onto the window: file managers may
/// hand over `file://` URIs instead of paths.
pub fn normalize_drop_path(raw: &str) -> (r: String)
    ensures
        r@ == spec_normalize_drop_path(raw),
{
    let t = trim(raw);
    normalize_trimmed_path(t.as_str())
}

} // verus!

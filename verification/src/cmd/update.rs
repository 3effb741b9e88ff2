//! Self-update support: semantic versions, the release archive names, and
//! the scan of the release notes for the latest version marker.
//!
//! The network, the download, the unpacking and the binary swap live in
//! the surrounding binary; this module parses and compares.

use vstd::prelude::*;

verus! {

use crate::text::{chars_vec, find_char, lemma_find_char_at, str_eq, string_from_chars};
use vstd::string::{StrSliceExecFns, StringExecFns};

/// A decimal digit.
pub open spec fn is_digit(c: char) -> bool {
    48 <= c as u32 <= 57
}

/// The value of a digit; other characters count as nothing.
pub open spec fn digit_val(c: char) -> nat {
    if is_digit(c) {
        (c as u32 - 48) as nat
    } else {
        0
    }
}

pub open spec fn all_digits(s: Seq<char>) -> bool {
    forall|i: int| 0 <= i < s.len() ==> is_digit(#[trigger] s[i])
}

/// The number written by a digit sequence, most significant digit first.
pub open spec fn digits_value(s: Seq<char>) -> nat
    decreases s.len(),
{
    if s.len() == 0 {
        0
    } else {
        digits_value(s.drop_last()) * 10 + digit_val(s.last())
    }
}

/// Appending digits never shrinks the value.
proof fn lemma_digits_value_monotone(s: Seq<char>, k: int)
    requires
        0 <= k <= s.len(),
    ensures
        digits_value(s) >= digits_value(s.take(k)),
    decreases s.len() - k,
{
    if k == s.len() {
        assert(s.take(k) =~= s);
    } else {
        assert(s.take(k + 1).drop_last() =~= s.take(k));
        assert(digits_value(s.take(k + 1)) == digits_value(s.take(k)) * 10 + digit_val(
            s.take(k + 1).last(),
        ));
        lemma_digits_value_monotone(s, k + 1);
    }
}

/// Unsigned-integer syntax: an optional leading plus sign, then at least
/// one digit, writing a value that fits in 64 bits.
pub open spec fn strip_sign(s: Seq<char>) -> Seq<char> {
    if s.len() > 0 && s[0] == '+' {
        s.drop_first()
    } else {
        s
    }
}

pub open spec fn u64_parses(s: Seq<char>) -> bool {
    &&& strip_sign(s).len() > 0
    &&& all_digits(strip_sign(s))
    &&& digits_value(strip_sign(s)) <= u64::MAX
}

pub open spec fn u64_value(s: Seq<char>) -> nat {
    digits_value(strip_sign(s))
}

/// The version text with its leading `v` markers removed.
pub open spec fn strip_v(s: Seq<char>) -> Seq<char>
    decreases s.len(),
{
    if s.len() > 0 && s[0] == 'v' {
        strip_v(s.drop_first())
    } else {
        s
    }
}

/// The `c`-separated parts of `s`; a sequence without `c` is one part.
pub open spec fn split_on(s: Seq<char>, c: char) -> Seq<Seq<char>>
    decreases s.len(),
    via split_on_decreases
{
    let i = find_char(s, c);
    if i >= s.len() {
        seq![s]
    } else {
        seq![s.take(i)] + split_on(s.skip(i + 1), c)
    }
}

#[via_fn]
proof fn split_on_decreases(s: Seq<char>, c: char) {
    crate::text::lemma_find_char_bounds(s, c);
}

/// Splitting yields at least one part.
proof fn lemma_split_on_len(s: Seq<char>, c: char)
    ensures
        split_on(s, c).len() >= 1,
    decreases s.len(),
{
    crate::text::lemma_find_char_bounds(s, c);
    let i = find_char(s, c);
    if i < s.len() {
        lemma_split_on_len(s.skip(i + 1), c);
    }
}

/// The three `.`-separated parts of the version text, after the leading
/// `v` markers.
pub open spec fn semver_parts(s: Seq<char>) -> Seq<Seq<char>> {
    split_on(strip_v(s), '.')
}

/// A well-formed version text: exactly three parts, each a number.
pub open spec fn valid_semver(s: Seq<char>) -> bool {
    let ps = semver_parts(s);
    &&& ps.len() == 3
    &&& u64_parses(ps[0])
    &&& u64_parses(ps[1])
    &&& u64_parses(ps[2])
}

/// Why a version text was rejected: not three dot-separated parts, or a
/// part that is not an unsigned number.
#[derive(Debug, PartialEq, Eq, Structural)]
pub enum SemverError {
    InvalidVersion,
    InvalidVersionDigits,
}

impl SemverError {
    /// The report for the user.
    pub fn message(&self) -> (r: String)
        ensures
            *self == SemverError::InvalidVersion ==> r@ == "invalid version"@,
            *self == SemverError::InvalidVersionDigits ==> r@ == "invalid version digits"@,
    {
        match self {
            SemverError::InvalidVersion => String::from_str("invalid version"),
            SemverError::InvalidVersionDigits => String::from_str("invalid version digits"),
        }
    }
}

/// A semantic version.
#[derive(Debug, PartialEq, Eq, Structural)]
pub struct Semver {
    pub major: u64,
    pub minor: u64,
    pub patch: u64,
}

/// Parses the characters of `cs` between `from` and `to` as an unsigned
/// 64-bit number.
fn parse_u64_chars(cs: &Vec<char>, from: usize, to: usize) -> (r: Option<u64>)
    requires
        from <= to <= cs@.len(),
    ensures
        ({
            let part = cs@.subrange(from as int, to as int);
            match r {
                Some(v) => u64_parses(part) && v as nat == u64_value(part),
                None => !u64_parses(part),
            }
        }),
{
    let ghost part = cs@.subrange(from as int, to as int);
    let mut i: usize = from;
    if i < to && cs[i] == '+' {
        i = i + 1;
    }
    let ghost digits = cs@.subrange(i as int, to as int);
    proof {
        assert(strip_sign(part) =~= digits);
    }
    if i == to {
        return None;
    }
    let mut acc: u64 = 0;
    let mut j: usize = i;
    while j < to
        invariant
            from <= i <= j <= to <= cs@.len(),
            digits == cs@.subrange(i as int, to as int),
            strip_sign(cs@.subrange(from as int, to as int)) == digits,
            all_digits(digits.take(j - i)),
            acc as nat == digits_value(digits.take(j - i)),
        decreases to - j,
    {
        let c = cs[j];
        let u = c as u32;
        if u < 48 || u > 57 {
            proof {
                assert(digits[j - i] == cs@[j as int]);
                assert(!is_digit(digits[j - i]));
            }
            return None;
        }
        let d = (u - 48) as u64;
        let next = match acc.checked_mul(10) {
            Some(m) => m.checked_add(d),
            None => None,
        };
        proof {
            assert(digits.take(j - i + 1).drop_last() =~= digits.take(j - i));
            assert(digits.take(j - i + 1).last() == cs@[j as int]);
            assert(digits_value(digits.take(j - i + 1)) == (acc as nat) * 10 + (d as nat));
        }
        match next {
            Some(v) => {
                acc = v;
            },
            None => {
                proof {
                    assert(digits_value(digits.take(j - i + 1)) > u64::MAX);
                    lemma_digits_value_monotone(digits, j - i + 1);
                    assert(digits_value(digits) > u64::MAX);
                }
                return None;
            },
        }
        j = j + 1;
    }
    proof {
        assert(digits.take(to - i) =~= digits);
    }
    Some(acc)
}

/// First index of `c` in `cs` at or after `from`, or the length.
fn find_from(cs: &Vec<char>, c: char, from: usize) -> (r: usize)
    requires
        from <= cs@.len(),
    ensures
        from <= r <= cs@.len(),
        forall|j: int| from <= j < r ==> cs@[j] != c,
        r < cs@.len() ==> cs@[r as int] == c,
{
    let mut j: usize = from;
    while j < cs.len()
        invariant
            from <= j <= cs@.len(),
            forall|k: int| from <= k < j ==> cs@[k] != c,
        decreases cs@.len() - j,
    {
        if cs[j] == c {
            return j;
        }
        j = j + 1;
    }
    j
}

impl Semver {
    /// Parses `v<major>.<minor>.<patch>`.  Leading `v` markers are
    /// stripped; the rest must be exactly three `.`-separated parts, each
    /// an unsigned 64-bit number.
    #[verifier::rlimit(100)]
    pub fn new(version: &str) -> (r: Result<Semver, SemverError>)
        ensures
            ({
                let ps = semver_parts(version@);
                match r {
                    Ok(v) => {
                        &&& valid_semver(version@)
                        &&& v.major as nat == u64_value(ps[0])
                        &&& v.minor as nat == u64_value(ps[1])
                        &&& v.patch as nat == u64_value(ps[2])
                    },
                    Err(e) => !valid_semver(version@) && (e == SemverError::InvalidVersion
                        <==> ps.len() != 3),
                }
            }),
    {
        let cs = chars_vec(version);
        let mut start: usize = 0;
        proof {
            assert(cs@.skip(0) =~= cs@);
        }
        while start < cs.len() && cs[start] == 'v'
            invariant
                start <= cs@.len(),
                cs@ == version@,
                strip_v(cs@) == strip_v(cs@.skip(start as int)),
            decreases cs@.len() - start,
        {
            proof {
                assert(cs@.skip(start as int).drop_first() =~= cs@.skip(start + 1));
            }
            start = start + 1;
        }
        proof {
            assert(cs@.skip(start as int).len() == 0 || cs@.skip(start as int)[0] != 'v');
            assert(strip_v(cs@) == cs@.skip(start as int));
        }
        let ghost t = strip_v(version@);
        let ghost ofs = start as int;
        // `t[j] == cs@[ofs + j]`: positions in the stripped text map onto
        // the whole text by the offset.
        let d0 = find_from(&cs, '.', start);
        if d0 == cs.len() {
            proof {
                lemma_find_char_at(t, '.', t.len() as int);
                assert(semver_parts(version@) =~= seq![t]);
            }
            return Err(SemverError::InvalidVersion);
        }
        let d1 = find_from(&cs, '.', d0 + 1);
        proof {
            lemma_find_char_at(t, '.', d0 - ofs);
            assert(split_on(t, '.') == seq![t.take(d0 - ofs)] + split_on(t.skip(d0 - ofs + 1), '.'));
        }
        let ghost t1 = t.skip(d0 - ofs + 1);
        proof {
            assert(t1 =~= cs@.skip(d0 + 1));
        }
        if d1 == cs.len() {
            proof {
                lemma_find_char_at(t1, '.', t1.len() as int);
                assert(split_on(t1, '.') == seq![t1]);
                assert(semver_parts(version@) =~= seq![t.take(d0 - ofs), t1]);
            }
            return Err(SemverError::InvalidVersion);
        }
        proof {
            lemma_find_char_at(t1, '.', d1 - d0 - 1);
            assert(split_on(t1, '.') == seq![t1.take(d1 - d0 - 1)] + split_on(
                t1.skip(d1 - d0),
                '.',
            ));
        }
        let ghost t2 = t1.skip(d1 - d0);
        proof {
            assert(t2 =~= cs@.skip(d1 + 1));
        }
        let d2 = find_from(&cs, '.', d1 + 1);
        if d2 < cs.len() {
            proof {
                lemma_find_char_at(t2, '.', d2 - d1 - 1);
                assert(split_on(t2, '.') == seq![t2.take(d2 - d1 - 1)] + split_on(
                    t2.skip(d2 - d1),
                    '.',
                ));
                lemma_split_on_len(t2.skip(d2 - d1), '.');
                assert(semver_parts(version@).len() >= 4);
            }
            return Err(SemverError::InvalidVersion);
        }
        proof {
            lemma_find_char_at(t2, '.', t2.len() as int);
            assert(split_on(t2, '.') == seq![t2]);
            assert(semver_parts(version@) =~= seq![t.take(d0 - ofs), t1.take(d1 - d0 - 1), t2]);
            assert(t.take(d0 - ofs) =~= cs@.subrange(ofs, d0 as int));
            assert(t1.take(d1 - d0 - 1) =~= cs@.subrange(d0 + 1, d1 as int));
            assert(t2 =~= cs@.subrange(d1 + 1, cs@.len() as int));
        }
        let major = parse_u64_chars(&cs, start, d0);
        let minor = parse_u64_chars(&cs, d0 + 1, d1);
        let len = cs.len();
        let patch = parse_u64_chars(&cs, d1 + 1, len);
        match (major, minor, patch) {
            (Some(major), Some(minor), Some(patch)) => Ok(Semver { major, minor, patch }),
            _ => Err(SemverError::InvalidVersionDigits),
        }
    }

    /// The canonical text of the version: `v<major>.<minor>.<patch>`.
    pub fn version_string(&self) -> (r: String)
        ensures
            r@ == semver_text(*self),
    {
        let mut out: Vec<char> = Vec::new();
        out.push('v');
        proof {
            assert(out@ =~= seq!['v']);
        }
        push_decimal(&mut out, self.major);
        out.push('.');
        push_decimal(&mut out, self.minor);
        out.push('.');
        push_decimal(&mut out, self.patch);
        proof {
            assert(out@ =~= semver_text(*self));
        }
        string_from_chars(&out)
    }
}

/// Versions are ordered by major, then minor, then patch.
pub open spec fn semver_cmp(a: Semver, b: Semver) -> core::cmp::Ordering {
    if a.major < b.major {
        core::cmp::Ordering::Less
    } else if a.major > b.major {
        core::cmp::Ordering::Greater
    } else if a.minor < b.minor {
        core::cmp::Ordering::Less
    } else if a.minor > b.minor {
        core::cmp::Ordering::Greater
    } else if a.patch < b.patch {
        core::cmp::Ordering::Less
    } else if a.patch > b.patch {
        core::cmp::Ordering::Greater
    } else {
        core::cmp::Ordering::Equal
    }
}

impl PartialOrd for Semver {
    fn partial_cmp(&self, other: &Self) -> (r: Option<core::cmp::Ordering>) {
        if self.major < other.major {
            Some(core::cmp::Ordering::Less)
        } else if self.major > other.major {
            Some(core::cmp::Ordering::Greater)
        } else if self.minor < other.minor {
            Some(core::cmp::Ordering::Less)
        } else if self.minor > other.minor {
            Some(core::cmp::Ordering::Greater)
        } else if self.patch < other.patch {
            Some(core::cmp::Ordering::Less)
        } else if self.patch > other.patch {
            Some(core::cmp::Ordering::Greater)
        } else {
            Some(core::cmp::Ordering::Equal)
        }
    }
}

impl vstd::std_specs::cmp::PartialOrdSpecImpl for Semver {
    open spec fn obeys_partial_cmp_spec() -> bool {
        true
    }

    open spec fn partial_cmp_spec(&self, other: &Self) -> Option<core::cmp::Ordering> {
        Some(semver_cmp(*self, *other))
    }
}

/// The digit character for a value below ten.
pub open spec fn digit_char(d: nat) -> char {
    if d == 0 {
        '0'
    } else if d == 1 {
        '1'
    } else if d == 2 {
        '2'
    } else if d == 3 {
        '3'
    } else if d == 4 {
        '4'
    } else if d == 5 {
        '5'
    } else if d == 6 {
        '6'
    } else if d == 7 {
        '7'
    } else if d == 8 {
        '8'
    } else {
        '9'
    }
}

/// The decimal text of `n`, most significant digit first.
pub open spec fn dec_digits(n: nat) -> Seq<char>
    decreases n,
{
    if n < 10 {
        seq![digit_char(n)]
    } else {
        dec_digits(n / 10) + seq![digit_char(n % 10)]
    }
}

/// The text of the version `v`.
pub open spec fn semver_text(v: Semver) -> Seq<char> {
    seq!['v'] + dec_digits(v.major as nat) + seq!['.'] + dec_digits(v.minor as nat) + seq!['.']
        + dec_digits(v.patch as nat)
}

fn digit_char_of(d: u64) -> (c: char)
    requires
        d < 10,
    ensures
        c == digit_char(d as nat),
{
    if d == 0 {
        '0'
    } else if d == 1 {
        '1'
    } else if d == 2 {
        '2'
    } else if d == 3 {
        '3'
    } else if d == 4 {
        '4'
    } else if d == 5 {
        '5'
    } else if d == 6 {
        '6'
    } else if d == 7 {
        '7'
    } else if d == 8 {
        '8'
    } else {
        '9'
    }
}

/// Appends the decimal text of `n`.
fn push_decimal(out: &mut Vec<char>, n: u64)
    ensures
        final(out)@ == old(out)@ + dec_digits(n as nat),
    decreases n,
{
    if n < 10 {
        out.push(digit_char_of(n));
        proof {
            assert(out@ =~= old(out)@ + dec_digits(n as nat));
        }
    } else {
        push_decimal(out, n / 10);
        out.push(digit_char_of(n % 10));
        proof {
            assert(out@ =~= old(out)@ + dec_digits(n as nat));
        }
    }
}

/// Why the update could not proceed.
#[derive(Debug, PartialEq, Eq, Structural)]
pub enum UpdateError {
    UnsupportedOs,
}

/// The release archive name for one platform.
pub open spec fn archive_name(os: Seq<char>, arch: Seq<char>) -> Option<Seq<char>> {
    if os == "macos"@ {
        Some("tagcm-"@ + arch + "-apple-darwin.tar.gz"@)
    } else if os == "windows"@ {
        Some("tagcm-"@ + arch + "-pc-windows-msvc.exe.tar.gz"@)
    } else if os == "linux"@ {
        Some("tagcm-"@ + arch + "-unknown-linux-gnu.tar.gz"@)
    } else {
        None
    }
}

/// The downloadable release archive, named from the running system's
/// operating system and architecture.
#[derive(Debug)]
pub struct DownloadBinary {
    url: String,
}

impl DownloadBinary {
    /// The archive name this download stands for.
    pub closed spec fn url_spec(&self) -> Seq<char> {
        self.url@
    }

    /// Names the release archive for the given platform; only macOS,
    /// Windows and Linux are supported.
    pub fn new(os: &str, arch: &str) -> (r: Result<DownloadBinary, UpdateError>)
        ensures
            match r {
                Ok(d) => archive_name(os@, arch@) == Some(d.url_spec()),
                Err(e) => archive_name(os@, arch@) is None && e == UpdateError::UnsupportedOs,
            },
    {
        if str_eq(os, "macos") {
            let url = String::from_str("tagcm-").concat(arch).concat("-apple-darwin.tar.gz");
            Ok(DownloadBinary { url })
        } else if str_eq(os, "windows") {
            let url = String::from_str("tagcm-").concat(arch).concat(
                "-pc-windows-msvc.exe.tar.gz",
            );
            Ok(DownloadBinary { url })
        } else if str_eq(os, "linux") {
            let url = String::from_str("tagcm-").concat(arch).concat(
                "-unknown-linux-gnu.tar.gz",
            );
            Ok(DownloadBinary { url })
        } else {
            Err(UpdateError::UnsupportedOs)
        }
    }

    /// The archive name.
    pub fn get_url(&self) -> (r: String)
        ensures
            r@ == self.url_spec(),
    {
        self.url.clone()
    }

    /// The binary inside the archive: the archive name up to its first
    /// `.`.
    pub fn get_binary_name(&self) -> (r: String)
        ensures
            r@ == self.url_spec().take(find_char(self.url_spec(), '.')),
    {
        let s = self.url.as_str();
        let n = s.unicode_len();
        let mut i: usize = 0;
        while i < n && s.get_char(i) != '.'
            invariant
                i <= n,
                n == s@.len(),
                forall|j: int| 0 <= j < i ==> s@[j] != '.',
            decreases n - i,
        {
            i = i + 1;
        }
        proof {
            lemma_find_char_at(s@, '.', i as int);
        }
        let r = s.substring_char(0, i);
        proof {
            assert(r@ =~= s@.take(i as int));
        }
        String::from_str(r)
    }
}

/// The pattern of a version marker in the release notes.
pub const VERSION_PATTERN: &'static str = "v[0-9]{1,}\\.[0-9]{1,}\\.[0-9]{1,}";

/// The leftmost match of `pattern` in `text`, or nothing when the pattern
/// does not match (or does not compile).
pub uninterp spec fn regex_first_match(pattern: Seq<char>, text: Seq<char>) -> Option<Seq<char>>;

/// Relies on `regex::Regex::new` and `regex::Regex::find`: for a fixed
/// pattern the leftmost match depends on the haystack alone, and the
/// matched text is a contiguous part of the haystack.
#[verifier::external_body]
fn regex_find_first(pattern: &str, text: &str) -> (r: Option<String>)
    ensures
        match r {
            Some(m) => regex_first_match(pattern@, text@) == Some(m@) && exists|i: int|
                0 <= i && i + m@.len() <= text@.len() && m@ == #[trigger] text@.subrange(
                    i,
                    i + m@.len(),
                ),
            None => regex_first_match(pattern@, text@) is None,
        },
{
    match regex::Regex::new(pattern) {
        Ok(re) => re.find(text).map(|m| m.as_str().to_string()),
        Err(_) => None,
    }
}

/// Scans the release notes for the first version marker and parses it.
pub fn find_latest_version(text: &str) -> (r: Option<Semver>)
    ensures
        match r {
            Some(v) => {
                &&& regex_first_match(VERSION_PATTERN@, text@) matches Some(m)
                &&& valid_semver(m)
                &&& v.major as nat == u64_value(semver_parts(m)[0])
                &&& v.minor as nat == u64_value(semver_parts(m)[1])
                &&& v.patch as nat == u64_value(semver_parts(m)[2])
            },
            None => regex_first_match(VERSION_PATTERN@, text@) is None || !valid_semver(
                regex_first_match(VERSION_PATTERN@, text@)->Some_0,
            ),
        },
{
    match regex_find_first(VERSION_PATTERN, text) {
        Some(m) => match Semver::new(m.as_str()) {
            Ok(v) => Some(v),
            Err(_) => None,
        },
        None => None,
    }
}

/// Whether the published version is strictly newer than the running one,
/// so that an update is worth offering.
pub fn update_available(current: &Semver, latest: &Semver) -> (r: bool)
    ensures
        r == (semver_cmp(*current, *latest) == core::cmp::Ordering::Less),
{
    if current.major != latest.major {
        current.major < latest.major
    } else if current.minor != latest.minor {
        current.minor < latest.minor
    } else {
        current.patch < latest.patch
    }
}

} // verus!

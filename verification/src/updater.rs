use vstd::prelude::*;

use crate::text::{
    chars_of, find_char, find_seq, first_index_of_char, first_match, is_first_char, lemma_first_char_unique, owned,
};

verus! {

/// The GitHub repository whose releases are watched.
pub const REPO: &'static str = "jeffreytse/winsoftvol";

/// The key that introduces the release's tag in the GitHub API's answer.
pub const TAG_NAME_KEY: &'static str = "\"tag_name\":\"";

/// A version: major, minor and patch number.
pub type Version = (u32, u32, u32);

/// The path, on api.github.com, of the answer about the latest release.
pub open spec fn spec_release_api_path() -> Seq<char> {
    "/repos/"@ + REPO@ + "/releases/latest"@
}

/// The path, on api.github.com, of the answer about the latest release.
pub fn release_api_path() -> (r: String)
    ensures
        r@ == spec_release_api_path(),
{
    let mut r = String::new();
    r.append("/repos/");
    r.append(REPO);
    r.append("/releases/latest");
    r
}

/// The web page of the release `tag`.
pub open spec fn spec_release_page_url(tag: Seq<char>) -> Seq<char> {
    "https://github.com/"@ + REPO@ + "/releases/tag/"@ + tag
}

/// The web page of the release `tag`.
pub fn release_page_url(tag: &str) -> (r: String)
    ensures
        r@ == spec_release_page_url(tag@),
{
    let mut r = String::new();
    r.append("https://github.com/");
    r.append(REPO);
    r.append("/releases/tag/");
    r.append(tag);
    r
}

// ----- Decimal numbers -----

/// `c` is an ASCII decimal digit.
pub open spec fn is_digit(c: char) -> bool {
    '0' <= c && c <= '9'
}

/// Every character of `s` is a decimal digit.
pub open spec fn all_digits(s: Seq<char>) -> bool {
    forall|i: int| 0 <= i < s.len() ==> #[trigger] is_digit(s[i])
}

/// The value of the decimal digits `s`.
pub open spec fn digits_value(s: Seq<char>) -> int
    decreases s.len(),
{
    if s.len() == 0 {
        0
    } else {
        digits_value(s.drop_last()) * 10 + (s.last() as int - '0' as int)
    }
}

/// What `str::parse::<u32>` gives for `s`: an optional `+` followed by at
/// least one decimal digit, whose value fits in a `u32`.
pub open spec fn spec_parse_u32(s: Seq<char>) -> Option<u32> {
    let d = if s.len() > 0 && s[0] == '+' {
        s.drop_first()
    } else {
        s
    };
    if d.len() > 0 && all_digits(d) && digits_value(d) <= u32::MAX {
        Some(digits_value(d) as u32)
    } else {
        None
    }
}

/// The parsed number, or zero when `s` is no number.
pub open spec fn spec_parse_or_zero(s: Seq<char>) -> u32 {
    match spec_parse_u32(s) {
        Some(v) => v,
        None => 0,
    }
}

/// The digits of a prefix of `s` are themselves all digits.
proof fn lemma_all_digits_drop_last(s: Seq<char>)
    requires
        all_digits(s),
        s.len() > 0,
    ensures
        all_digits(s.drop_last()),
{
    assert forall|i: int| 0 <= i < s.drop_last().len() implies #[trigger] is_digit(s.drop_last()[i]) by {
        assert(is_digit(s[i]));
    }
}

/// Decimal digits are worth at least zero.
proof fn lemma_digits_value_nonneg(s: Seq<char>)
    requires
        all_digits(s),
    ensures
        digits_value(s) >= 0,
    decreases s.len(),
{
    if s.len() > 0 {
        lemma_all_digits_drop_last(s);
        lemma_digits_value_nonneg(s.drop_last());
        assert(is_digit(s[s.len() - 1]));
    }
}

/// A prefix of digits is worth no more than the whole.
proof fn lemma_digits_value_prefix(s: Seq<char>, k: int)
    requires
        all_digits(s),
        0 <= k <= s.len(),
    ensures
        0 <= digits_value(s.take(k)) <= digits_value(s),
    decreases s.len(),
{
    lemma_digits_value_nonneg(s);
    if k == s.len() {
        assert(s.take(k) =~= s);
    } else {
        lemma_all_digits_drop_last(s);
        lemma_digits_value_prefix(s.drop_last(), k);
        assert(s.drop_last().take(k) =~= s.take(k));
        lemma_digits_value_nonneg(s.drop_last());
        assert(is_digit(s[s.len() - 1]));
    }
}

/// Parses `v[from..to]` as `str::parse::<u32>` does.
fn parse_u32_range(v: &Vec<char>, from: usize, to: usize) -> (r: Option<u32>)
    requires
        from <= to <= v@.len(),
    ensures
        r == spec_parse_u32(v@.subrange(from as int, to as int)),
{
    let ghost s = v@.subrange(from as int, to as int);
    let mut start = from;
    if from < to && v[from] == '+' {
        start = from + 1;
    }
    let ghost d = v@.subrange(start as int, to as int);
    assert(d == if s.len() > 0 && s[0] == '+' {
        s.drop_first()
    } else {
        s
    }) by {
        if from < to && v@[from as int] == '+' {
            assert(d =~= s.drop_first());
        } else {
            assert(d =~= s);
        }
    }
    if start == to {
        return None;
    }
    let mut value: u64 = 0;
    let mut i = start;
    while i < to
        invariant
            from <= start <= i <= to <= v@.len(),
            d == v@.subrange(start as int, to as int),
            s == v@.subrange(from as int, to as int),
            d.len() > 0,
            d == if s.len() > 0 && s[0] == '+' {
                s.drop_first()
            } else {
                s
            },
            all_digits(d.take(i - start)),
            value == digits_value(d.take(i - start)),
            value <= u32::MAX,
        decreases to - i,
    {
        let c = v[i];
        if !('0' <= c && c <= '9') {
            assert(!is_digit(d[i - start]));
            return None;
        }
        let digit: u64 = (c as u64) - ('0' as u64);
        let next = value * 10 + digit;
        proof {
            let p = d.take(i - start + 1);
            assert(p.drop_last() =~= d.take(i - start));
            assert(p.last() == c);
            assert(all_digits(p)) by {
                assert forall|j: int| 0 <= j < p.len() implies #[trigger] is_digit(p[j]) by {
                    if j < p.len() - 1 {
                        assert(p[j] == d.take(i - start)[j]);
                    }
                }
            }
        }
        if next > 0xffff_ffffu64 {
            proof {
                let p = d.take(i - start + 1);
                if all_digits(d) {
                    lemma_digits_value_prefix(d, i - start + 1);
                }
            }
            return None;
        }
        value = next;
        i = i + 1;
    }
    assert(d.take(to - start) =~= d);
    Some(value as u32)
}

// ----- Versions -----

/// What `parse_ver` gives for `v`: the first three dot-separated parts of
/// `v` as numbers, the third part taking in whatever follows the second
/// dot; a missing or unparsable part counts as zero.
pub open spec fn spec_parse_ver(v: Seq<char>) -> Version {
    match first_index_of_char(v, '.') {
        None => (spec_parse_or_zero(v), 0, 0),
        Some(i) => {
            let rest = v.skip(i + 1);
            match first_index_of_char(rest, '.') {
                None => (spec_parse_or_zero(v.take(i)), spec_parse_or_zero(rest), 0),
                Some(j) => (
                    spec_parse_or_zero(v.take(i)),
                    spec_parse_or_zero(rest.take(j)),
                    spec_parse_or_zero(rest.skip(j + 1)),
                ),
            }
        },
    }
}

/// `a` comes after `b`: comparing major, then minor, then patch number.
pub open spec fn version_greater(a: Version, b: Version) -> bool {
    ||| a.0 > b.0
    ||| a.0 == b.0 && a.1 > b.1
    ||| a.0 == b.0 && a.1 == b.1 && a.2 > b.2
}

fn parse_or_zero(v: &Vec<char>, from: usize, to: usize) -> (r: u32)
    requires
        from <= to <= v@.len(),
    ensures
        r == spec_parse_or_zero(v@.subrange(from as int, to as int)),
{
    match parse_u32_range(v, from, to) {
        Some(x) => x,
        None => 0,
    }
}

/// Splits a version string at its first two dots and reads each part as a
/// number.
pub fn parse_ver(v: &str) -> (r: Version)
    ensures
        r == spec_parse_ver(v@),
{
    let c = chars_of(v);
    let n = c.len();
    assert(c@.skip(0) =~= c@);
    match find_char(&c, '.', 0) {
        None => {
            assert(c@.subrange(0, n as int) =~= c@);
            (parse_or_zero(&c, 0, n), 0, 0)
        },
        Some(i) => {
            let major = parse_or_zero(&c, 0, i);
            assert(c@.subrange(0, i as int) =~= v@.take(i as int));
            let ghost rest = v@.skip(i + 1);
            match find_char(&c, '.', i + 1) {
                None => {
                    assert(c@.subrange(i + 1, n as int) =~= rest);
                    (major, parse_or_zero(&c, i + 1, n), 0)
                },
                Some(j) => {
                    assert(c@.subrange(i + 1, j as int) =~= rest.take(j - (i + 1)));
                    assert(c@.subrange(j + 1, n as int) =~= rest.skip(j - (i + 1) + 1));
                    (major, parse_or_zero(&c, i + 1, j), parse_or_zero(&c, j + 1, n))
                },
            }
        },
    }
}

/// Whether the version `remote` comes after the version `current`.
pub fn is_newer(remote: &str, current: &str) -> (r: bool)
    ensures
        r == version_greater(spec_parse_ver(remote@), spec_parse_ver(current@)),
{
    let a = parse_ver(remote);
    let b = parse_ver(current);
    a.0 > b.0 || (a.0 == b.0 && a.1 > b.1) || (a.0 == b.0 && a.1 == b.1 && a.2 > b.2)
}

// ----- The release answer -----

/// What `extract_tag_name` finds in `json`: the characters that follow the
/// first `"tag_name":"` up to the next `"`.
pub open spec fn spec_extract_tag_name(json: Seq<char>) -> Option<Seq<char>> {
    match first_match(json, TAG_NAME_KEY@) {
        None => None,
        Some(i) => {
            let start = i + TAG_NAME_KEY@.len();
            let rest = json.skip(start);
            match first_index_of_char(rest, '"') {
                None => None,
                Some(e) => Some(rest.take(e)),
            }
        },
    }
}

/// The release tag that a GitHub "latest release" answer names.
pub fn extract_tag_name(json: &str) -> (r: Option<&str>)
    ensures
        match r {
            Some(t) => spec_extract_tag_name(json@) == Some(t@),
            None => spec_extract_tag_name(json@) is None,
        },
{
    let c = chars_of(json);
    let n = c.len();
    let key = chars_of(TAG_NAME_KEY);
    match find_seq(&c, &key) {
        None => None,
        Some(i) => {
            let start = i + key.len();
            match find_char(&c, '"', start) {
                None => None,
                Some(end) => {
                    let t = json.substring_char(start, end);
                    assert(t@ =~= json@.skip(start as int).take(end - start));
                    Some(t)
                },
            }
        },
    }
}

/// `s` with every leading `v` removed.
pub open spec fn spec_trim_leading_v(s: Seq<char>) -> Seq<char>
    decreases s.len(),
{
    if s.len() > 0 && s[0] == 'v' {
        spec_trim_leading_v(s.drop_first())
    } else {
        s
    }
}

/// `s` with every leading `v` removed, as `trim_start_matches('v')` does.
pub fn trim_leading_v(s: &str) -> (r: &str)
    ensures
        r@ == spec_trim_leading_v(s@),
{
    let c = chars_of(s);
    let n = c.len();
    let mut k: usize = 0;
    assert(s@.skip(0) =~= s@);
    while k < n && c[k] == 'v'
        invariant
            k <= n,
            n == s@.len(),
            c@ == s@,
            spec_trim_leading_v(s@.skip(k as int)) == spec_trim_leading_v(s@),
        decreases n - k,
    {
        assert(s@.skip(k as int).drop_first() =~= s@.skip(k + 1));
        k = k + 1;
    }
    let r = s.substring_char(k, n);
    assert(r@ =~= s@.skip(k as int));
    r
}

/// What `check_latest_release` gives for the API answer `json`, when the
/// running program is at version `current`: the release tag, when it names
/// a newer version than `current` (leading `v`s aside).
pub open spec fn spec_check_latest_release(json: Seq<char>, current: Seq<char>) -> Option<Seq<char>> {
    match spec_extract_tag_name(json) {
        None => None,
        Some(tag) => if version_greater(spec_parse_ver(spec_trim_leading_v(tag)), spec_parse_ver(current)) {
            Some(tag)
        } else {
            None
        },
    }
}

/// Given GitHub's answer about the latest release, the tag of that release
/// if it is newer than `current_version`.
pub fn check_latest_release(json: &str, current_version: &str) -> (r: Option<String>)
    ensures
        match r {
            Some(t) => spec_check_latest_release(json@, current_version@) == Some(t@),
            None => spec_check_latest_release(json@, current_version@) is None,
        },
{
    match extract_tag_name(json) {
        None => None,
        Some(tag) => {
            if is_newer(trim_leading_v(tag), current_version) {
                Some(owned(tag))
            } else {
                None
            }
        },
    }
}

/// "Newer than" is a strict order on version strings: no version is newer
/// than itself, of two versions at most one is newer than the other, and a
/// version newer than one that is newer than a third is newer than the third.
pub proof fn lemma_is_newer_strict_order(a: Seq<char>, b: Seq<char>, c: Seq<char>)
    ensures
        !version_greater(spec_parse_ver(a), spec_parse_ver(a)),
        version_greater(spec_parse_ver(a), spec_parse_ver(b)) ==> !version_greater(spec_parse_ver(b), spec_parse_ver(a)),
        version_greater(spec_parse_ver(a), spec_parse_ver(b)) && version_greater(spec_parse_ver(b), spec_parse_ver(c))
            ==> version_greater(spec_parse_ver(a), spec_parse_ver(c)),
{
}

/// Versions are ranked by major number first, then by minor number, then by
/// patch number: a larger major number is newer whatever the rest; with the
/// same major number a larger minor number is newer whatever the patch
/// numbers; with the same major and minor numbers the larger patch number is
/// newer; and a version is never newer than one with a larger major number,
/// or with the same major and a larger minor number.
pub proof fn lemma_version_rank(a: Version, b: Version)
    ensures
        a.0 > b.0 ==> version_greater(a, b),
        a.0 == b.0 && a.1 > b.1 ==> version_greater(a, b),
        a.0 == b.0 && a.1 == b.1 ==> (version_greater(a, b) <==> a.2 > b.2),
        a.0 < b.0 ==> !version_greater(a, b),
        a.0 == b.0 && a.1 < b.1 ==> !version_greater(a, b),
{
}

/// Of two version strings written `major.minor.patch` in decimal, the one
/// whose numbers rank higher, major first, then minor, then patch, is the
/// newer: with the same major number, a larger minor number wins whatever
/// the patch numbers are.
pub proof fn lemma_is_newer_decimal_versions(a: Version, b: Version)
    ensures
        ({
            let ra = decimal(a.0 as nat) + seq!['.'] + decimal(a.1 as nat) + seq!['.'] + decimal(a.2 as nat);
            let rb = decimal(b.0 as nat) + seq!['.'] + decimal(b.1 as nat) + seq!['.'] + decimal(b.2 as nat);
            &&& a.0 > b.0 ==> version_greater(spec_parse_ver(ra), spec_parse_ver(rb))
            &&& a.0 == b.0 && a.1 > b.1 ==> version_greater(spec_parse_ver(ra), spec_parse_ver(rb))
            &&& a.0 == b.0 && a.1 == b.1 ==> (version_greater(spec_parse_ver(ra), spec_parse_ver(rb)) <==> a.2 > b.2)
            &&& a.0 < b.0 ==> !version_greater(spec_parse_ver(ra), spec_parse_ver(rb))
            &&& a.0 == b.0 && a.1 < b.1 ==> !version_greater(spec_parse_ver(ra), spec_parse_ver(rb))
        }),
{
    lemma_parse_ver_roundtrip(a.0, a.1, a.2);
    lemma_parse_ver_roundtrip(b.0, b.1, b.2);
    lemma_version_rank(a, b);
}

/// Two version strings that read as the same version are neither newer than
/// the other, and of two that read differently one is newer.
pub proof fn lemma_is_newer_total(a: Seq<char>, b: Seq<char>)
    ensures
        spec_parse_ver(a) == spec_parse_ver(b) <==> (!version_greater(spec_parse_ver(a), spec_parse_ver(b))
            && !version_greater(spec_parse_ver(b), spec_parse_ver(a))),
{
}

/// The release check never offers the release the program is running: when
/// the tag, leading `v`s removed, reads as the current version, nothing is
/// reported.
pub proof fn lemma_current_release_not_reported(json: Seq<char>, current: Seq<char>)
    requires
        spec_extract_tag_name(json) matches Some(tag) && spec_parse_ver(spec_trim_leading_v(tag)) == spec_parse_ver(
            current,
        ),
    ensures
        spec_check_latest_release(json, current) is None,
{
}

/// The decimal digit for `d`, for `d` below ten.
pub open spec fn digit_char(d: int) -> char {
    if d == 0 {
        '0'
    } else if d == 1 {
        '1'
    } else if d == 2 {
        '2'
    } else if d == 3 {
        '3'
    } else if d == 4 {
        '4'
    } else if d == 5 {
        '5'
    } else if d == 6 {
        '6'
    } else if d == 7 {
        '7'
    } else if d == 8 {
        '8'
    } else {
        '9'
    }
}

/// `n` written in decimal, without leading zeros.
pub open spec fn decimal(n: nat) -> Seq<char>
    decreases n,
{
    if n < 10 {
        seq![digit_char(n as int)]
    } else {
        decimal(n / 10).push(digit_char((n % 10) as int))
    }
}

/// The digit for `d` is a decimal digit worth `d`.
proof fn lemma_digit_char(d: int)
    requires
        0 <= d < 10,
    ensures
        is_digit(digit_char(d)),
        digit_char(d) as int - '0' as int == d,
{
}

/// A number written in decimal is a non-empty string of digits worth that number.
proof fn lemma_decimal(n: nat)
    ensures
        decimal(n).len() > 0,
        all_digits(decimal(n)),
        digits_value(decimal(n)) == n,
    decreases n,
{
    if n < 10 {
        lemma_digit_char(n as int);
        let s = decimal(n);
        assert(s.drop_last() =~= Seq::<char>::empty());
        assert(digits_value(s.drop_last()) == 0);
        assert(s.last() == digit_char(n as int));
    } else {
        lemma_digit_char((n % 10) as int);
        lemma_decimal(n / 10);
        let s = decimal(n);
        assert(s.drop_last() =~= decimal(n / 10));
        assert(s.last() == digit_char((n % 10) as int));
        assert(digits_value(s) == digits_value(decimal(n / 10)) * 10 + (n % 10));
        assert forall|i: int| 0 <= i < s.len() implies #[trigger] is_digit(s[i]) by {
            if i < s.len() - 1 {
                assert(s[i] == decimal(n / 10)[i]);
            }
        }
    }
}

/// A string of digits holds no dot.
proof fn lemma_digits_no_dot(s: Seq<char>)
    requires
        all_digits(s),
    ensures
        !s.contains('.'),
{
    if s.contains('.') {
        let i = choose|i: int| 0 <= i < s.len() && s[i] == '.';
        assert(is_digit(s[i]));
    }
}

/// A number written in decimal parses back to itself.
pub proof fn lemma_parse_decimal(n: u32)
    ensures
        spec_parse_u32(decimal(n as nat)) == Some(n),
{
    lemma_decimal(n as nat);
    assert(is_digit(decimal(n as nat)[0]));
}

/// A version written out as `major.minor.patch` in decimal reads back as
/// that version.
pub proof fn lemma_parse_ver_roundtrip(major: u32, minor: u32, patch: u32)
    ensures
        spec_parse_ver(decimal(major as nat) + seq!['.'] + decimal(minor as nat) + seq!['.'] + decimal(patch as nat))
            == (major, minor, patch),
{
    let a = decimal(major as nat);
    let b = decimal(minor as nat);
    let c = decimal(patch as nat);
    let v = a + seq!['.'] + b + seq!['.'] + c;
    lemma_decimal(major as nat);
    lemma_decimal(minor as nat);
    lemma_decimal(patch as nat);
    lemma_digits_no_dot(a);
    lemma_digits_no_dot(b);
    lemma_parse_decimal(major);
    lemma_parse_decimal(minor);
    lemma_parse_decimal(patch);
    let i = a.len() as int;
    assert(is_first_char(v, '.', i)) by {
        assert(v[i] == '.');
        assert forall|j: int| 0 <= j < i implies v[j] != '.' by {
            assert(v[j] == a[j]);
            assert(is_digit(a[j]));
        }
    }
    lemma_first_char_unique(v, '.', i);
    assert(v.take(i) =~= a);
    let rest = v.skip(i + 1);
    assert(rest =~= b + seq!['.'] + c);
    let j = b.len() as int;
    assert(is_first_char(rest, '.', j)) by {
        assert(rest[j] == '.');
        assert forall|k: int| 0 <= k < j implies rest[k] != '.' by {
            assert(rest[k] == b[k]);
            assert(is_digit(b[k]));
        }
    }
    lemma_first_char_unique(rest, '.', j);
    assert(rest.take(j) =~= b);
    assert(rest.skip(j + 1) =~= c);
}

} // verus!

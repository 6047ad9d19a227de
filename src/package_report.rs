use vstd::prelude::*;
use crate::lines::{chars_of, lines_spec, split_lines, text_of, trim, trim_spec};
use crate::listing::holds_text;
use crate::package::PackageInfo;
use crate::text::string_views;
use crate::text::{has_substring, str_contains};

verus! {

/// The first capture group of the leftmost match of the regular expression
/// `pattern` in `text`; `None` when the pattern does not compile, does not
/// match, or the group takes no part in the match.
pub uninterp spec fn regex_capture(pattern: Seq<char>, text: Seq<char>) -> Option<Seq<char>>;

/// The text an optional string holds.
pub open spec fn text_view(o: Option<String>) -> Option<Seq<char>> {
    match o {
        Some(s) => Some(s@),
        None => None,
    }
}

/// Relies on `regex::Regex::new` and `Regex::captures`: the first group of
/// the leftmost-first match, which depends on the pattern and the text alone.
#[verifier::external_body]
pub(crate) fn first_capture(pattern: &str, text: &str) -> (r: Option<String>)
    ensures
        text_view(r) == regex_capture(pattern@, text@),
{
    let re = regex::Regex::new(pattern).ok()?;
    let caps = re.captures(text)?;
    caps.get(1).map(|m| m.as_str().to_string())
}

/// The value of a run of decimal digits.
pub open spec fn digits_value(d: Seq<char>) -> int
    decreases d.len(),
{
    if d.len() == 0 {
        0
    } else {
        digits_value(d.drop_last()) * 10 + (d.last() as u32 - '0' as u32)
    }
}

/// Whether `d` is a non-empty run of ASCII decimal digits.
pub open spec fn all_digits(d: Seq<char>) -> bool {
    d.len() > 0 && forall|i: int| 0 <= i < d.len() ==> '0' <= #[trigger] d[i] && d[i] <= '9'
}

/// The `i32` that `s` writes: an optional sign and decimal digits only, in range.
pub open spec fn i32_of_text(s: Seq<char>) -> Option<i32> {
    let negative = s.len() > 0 && s[0] == '-';
    let body = if s.len() > 0 && (s[0] == '-' || s[0] == '+') {
        s.drop_first()
    } else {
        s
    };
    let v = if negative {
        -digits_value(body)
    } else {
        digits_value(body)
    };
    if all_digits(body) && i32::MIN <= v <= i32::MAX {
        Some(v as i32)
    } else {
        None
    }
}

/// The `u64` that `s` writes: an optional `+` and decimal digits only, in range.
pub open spec fn u64_of_text(s: Seq<char>) -> Option<u64> {
    let body = if s.len() > 0 && s[0] == '+' {
        s.drop_first()
    } else {
        s
    };
    if all_digits(body) && digits_value(body) <= u64::MAX {
        Some(digits_value(body) as u64)
    } else {
        None
    }
}

/// Relies on `u64::from_str`: an optional `+` followed by decimal digits
/// only, whose value fits.
#[verifier::external_body]
pub(crate) fn parse_u64(s: &str) -> (r: Option<u64>)
    ensures
        r == u64_of_text(s@),
{
    s.parse::<u64>().ok()
}

/// Relies on `i32::from_str`: an optional `+` or `-` followed by decimal
/// digits only, whose value fits.
#[verifier::external_body]
pub(crate) fn parse_i32(s: &str) -> (r: Option<i32>)
    ensures
        r == i32_of_text(s@),
{
    s.parse::<i32>().ok()
}

/// The number a capture writes, if it writes one.
pub open spec fn captured_i32(c: Option<Seq<char>>) -> Option<i32> {
    match c {
        Some(t) => i32_of_text(t),
        None => None,
    }
}

pub(crate) fn capture_i32(pattern: &str, text: &str) -> (r: Option<i32>)
    ensures
        r == captured_i32(regex_capture(pattern@, text@)),
{
    match first_capture(pattern, text) {
        Some(t) => parse_i32(t.as_str()),
        None => None,
    }
}

/// The part of `l` before its first colon; all of it when it has none.
pub open spec fn before_colon(l: Seq<char>) -> Seq<char>
    decreases l.len(),
{
    if l.len() == 0 {
        l
    } else if l[0] == ':' {
        Seq::empty()
    } else {
        seq![l[0]] + before_colon(l.drop_first())
    }
}

proof fn lemma_before_colon(l: Seq<char>, k: int)
    requires
        0 <= k <= l.len(),
        forall|j: int| 0 <= j < k ==> l[j] != ':',
        k == l.len() || l[k] == ':',
    ensures
        before_colon(l) == l.subrange(0, k),
    decreases l.len(),
{
    if l.len() > 0 && k > 0 {
        lemma_before_colon(l.drop_first(), k - 1);
        assert(seq![l[0]] + l.drop_first().subrange(0, k - 1) =~= l.subrange(0, k));
    } else {
        assert(l.subrange(0, k) =~= Seq::<char>::empty());
    }
}

fn text_before_colon(line: &str) -> (r: String)
    ensures
        r@ == before_colon(line@),
{
    let cs = chars_of(line);
    let mut k: usize = 0;
    while k < cs.len() && cs[k] != ':'
        invariant
            cs@ == line@,
            k <= cs.len(),
            forall|j: int| 0 <= j < k ==> cs@[j] != ':',
        decreases cs.len() - k,
    {
        k = k + 1;
    }
    proof {
        lemma_before_colon(line@, k as int);
    }
    text_of(&cs, 0, k)
}

/// The permissions a package report requests, read from line `i` on:
/// lines holding `: granted=` inside the section opened by a line holding
/// `requested permissions:` and closed by a blank line; each permission is
/// the trimmed text before the first colon, when not empty.
pub open spec fn permissions_from(lines: Seq<Seq<char>>, i: nat, inside: bool) -> Seq<Seq<char>>
    decreases lines.len() - i,
{
    if i >= lines.len() {
        Seq::empty()
    } else {
        let l = lines[i as int];
        if has_substring(l, "requested permissions:"@) {
            permissions_from(lines, i + 1, true)
        } else if inside && trim_spec(l).len() == 0 {
            permissions_from(lines, i + 1, false)
        } else if inside && has_substring(l, ": granted="@) && trim_spec(before_colon(l)).len() > 0 {
            seq![trim_spec(before_colon(l))] + permissions_from(lines, i + 1, inside)
        } else {
            permissions_from(lines, i + 1, inside)
        }
    }
}

/// The activities a package report declares, read from line `i` on: inside
/// the section opened by a line holding `Activity Resolver Table:` and
/// closed by a blank line, each line naming the package gives the first
/// `/`-separated component after a slash.
pub open spec fn activities_from(
    lines: Seq<Seq<char>>,
    package: Seq<char>,
    i: nat,
    inside: bool,
) -> Seq<Seq<char>>
    decreases lines.len() - i,
{
    if i >= lines.len() {
        Seq::empty()
    } else {
        let l = lines[i as int];
        if has_substring(l, "Activity Resolver Table:"@) {
            activities_from(lines, package, i + 1, true)
        } else if inside && trim_spec(l).len() == 0 {
            activities_from(lines, package, i + 1, false)
        } else if inside && has_substring(l, package) && regex_capture(ACTIVITY_PATTERN@, l) is Some {
            seq![regex_capture(ACTIVITY_PATTERN@, l)->0] + activities_from(lines, package, i + 1, inside)
        } else {
            activities_from(lines, package, i + 1, inside)
        }
    }
}

/// The pattern of an activity name in a resolver-table line.
pub const ACTIVITY_PATTERN: &'static str = "/([^/\\s]+)";

/// The patterns of the details a package report gives.
pub const VERSION_NAME_PATTERN: &'static str = "versionName=([^\\s]+)";
pub const VERSION_CODE_PATTERN: &'static str = "versionCode=(\\d+)";
pub const INSTALL_TIME_PATTERN: &'static str = "firstInstallTime=([^\\s]+)";
pub const UPDATE_TIME_PATTERN: &'static str = "lastUpdateTime=([^\\s]+)";
pub const UID_PATTERN: &'static str = "userId=(\\d+)";
pub const TARGET_SDK_PATTERN: &'static str = "targetSdk=(\\d+)";
pub const MIN_SDK_PATTERN: &'static str = "minSdk=(\\d+)";
pub const INSTALLER_PATTERN: &'static str = "installerPackageName=([^\\s]+)";

fn read_permissions(lines: &Vec<String>) -> (r: Vec<String>)
    ensures
        string_views(r@) == permissions_from(string_views(lines@), 0, false),
{
    let ghost ls = string_views(lines@);
    let mut out: Vec<String> = Vec::new();
    let mut inside = false;
    let mut i: usize = 0;
    while i < lines.len()
        invariant
            ls == string_views(lines@),
            i <= lines.len(),
            string_views(out@) + permissions_from(ls, i as nat, inside) == permissions_from(ls, 0, false),
        decreases lines.len() - i,
    {
        let line = lines[i].as_str();
        assert(line@ == ls[i as int]);
        let ghost before = out@;
        if str_contains(line, "requested permissions:") {
            inside = true;
        } else if inside && trim(line).unicode_len() == 0 {
            inside = false;
        } else if inside && str_contains(line, ": granted=") {
            let head = text_before_colon(line);
            let perm = trim(head.as_str());
            if perm.as_str().unicode_len() > 0 {
                out.push(perm);
                assert(string_views(out@) =~= string_views(before).push(perm@));
                assert(string_views(before).push(perm@) + permissions_from(ls, (i + 1) as nat, inside)
                    =~= string_views(before) + (seq![perm@] + permissions_from(ls, (i + 1) as nat, inside)));
            }
        }
        i = i + 1;
    }
    assert(string_views(out@) + permissions_from(ls, i as nat, inside) =~= string_views(out@));
    out
}

fn read_activities(lines: &Vec<String>, package_name: &str) -> (r: Vec<String>)
    ensures
        string_views(r@) == activities_from(string_views(lines@), package_name@, 0, false),
{
    let ghost ls = string_views(lines@);
    let mut out: Vec<String> = Vec::new();
    let mut inside = false;
    let mut i: usize = 0;
    while i < lines.len()
        invariant
            ls == string_views(lines@),
            i <= lines.len(),
            string_views(out@) + activities_from(ls, package_name@, i as nat, inside)
                == activities_from(ls, package_name@, 0, false),
        decreases lines.len() - i,
    {
        let line = lines[i].as_str();
        assert(line@ == ls[i as int]);
        let ghost before = out@;
        if str_contains(line, "Activity Resolver Table:") {
            inside = true;
        } else if inside && trim(line).unicode_len() == 0 {
            inside = false;
        } else if inside && str_contains(line, package_name) {
            match first_capture(ACTIVITY_PATTERN, line) {
                Some(activity) => {
                    let ghost a = activity@;
                    out.push(activity);
                    assert(string_views(out@) =~= string_views(before).push(a));
                    assert(string_views(before).push(a) + activities_from(ls, package_name@, (i + 1) as nat, inside)
                        =~= string_views(before) + (seq![a] + activities_from(ls, package_name@, (i + 1) as nat, inside)));
                },
                None => {},
            }
        }
        i = i + 1;
    }
    assert(string_views(out@) + activities_from(ls, package_name@, i as nat, inside) =~= string_views(out@));
    out
}

/// What a package report (`dumpsys package <name>`) says of the package:
/// each detail from its pattern, the requested permissions, the declared
/// activities, and the report itself as raw data.
pub fn parse_package_report(package_name: &str, output: &str) -> (r: PackageInfo)
    ensures
        r.package_name@ == package_name@,
        holds_text(r.raw_data, Some(output@)),
        text_view(r.version_name) == regex_capture(VERSION_NAME_PATTERN@, output@),
        r.version_code == captured_i32(regex_capture(VERSION_CODE_PATTERN@, output@)),
        text_view(r.install_time) == regex_capture(INSTALL_TIME_PATTERN@, output@),
        text_view(r.update_time) == regex_capture(UPDATE_TIME_PATTERN@, output@),
        r.uid == captured_i32(regex_capture(UID_PATTERN@, output@)),
        r.target_sdk == captured_i32(regex_capture(TARGET_SDK_PATTERN@, output@)),
        r.min_sdk == captured_i32(regex_capture(MIN_SDK_PATTERN@, output@)),
        text_view(r.install_source) == regex_capture(INSTALLER_PATTERN@, output@),
        string_views(r.permissions@) == permissions_from(lines_spec(output@), 0, false),
        string_views(r.activities@) == activities_from(lines_spec(output@), package_name@, 0, false),
        r.flags@.len() == 0 && r.services@.len() == 0,
{
    let mut info = PackageInfo::new(package_name);
    info.raw_data = Some(output.to_owned());
    info.version_name = first_capture(VERSION_NAME_PATTERN, output);
    info.version_code = capture_i32(VERSION_CODE_PATTERN, output);
    info.install_time = first_capture(INSTALL_TIME_PATTERN, output);
    info.update_time = first_capture(UPDATE_TIME_PATTERN, output);
    info.uid = capture_i32(UID_PATTERN, output);
    info.target_sdk = capture_i32(TARGET_SDK_PATTERN, output);
    info.min_sdk = capture_i32(MIN_SDK_PATTERN, output);
    info.install_source = first_capture(INSTALLER_PATTERN, output);
    let lines = split_lines(output);
    info.permissions = read_permissions(&lines);
    info.activities = read_activities(&lines, package_name);
    info
}

/// The pattern of a run of digits.
pub const NUMBER_PATTERN: &'static str = "(\\d+)";

/// The number written by the first run of digits in `s`, when it fits an `i32`.
pub fn extract_number(s: &str) -> (r: Option<i32>)
    ensures
        r == captured_i32(regex_capture(NUMBER_PATTERN@, s@)),
{
    capture_i32(NUMBER_PATTERN, s)
}

} // verus!

use vstd::prelude::*;
use crate::device::{keys_distinct, pairs_map, set_pair, status_of_word, ADBDevice, DeviceStatus};
use crate::lines::{chars_of, text_of, trim_start_spec, split_lines, split_whitespace, lines_spec, tokens_spec, trim, trim_spec};
use crate::text::string_views;
use crate::text::{contains_any, has_substring};

verus! {

/// Whether `s` begins with `p`.
pub open spec fn has_prefix(s: Seq<char>, p: Seq<char>) -> bool {
    p.len() <= s.len() && s.subrange(0, p.len() as int) == p
}

/// `s` with every leading repeat of `p` removed, as `str::trim_start_matches`
/// removes them.
pub open spec fn strip_prefixes(s: Seq<char>, p: Seq<char>) -> Seq<char>
    decreases s.len(),
{
    if p.len() > 0 && has_prefix(s, p) {
        strip_prefixes(s.subrange(p.len() as int, s.len() as int), p)
    } else {
        s
    }
}

/// Whether `text` begins with `prefix`.
pub fn starts_with(text: &str, prefix: &str) -> (r: bool)
    ensures
        r == has_prefix(text@, prefix@),
{
    let t = chars_of(text);
    let p = chars_of(prefix);
    if p.len() > t.len() {
        return false;
    }
    let mut i: usize = 0;
    while i < p.len()
        invariant
            t@ == text@,
            p@ == prefix@,
            p.len() <= t.len(),
            i <= p.len(),
            forall|k: int| 0 <= k < i ==> t@[k] == p@[k],
        decreases p.len() - i,
    {
        if t[i] != p[i] {
            assert(text@.subrange(0, prefix@.len() as int)[i as int] != prefix@[i as int]);
            return false;
        }
        i = i + 1;
    }
    assert(text@.subrange(0, prefix@.len() as int) =~= prefix@);
    true
}

/// `text` with every leading repeat of `prefix` removed.
pub fn trim_start_matches(text: &str, prefix: &str) -> (r: String)
    ensures
        r@ == strip_prefixes(text@, prefix@),
{
    let t = chars_of(text);
    let p = chars_of(prefix);
    let mut a: usize = 0;
    if p.len() == 0 {
        return text.to_owned();
    }
    assert(t@.subrange(0, t.len() as int) =~= t@);
    loop
        invariant
            t@ == text@,
            p@ == prefix@,
            p.len() > 0,
            a <= t.len(),
            strip_prefixes(t@.subrange(a as int, t.len() as int), p@) == strip_prefixes(text@, p@),
        ensures
            a <= t.len(),
            t@.subrange(a as int, t.len() as int) == strip_prefixes(text@, p@),
        decreases t.len() - a,
    {
        let ghost rest = t@.subrange(a as int, t.len() as int);
        if p.len() > t.len() - a {
            assert(!has_prefix(rest, p@));
            break;
        }
        let mut i: usize = 0;
        let mut same = true;
        while i < p.len()
            invariant
                t@ == text@,
                p@ == prefix@,
                p.len() <= t.len() - a,
                i <= p.len(),
                same <==> forall|k: int| 0 <= k < i ==> t@[a + k] == p@[k],
            decreases p.len() - i,
        {
            if t[a + i] != p[i] {
                same = false;
            }
            i = i + 1;
        }
        if !same {
            proof {
                let k = choose|k: int| 0 <= k < p@.len() && t@[a + k] != p@[k];
                assert(rest.subrange(0, p@.len() as int)[k] != p@[k]);
            }
            break;
        }
        assert(rest.subrange(0, p@.len() as int) =~= p@);
        assert(rest.subrange(p@.len() as int, rest.len() as int) =~= t@.subrange(
            a + p.len(),
            t.len() as int,
        ));
        a = a + p.len();
    }
    text_of(&t, a, t.len())
}

/// The first of `parts` that begins with `p`.
pub open spec fn first_with_prefix(parts: Seq<Seq<char>>, p: Seq<char>) -> Option<Seq<char>>
    decreases parts.len(),
{
    if parts.len() == 0 {
        None
    } else if has_prefix(parts[0], p) {
        Some(parts[0])
    } else {
        first_with_prefix(parts.drop_first(), p)
    }
}

/// The value of the `key` detail (`model:`, `product:`, `transport_id:`) of
/// a device line split into words; details are read only when the line has
/// more than the id and the state.
pub open spec fn line_detail(parts: Seq<Seq<char>>, key: Seq<char>) -> Option<Seq<char>> {
    if parts.len() > 2 {
        match first_with_prefix(parts, key) {
            Some(w) => Some(strip_prefixes(w, key)),
            None => None,
        }
    } else {
        None
    }
}

/// Whether an optional text holds exactly the optional value `v`.
pub open spec fn holds_text(o: Option<String>, v: Option<Seq<char>>) -> bool {
    match v {
        Some(t) => o is Some && o->0@ == t,
        None => o is None,
    }
}

/// Whether `d` is the device that a line of the long device list describes:
/// the first word is the id, the second the state, and the model, product
/// and transport id come from the details; the model also names the device.
pub open spec fn describes_line(d: ADBDevice, line: Seq<char>) -> bool {
    let parts = tokens_spec(line);
    &&& parts.len() >= 2
    &&& d.id@ == parts[0]
    &&& status_of_word(d.status, parts[1])
    &&& holds_text(d.model, line_detail(parts, "model:"@))
    &&& d.name@ == match line_detail(parts, "model:"@) {
        Some(m) => m,
        None => "Device "@ + parts[0],
    }
    &&& holds_text(d.product, line_detail(parts, "product:"@))
    &&& holds_text(d.transport_id, line_detail(parts, "transport_id:"@))
    &&& d.properties is None
}

fn find_prefixed(parts: &Vec<String>, prefix: &str) -> (r: Option<usize>)
    ensures
        first_with_prefix(string_views(parts@), prefix@) is None <==> r is None,
        r is Some ==> r->0 < parts.len() && first_with_prefix(string_views(parts@), prefix@)
            == Some(parts@[r->0 as int]@),
{
    let ghost views = string_views(parts@);
    assert(views.subrange(0, views.len() as int) =~= views);
    let mut i: usize = 0;
    while i < parts.len()
        invariant
            views == string_views(parts@),
            i <= parts.len(),
            first_with_prefix(views, prefix@) == first_with_prefix(
                views.subrange(i as int, views.len() as int),
                prefix@,
            ),
        decreases parts.len() - i,
    {
        let ghost rest = views.subrange(i as int, views.len() as int);
        assert(rest[0] == parts@[i as int]@);
        if starts_with(parts[i].as_str(), prefix) {
            return Some(i);
        }
        assert(rest.drop_first() =~= views.subrange(i + 1, views.len() as int));
        i = i + 1;
    }
    None
}

fn read_detail(parts: &Vec<String>, key: &str) -> (r: Option<String>)
    requires
        parts.len() > 2,
    ensures
        holds_text(r, line_detail(string_views(parts@), key@)),
{
    match find_prefixed(parts, key) {
        Some(i) => Some(trim_start_matches(parts[i].as_str(), key)),
        None => None,
    }
}

/// The device that one line of the long device list describes, or `None`
/// for a line of fewer than two words.
pub fn parse_device_line(line: &str) -> (r: Option<ADBDevice>)
    ensures
        r is Some <==> tokens_spec(line@).len() >= 2,
        r is Some ==> describes_line(r->0, line@) && r->0.wf(),
{
    proof {
        reveal_strlit("model:");
        reveal_strlit("product:");
        reveal_strlit("transport_id:");
    }
    let parts = split_whitespace(line);
    let ghost views = string_views(parts@);
    if parts.len() < 2 {
        return None;
    }
    assert(views[0] == parts@[0]@ && views[1] == parts@[1]@);
    let mut device = ADBDevice::new(parts[0].as_str(), DeviceStatus::parse(parts[1].as_str()));
    if parts.len() > 2 {
        match read_detail(&parts, "model:") {
            Some(model) => {
                device = device.with_model(model.as_str());
                device = device.with_name(model.as_str());
            },
            None => {},
        }
        match read_detail(&parts, "product:") {
            Some(product) => {
                device = device.with_product(product.as_str());
            },
            None => {},
        }
        match read_detail(&parts, "transport_id:") {
            Some(transport) => {
                device = device.with_transport_id(transport.as_str());
            },
            None => {},
        }
    }
    Some(device)
}

/// The lines of a list that describe a device: those of two words or more.
pub open spec fn device_lines(lines: Seq<Seq<char>>) -> Seq<Seq<char>>
    decreases lines.len(),
{
    if lines.len() == 0 {
        Seq::empty()
    } else {
        let rest = device_lines(lines.drop_last());
        if tokens_spec(lines.last()).len() >= 2 {
            rest.push(lines.last())
        } else {
            rest
        }
    }
}

/// The lines of the long device list after its heading.
pub open spec fn listing_body(output: Seq<char>) -> Seq<Seq<char>> {
    let ls = lines_spec(output);
    if ls.len() == 0 {
        ls
    } else {
        ls.drop_first()
    }
}

/// The devices of the long device list (`devices -l`): one per line after
/// the heading, skipping lines of fewer than two words.
pub fn parse_device_list(output: &str) -> (r: Vec<ADBDevice>)
    ensures
        r.len() == device_lines(listing_body(output@)).len(),
        forall|i: int|
            0 <= i < r.len() ==> describes_line(#[trigger] r@[i], device_lines(listing_body(output@))[i]),
{
    let lines = split_lines(output);
    let ghost body = listing_body(output@);
    let mut out: Vec<ADBDevice> = Vec::new();
    let mut i: usize = 1;
    while i < lines.len()
        invariant
            string_views(lines@) == lines_spec(output@),
            body == listing_body(output@),
            1 <= i,
            lines.len() > 0 ==> i <= lines.len(),
            lines.len() == 0 ==> i == 1,
            lines.len() > 0 ==> body == string_views(lines@).drop_first(),
            out.len() == device_lines(body.subrange(0, i - 1)).len(),
            forall|j: int|
                0 <= j < out.len() ==> describes_line(#[trigger] out@[j], device_lines(body.subrange(0, i - 1))[j]),
        decreases lines.len() - i,
    {
        let ghost prev = body.subrange(0, i - 1);
        let ghost next = body.subrange(0, i as int);
        assert(next.drop_last() =~= prev);
        assert(next.last() == lines@[i as int]@);
        match parse_device_line(lines[i].as_str()) {
            Some(d) => {
                out.push(d);
            },
            None => {},
        }
        i = i + 1;
    }
    proof {
        if lines.len() > 0 {
            assert(body.subrange(0, i - 1) =~= body);
        } else {
            assert(string_views(lines@).len() == 0);
            assert(body.len() == 0);
            assert(body.subrange(0, i - 1) =~= body);
        }
    }
    out
}

/// The package names that a package listing holds: each line that begins
/// with `package:`, without that prefix (repeated) and surrounding space.
pub open spec fn listed_packages(lines: Seq<Seq<char>>) -> Seq<Seq<char>>
    decreases lines.len(),
{
    if lines.len() == 0 {
        Seq::empty()
    } else {
        let rest = listed_packages(lines.drop_last());
        if has_prefix(lines.last(), "package:"@) {
            rest.push(trim_spec(strip_prefixes(lines.last(), "package:"@)))
        } else {
            rest
        }
    }
}

/// The package names of a package listing (`pm list packages`).
pub fn parse_package_list(output: &str) -> (r: Vec<String>)
    ensures
        string_views(r@) == listed_packages(lines_spec(output@)),
{
    let lines = split_lines(output);
    let mut out: Vec<String> = Vec::new();
    let mut i: usize = 0;
    while i < lines.len()
        invariant
            string_views(lines@) == lines_spec(output@),
            i <= lines.len(),
            string_views(out@) == listed_packages(string_views(lines@).subrange(0, i as int)),
        decreases lines.len() - i,
    {
        let ghost prev = string_views(lines@).subrange(0, i as int);
        let ghost next = string_views(lines@).subrange(0, i + 1);
        assert(next.drop_last() =~= prev);
        assert(next.last() == lines@[i as int]@);
        let line = lines[i].as_str();
        if starts_with(line, "package:") {
            let name = trim_start_matches(line, "package:");
            let name = trim(name.as_str());
            let ghost before = out@;
            out.push(name);
            assert(string_views(out@) =~= string_views(before).push(name@));
        }
        i = i + 1;
    }
    assert(string_views(lines@).subrange(0, i as int) =~= string_views(lines@));
    out
}

/// Whether the output of a launch command reports a failure: it mentions
/// `Error`, `Exception` or `failed`.
pub open spec fn launch_failed_spec(output: Seq<char>) -> bool {
    has_substring(output, "Error"@) || has_substring(output, "Exception"@) || has_substring(
        output,
        "failed"@,
    )
}

/// Whether the output of a launch command reports a failure.
pub fn launch_failed(output: &str) -> (r: bool)
    ensures
        r == launch_failed_spec(output@),
{
    let keywords: [&str; 3] = ["Error", "Exception", "failed"];
    let r = contains_any(output, &keywords);
    proof {
        let k = keywords@;
        assert(k[0]@ == "Error"@ && k[1]@ == "Exception"@ && k[2]@ == "failed"@);
        if launch_failed_spec(output@) {
            if has_substring(output@, "Error"@) {
                assert(has_substring(output@, k[0]@));
            } else if has_substring(output@, "Exception"@) {
                assert(has_substring(output@, k[1]@));
            } else {
                assert(has_substring(output@, k[2]@));
            }
        }
    }
    r
}

/// Whether the output of an existence probe says `exists`, surrounding
/// space aside.
pub fn reports_exists(output: &str) -> (r: bool)
    ensures
        r == (trim_spec(output@) == "exists"@),
{
    let t = trim(output);
    let e = String::from_str("exists");
    t == e
}

/// The first position of `c` in `s`.
pub open spec fn index_of(s: Seq<char>, c: char) -> Option<int>
    decreases s.len(),
{
    if s.len() == 0 {
        None
    } else if s[0] == c {
        Some(0)
    } else {
        match index_of(s.drop_first(), c) {
            Some(i) => Some(i + 1),
            None => None,
        }
    }
}

/// The name and value of a trimmed property line `[name]: [value]`: the
/// name is not empty and holds no `]`, white space may follow the colon,
/// and the value holds no `]`.
pub open spec fn property_entry(l: Seq<char>) -> Option<(Seq<char>, Seq<char>)> {
    match index_of(l, ']') {
        Some(k) => {
            let rest = trim_start_spec(l.subrange(k + 2, l.len() as int));
            if l.len() > 0 && l[0] == '[' && k > 1 && k + 1 < l.len() && l[k + 1] == ':'
                && rest.len() >= 2 && rest[0] == '[' && rest.last() == ']'
                && index_of(rest.subrange(1, rest.len() - 1), ']') is None {
                Some((l.subrange(1, k), rest.subrange(1, rest.len() - 1)))
            } else {
                None
            }
        },
        None => None,
    }
}

/// The properties that the lines of a property listing set, a later line
/// replacing an earlier value of the same name.
pub open spec fn properties_map(lines: Seq<Seq<char>>) -> Map<Seq<char>, Seq<char>>
    decreases lines.len(),
{
    if lines.len() == 0 {
        Map::empty()
    } else {
        let m = properties_map(lines.drop_last());
        match property_entry(trim_spec(lines.last())) {
            Some(e) => m.insert(e.0, e.1),
            None => m,
        }
    }
}

proof fn lemma_index_of(s: Seq<char>, c: char, k: int)
    requires
        0 <= k <= s.len(),
        forall|j: int| 0 <= j < k ==> s[j] != c,
    ensures
        k < s.len() && s[k] == c ==> index_of(s, c) == Some(k),
        k == s.len() ==> index_of(s, c) is None,
    decreases s.len(),
{
    if s.len() > 0 && k > 0 {
        lemma_index_of(s.drop_first(), c, k - 1);
    }
}

fn find_char(cs: &Vec<char>, from: usize, c: char) -> (r: usize)
    requires
        from <= cs.len(),
    ensures
        from <= r <= cs.len(),
        forall|j: int| from <= j < r ==> cs@[j] != c,
        r < cs.len() ==> cs@[r as int] == c,
        r < cs.len() ==> index_of(cs@.subrange(from as int, cs.len() as int), c) == Some(r - from),
        r == cs.len() ==> index_of(cs@.subrange(from as int, cs.len() as int), c) is None,
{
    let mut k = from;
    while k < cs.len() && cs[k] != c
        invariant
            from <= k <= cs.len(),
            forall|j: int| from <= j < k ==> cs@[j] != c,
        decreases cs.len() - k,
    {
        k = k + 1;
    }
    proof {
        let t = cs@.subrange(from as int, cs.len() as int);
        assert forall|j: int| 0 <= j < k - from implies t[j] != c by {
            assert(t[j] == cs@[from + j]);
        }
        if k < cs.len() {
            assert(t[k - from] == cs@[k as int]);
        }
        lemma_index_of(t, c, k - from);
    }
    k
}

/// The texts of an optional pair of strings.
pub open spec fn entry_view(e: Option<(String, String)>) -> Option<(Seq<char>, Seq<char>)> {
    match e {
        Some(p) => Some((p.0@, p.1@)),
        None => None,
    }
}

/// Reads one trimmed property line `[name]: [value]`.
pub fn property_line(line: &str) -> (r: Option<(String, String)>)
    ensures
        entry_view(r) == property_entry(line@),
{
    let cs = chars_of(line);
    let n = cs.len();
    let k = find_char(&cs, 0, ']');
    assert(cs@.subrange(0, n as int) =~= line@);
    if k == n || n == 0 || cs[0] != '[' || k <= 1 || k + 1 >= n || cs[k + 1] != ':' {
        return None;
    }
    let tail = text_of(&cs, k + 2, n);
    let rest_text = crate::lines::trim_start(tail.as_str());
    let rest = chars_of(rest_text.as_str());
    let m = rest.len();
    if m < 2 || rest[0] != '[' || rest[m - 1] != ']' {
        return None;
    }
    let inner_end = find_char(&rest, 1, ']');
    proof {
        let inner = rest@.subrange(1, m - 1);
        assert(rest@.subrange(1, m as int).drop_last() =~= inner);
    }
    if inner_end < m - 1 {
        proof {
            let inner = rest@.subrange(1, m - 1);
            assert(inner[inner_end - 1] == ']');
            assert forall|j: int| 0 <= j < inner_end - 1 implies inner[j] != ']' by {
                assert(inner[j] == rest@[j + 1]);
            }
            lemma_index_of(inner, ']', inner_end - 1);
        }
        return None;
    }
    proof {
        let inner = rest@.subrange(1, m - 1);
        assert forall|j: int| 0 <= j < inner.len() implies inner[j] != ']' by {
            assert(inner[j] == rest@[j + 1]);
        }
        lemma_index_of(inner, ']', inner.len() as int);
    }
    Some((text_of(&cs, 1, k), text_of(&rest, 1, m - 1)))
}

/// The properties of a property listing (`getprop`), one pair per name; a
/// later line replaces an earlier value of the same name, and lines that
/// are not `[name]: [value]` once trimmed are skipped.
pub fn parse_properties(output: &str) -> (r: Vec<(String, String)>)
    ensures
        keys_distinct(r@),
        pairs_map(r@) == properties_map(lines_spec(output@)),
{
    let lines = split_lines(output);
    let ghost ls = string_views(lines@);
    let mut out: Vec<(String, String)> = Vec::new();
    let mut i: usize = 0;
    assert(pairs_map(out@) =~= Map::<Seq<char>, Seq<char>>::empty());
    while i < lines.len()
        invariant
            ls == string_views(lines@),
            ls == lines_spec(output@),
            i <= lines.len(),
            keys_distinct(out@),
            pairs_map(out@) == properties_map(ls.subrange(0, i as int)),
        decreases lines.len() - i,
    {
        let ghost next = ls.subrange(0, i + 1);
        assert(next.drop_last() =~= ls.subrange(0, i as int));
        assert(next.last() == lines@[i as int]@);
        let t = trim(lines[i].as_str());
        match property_line(t.as_str()) {
            Some((k, v)) => {
                set_pair(&mut out, k, v);
            },
            None => {},
        }
        i = i + 1;
    }
    assert(ls.subrange(0, i as int) =~= ls);
    out
}

} // verus!

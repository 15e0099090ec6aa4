//! Text handling of the distro helper tools: package lists, `vulkaninfo` summaries and
//! shell-quoted state files.
use vstd::prelude::*;

verus! {

/// The characters of `s`.
pub fn chars_of(s: &str) -> (v: Vec<char>)
    ensures
        v@ == s@,
{
    let mut v: Vec<char> = Vec::new();
    for c in it: s.chars()
        invariant
            v@ == it.seq().take(it.index() as int),
    {
        v.push(c);
    }
    v
}


/// Unicode white space, as `char::is_whitespace` classifies it.
pub open spec fn is_ws(c: char) -> bool {
    ||| '\t' <= c <= '\r'
    ||| c == ' '
    ||| c == '\u{85}'
    ||| c == '\u{A0}'
    ||| c == '\u{1680}'
    ||| '\u{2000}' <= c <= '\u{200A}'
    ||| c == '\u{2028}'
    ||| c == '\u{2029}'
    ||| c == '\u{202F}'
    ||| c == '\u{205F}'
    ||| c == '\u{3000}'
}

pub fn is_whitespace(c: char) -> (r: bool)
    ensures
        r == is_ws(c),
{
    ('\t' <= c && c <= '\r') || c == ' ' || c == '\u{85}' || c == '\u{A0}' || c == '\u{1680}' || (
    '\u{2000}' <= c && c <= '\u{200A}') || c == '\u{2028}' || c == '\u{2029}' || c == '\u{202F}'
        || c == '\u{205F}' || c == '\u{3000}'
}

/// `s` without leading white space.
pub open spec fn trim_start(s: Seq<char>) -> Seq<char>
    decreases s.len(),
{
    if s.len() > 0 && is_ws(s[0]) {
        trim_start(s.drop_first())
    } else {
        s
    }
}

/// `s` without trailing white space.
pub open spec fn trim_end(s: Seq<char>) -> Seq<char>
    decreases s.len(),
{
    if s.len() > 0 && is_ws(s.last()) {
        trim_end(s.drop_last())
    } else {
        s
    }
}

/// `s` without leading and trailing white space, as `str::trim` gives it.
pub open spec fn trim(s: Seq<char>) -> Seq<char> {
    trim_end(trim_start(s))
}

/// Position of the first `c` in `s` at or after `from`, or the length when there is none.
pub open spec fn find_char(s: Seq<char>, c: char, from: int) -> int
    decreases s.len() - from,
{
    if from >= s.len() {
        s.len() as int
    } else if s[from] == c {
        from
    } else {
        find_char(s, c, from + 1)
    }
}

/// The lines of `s` from position `start` on: pieces between line feeds, without a last empty
/// one after a final line feed.
pub open spec fn lines_from(s: Seq<char>, start: int) -> Seq<Seq<char>>
    decreases s.len() + 1 - start,
{
    if start < 0 || start >= s.len() {
        Seq::empty()
    } else {
        let end = find_char(s, '\n', start);
        proof {
            lemma_find_char(s, '\n', start);
        }
        seq![s.subrange(start, end)] + lines_from(s, end + 1)
    }
}

pub proof fn lemma_find_char(s: Seq<char>, c: char, from: int)
    requires
        0 <= from <= s.len(),
    ensures
        from <= find_char(s, c, from) <= s.len(),
        find_char(s, c, from) < s.len() ==> s[find_char(s, c, from)] == c,
        forall|k: int| from <= k < find_char(s, c, from) ==> s[k] != c,
    decreases s.len() - from,
{
    if from < s.len() && s[from] != c {
        lemma_find_char(s, c, from + 1);
    }
}

/// A text's lines, as `str::lines` splits them once white space at their ends is trimmed
/// (the carriage return of a CR LF ending is white space).
pub open spec fn lines(s: Seq<char>) -> Seq<Seq<char>> {
    lines_from(s, 0)
}

/// The package named on a line: what precedes the first `#`, trimmed.
pub open spec fn package_of(line: Seq<char>) -> Seq<char> {
    trim(line.take(find_char(line, '#', 0)))
}

/// The packages named on `lines`, in order, skipping lines that name none.
pub open spec fn packages_of(lines: Seq<Seq<char>>) -> Seq<Seq<char>>
    decreases lines.len(),
{
    if lines.len() == 0 {
        Seq::empty()
    } else {
        let c = package_of(lines[0]);
        (if c.len() > 0 {
            seq![c]
        } else {
            Seq::empty()
        }) + packages_of(lines.drop_first())
    }
}

/// Strings taken by their characters.
pub open spec fn strings_view(v: Seq<String>) -> Seq<Seq<char>> {
    v.map_values(|x: String| x@)
}

/// Bounds of `s[from..to]` without its leading and trailing white space.
fn trim_bounds(s: &Vec<char>, from: usize, to: usize) -> (r: (usize, usize))
    requires
        from <= to <= s@.len(),
    ensures
        from <= r.0 <= r.1 <= to,
        s@.subrange(r.0 as int, r.1 as int) == trim(s@.subrange(from as int, to as int)),
{
    let mut a = from;
    while a < to && is_whitespace(s[a])
        invariant
            from <= a <= to <= s@.len(),
            trim_start(s@.subrange(from as int, to as int)) == trim_start(s@.subrange(a as int, to as int)),
        decreases to - a,
    {
        assert(s@.subrange(a as int, to as int).drop_first() =~= s@.subrange(a + 1, to as int));
        a += 1;
    }
    assert(trim_start(s@.subrange(a as int, to as int)) == s@.subrange(a as int, to as int));
    let mut b = to;
    while b > a && is_whitespace(s[b - 1])
        invariant
            a <= b <= to <= s@.len(),
            trim_end(s@.subrange(a as int, to as int)) == trim_end(s@.subrange(a as int, b as int)),
        decreases b - a,
    {
        assert(s@.subrange(a as int, b as int).drop_last() =~= s@.subrange(a as int, b - 1));
        b -= 1;
    }
    (a, b)
}

/// Position of the first `c` in `s[from..to]`, or `to` when there is none.
fn find_in(s: &Vec<char>, c: char, from: usize, to: usize) -> (r: usize)
    requires
        from <= to <= s@.len(),
    ensures
        r == find_char(s@.subrange(0, to as int), c, from as int),
        from <= r <= to,
{
    let ghost t = s@.subrange(0, to as int);
    let mut i = from;
    while i < to && s[i] != c
        invariant
            from <= i <= to <= s@.len(),
            t == s@.subrange(0, to as int),
            find_char(t, c, from as int) == find_char(t, c, i as int),
        decreases to - i,
    {
        i += 1;
    }
    i
}

/// A line's characters `s[from..to]` as a `String`.
fn string_of(text: &str, from: usize, to: usize) -> (r: String)
    requires
        from <= to <= text@.len(),
    ensures
        r@ == text@.subrange(from as int, to as int),
{
    String::from_str(text.substring_char(from, to))
}

proof fn lemma_find_char_prefix(s: Seq<char>, c: char, from: int, to: int)
    requires
        0 <= from <= to <= s.len(),
    ensures
        find_char(s.subrange(0, to), c, from) == if find_char(s, c, from) < to {
            find_char(s, c, from)
        } else {
            to
        },
    decreases to - from,
{
    lemma_find_char(s, c, from);
    if from < to && s[from] != c {
        lemma_find_char_prefix(s, c, from + 1, to);
    }
}

proof fn lemma_find_char_sub(s: Seq<char>, c: char, start: int, end: int, k: int)
    requires
        0 <= start <= k <= end <= s.len(),
    ensures
        find_char(s.subrange(start, end), c, k - start) + start == find_char(s.subrange(0, end), c, k),
    decreases end - k,
{
    if k < end && s[k] != c {
        lemma_find_char_sub(s, c, start, end, k + 1);
    }
    if k < end {
        assert(s.subrange(start, end)[k - start] == s[k]);
        assert(s.subrange(0, end)[k] == s[k]);
    }
}

/// The packages that a package list names: each line's text before the first `#`, trimmed,
/// and kept when something is left.
pub fn parse_package_lines(contents: &str) -> (r: Vec<String>)
    ensures
        strings_view(r@) == packages_of(lines(contents@)),
{
    let cs = chars_of(contents);
    let ghost s = contents@;
    let mut result: Vec<String> = Vec::new();
    let mut start = 0usize;
    while start < cs.len()
        invariant
            cs@ == s,
            s == contents@,
            start <= cs@.len(),
            packages_of(lines(s)) == strings_view(result@) + packages_of(lines_from(s, start as int)),
        decreases cs.len() - start,
    {
        let end = find_in(&cs, '\n', start, cs.len());
        proof {
            assert(s.subrange(0, s.len() as int) =~= s);
            lemma_find_char(s, '\n', start as int);
        }
        let hash = find_in(&cs, '#', start, end);
        let (a, b) = trim_bounds(&cs, start, hash);
        let ghost line = s.subrange(start as int, end as int);
        proof {
            lemma_find_char_sub(s, '#', start as int, end as int, start as int);
            assert(line.take(hash - start) =~= s.subrange(start as int, hash as int));
            assert(lines_from(s, start as int) == seq![line] + lines_from(s, end + 1));
            assert((seq![line] + lines_from(s, end + 1)).drop_first() =~= lines_from(s, end + 1));
        }
        let ghost prev = result@;
        if a < b {
            result.push(string_of(contents, a, b));
            assert(strings_view(result@) =~= strings_view(prev) + seq![package_of(line)]);
        } else {
            assert(package_of(line).len() == 0);
        }
        if end < cs.len() {
            start = end + 1;
        } else {
            start = cs.len();
        }
        assert(lines_from(s, start as int) == lines_from(s, end + 1));
    }
    assert(lines_from(s, start as int) =~= Seq::<Seq<char>>::empty());
    assert(strings_view(result@) + Seq::<Seq<char>>::empty() =~= strings_view(result@));
    result
}


/// What `shell_quote` writes for one character: a single quote closes the quoted run, is
/// written in double quotes, and reopens the run.
pub open spec fn quote_piece(c: char) -> Seq<char> {
    if c == '\'' {
        seq!['\'', '"', '\'', '"', '\'']
    } else {
        seq![c]
    }
}

/// The characters of `s` with each single quote written as `'"'"'`.
pub open spec fn quote_escaped(s: Seq<char>) -> Seq<char>
    decreases s.len(),
{
    if s.len() == 0 {
        Seq::empty()
    } else {
        quote_escaped(s.drop_last()) + quote_piece(s.last())
    }
}

/// `s` as one single-quoted shell word.
pub open spec fn shell_quoted(s: Seq<char>) -> Seq<char> {
    seq!['\''] + quote_escaped(s) + seq!['\'']
}

/// Quotes `value` for a POSIX shell: the whole in single quotes, each single quote inside
/// written as `'"'"'`.
pub fn shell_quote(value: &str) -> (r: String)
    ensures
        r@ == shell_quoted(value@),
{
    let cs = chars_of(value);
    let ghost s = value@;
    let mut out = String::from_str("'");
    proof {
        reveal_strlit("'");
        reveal_strlit("'\"'\"'");
    }
    let mut run_start = 0usize;
    let mut i = 0usize;
    while i < cs.len()
        invariant
            cs@ == s,
            s == value@,
            run_start <= i <= s.len(),
            out@ == seq!['\''] + quote_escaped(s.take(run_start as int)),
            quote_escaped(s.take(i as int)) == quote_escaped(s.take(run_start as int)) + s.subrange(
                run_start as int,
                i as int,
            ),
        decreases cs.len() - i,
    {
        assert(s.take(i + 1).drop_last() =~= s.take(i as int));
        assert(s.take(i + 1).last() == s[i as int]);
        assert(quote_escaped(s.take(i + 1)) == quote_escaped(s.take(i as int)) + quote_piece(s[i as int]));
        if cs[i] == '\'' {
            let ghost before = out@;
            out.append(value.substring_char(run_start, i));
            out.append("'\"'\"'");
            proof {
                broadcast use vstd::string::group_string_axioms;

                reveal_strlit("'\"'\"'");
                assert("'\"'\"'"@ =~= seq!['\'', '"', '\'', '"', '\'']);
            }
            assert(out@ =~= before + s.subrange(run_start as int, i as int) + quote_piece(s[i as int]));
            i += 1;
            run_start = i;
            assert(out@ =~= seq!['\''] + quote_escaped(s.take(run_start as int)));
            assert(s.subrange(run_start as int, i as int) =~= Seq::<char>::empty());
            assert(quote_escaped(s.take(i as int)) =~= quote_escaped(s.take(run_start as int)) + s.subrange(
                run_start as int,
                i as int,
            ));
        } else {
            i += 1;
            assert(quote_escaped(s.take(i as int)) =~= quote_escaped(s.take(run_start as int)) + s.subrange(
                run_start as int,
                i as int,
            ));
        }
    }
    out.append(value.substring_char(run_start, i));
    out.append("'");
    assert(s.take(i as int) =~= s);
    assert(out@ =~= shell_quoted(s));
    out
}

/// `1` for `true`, `0` for `false`.
pub fn bool_as_int(value: bool) -> (r: u8)
    ensures
        r == (if value {
            1u8
        } else {
            0u8
        }),
{
    if value {
        1
    } else {
        0
    }
}

/// What is known of one device while a `vulkaninfo --summary` listing is read.
#[derive(Default)]
pub struct VulkanDeviceRecord {
    pub device_type: Option<String>,
    pub name: Option<String>,
}

/// A device kept from the listing.
#[derive(Clone)]
pub struct PhysicalDevice {
    pub name: String,
}

/// An optional string taken by its characters.
pub open spec fn opt_view(o: Option<String>) -> Option<Seq<char>> {
    match o {
        Some(x) => Some(x@),
        None => None,
    }
}

/// A record taken by its characters: device type, then name.
pub open spec fn record_view(r: VulkanDeviceRecord) -> (Option<Seq<char>>, Option<Seq<char>>) {
    (opt_view(r.device_type), opt_view(r.name))
}

/// The device names of a list.
pub open spec fn device_names(v: Seq<PhysicalDevice>) -> Seq<Seq<char>> {
    v.map_values(|d: PhysicalDevice| d.name@)
}

/// What a finished record adds to the device list: its name (or `unnamed-vulkan-device`)
/// when its type is a discrete or an integrated GPU, else nothing.
pub open spec fn device_of(rec: (Option<Seq<char>>, Option<Seq<char>>)) -> Seq<Seq<char>> {
    match rec.0 {
        None => Seq::empty(),
        Some(t) => if t == "PHYSICAL_DEVICE_TYPE_DISCRETE_GPU"@ || t
            == "PHYSICAL_DEVICE_TYPE_INTEGRATED_GPU"@ {
            seq![
                match rec.1 {
                    Some(n) => n,
                    None => "unnamed-vulkan-device"@,
                },
            ]
        } else {
            Seq::empty()
        },
    }
}

/// Whether a line opens a new device: trimmed, it starts with `GPU` and ends with `:`.
pub open spec fn is_device_header(line: Seq<char>) -> bool {
    let t = trim(line);
    &&& t.len() >= 3
    &&& t.take(3) == "GPU"@
    &&& t.last() == ':'
}

/// A record after a `key = value` line (trimmed, split at the first `=`, both sides trimmed):
/// `deviceType` and `deviceName` set their field, other lines change nothing.
pub open spec fn apply_line(rec: (Option<Seq<char>>, Option<Seq<char>>), line: Seq<char>) -> (Option<Seq<char>>, Option<Seq<char>>) {
    let t = trim(line);
    let eq = find_char(t, '=', 0);
    if eq < t.len() {
        let key = trim(t.take(eq));
        let value = trim(t.skip(eq + 1));
        if key == "deviceType"@ {
            (Some(value), rec.1)
        } else if key == "deviceName"@ {
            (rec.0, Some(value))
        } else {
            rec
        }
    } else {
        rec
    }
}

/// The devices that the rest of a listing adds, given the record in progress.
pub open spec fn devices_from(lines: Seq<Seq<char>>, rec: (Option<Seq<char>>, Option<Seq<char>>)) -> Seq<Seq<char>>
    decreases lines.len(),
{
    if lines.len() == 0 {
        device_of(rec)
    } else if is_device_header(lines[0]) {
        device_of(rec) + devices_from(lines.drop_first(), (None, None))
    } else {
        devices_from(lines.drop_first(), apply_line(rec, lines[0]))
    }
}

/// Whether two strings are equal.
fn string_eq(a: &String, b: &String) -> (r: bool)
    ensures
        r == (a@ == b@),
{
    a.eq(b)
}

/// Adds the device that `record` describes, if it is a discrete or an integrated GPU.
pub fn push_physical_device(devices: &mut Vec<PhysicalDevice>, record: &VulkanDeviceRecord)
    ensures
        device_names(final(devices)@) == device_names(old(devices)@) + device_of(record_view(*record)),
{
    let device_type = match &record.device_type {
        Some(t) => t,
        None => {
            assert(device_names(devices@) + Seq::<Seq<char>>::empty() =~= device_names(devices@));
            return;
        },
    };
    let discrete = String::from_str("PHYSICAL_DEVICE_TYPE_DISCRETE_GPU");
    let integrated = String::from_str("PHYSICAL_DEVICE_TYPE_INTEGRATED_GPU");
    if !string_eq(device_type, &discrete) && !string_eq(device_type, &integrated) {
        assert(device_names(devices@) + Seq::<Seq<char>>::empty() =~= device_names(devices@));
        return;
    }
    let name = match &record.name {
        Some(n) => n.clone(),
        None => String::from_str("unnamed-vulkan-device"),
    };
    let ghost before = devices@;
    devices.push(PhysicalDevice { name });
    assert(device_names(devices@) =~= device_names(before) + device_of(record_view(*record)));
}

/// Whether `s[from..to]` spells `lit`.
fn chars_match(s: &Vec<char>, from: usize, to: usize, lit: &Vec<char>) -> (r: bool)
    requires
        from <= to <= s@.len(),
    ensures
        r == (s@.subrange(from as int, to as int) == lit@),
{
    if to - from != lit.len() {
        return false;
    }
    let mut i = 0usize;
    while i < lit.len()
        invariant
            from + lit@.len() == to <= s@.len(),
            i <= lit@.len(),
            s@.subrange(from as int, from + i) == lit@.take(i as int),
        decreases lit.len() - i,
    {
        if s[from + i] != lit[i] {
            assert(s@.subrange(from as int, to as int)[i as int] != lit@[i as int]);
            return false;
        }
        assert(s@.subrange(from as int, from + i + 1) =~= lit@.take(i + 1));
        i += 1;
    }
    assert(lit@.take(i as int) =~= lit@);
    true
}


/// One line of a `vulkaninfo --summary` listing, applied to the record in progress: a device
/// header finishes the record into the device list and starts an empty one; any other line
/// updates the record.
fn scan_device_line(
    summary: &str,
    cs: &Vec<char>,
    start: usize,
    end: usize,
    gpu: &Vec<char>,
    device_type_key: &Vec<char>,
    device_name_key: &Vec<char>,
    current: &mut VulkanDeviceRecord,
    devices: &mut Vec<PhysicalDevice>,
)
    requires
        cs@ == summary@,
        start <= end <= cs@.len(),
        gpu@ == "GPU"@,
        device_type_key@ == "deviceType"@,
        device_name_key@ == "deviceName"@,
    ensures
        is_device_header(cs@.subrange(start as int, end as int)) ==> {
            &&& device_names(final(devices)@) == device_names(old(devices)@) + device_of(record_view(*old(current)))
            &&& record_view(*final(current)) == (None::<Seq<char>>, None::<Seq<char>>)
        },
        !is_device_header(cs@.subrange(start as int, end as int)) ==> {
            &&& final(devices)@ == old(devices)@
            &&& record_view(*final(current)) == apply_line(record_view(*old(current)), cs@.subrange(start as int, end as int))
        },
{
    let ghost s = cs@;
    let ghost line = s.subrange(start as int, end as int);
    let (a, b) = trim_bounds(cs, start, end);
    assert(trim(line) == s.subrange(a as int, b as int));
    let header = b - a >= 3 && chars_match(cs, a, a + 3, gpu) && cs[b - 1] == ':';
    proof {
        if b - a >= 3 {
            assert(trim(line).take(3) =~= s.subrange(a as int, a + 3));
        }
    }
    if header {
        push_physical_device(devices, current);
        *current = VulkanDeviceRecord { device_type: None, name: None };
        return;
    }
    let eq = find_in(cs, '=', a, b);
    proof {
        lemma_find_char_sub(s, '=', a as int, b as int, a as int);
        assert(s.subrange(0, b as int).subrange(0, b as int) =~= s.subrange(0, b as int));
    }
    if eq < b {
        let (ka, kb) = trim_bounds(cs, a, eq);
        let (va, vb) = trim_bounds(cs, eq + 1, b);
        proof {
            assert(trim(line).take(eq - a) =~= s.subrange(a as int, eq as int));
            assert(trim(line).skip(eq - a + 1) =~= s.subrange(eq + 1, b as int));
        }
        if chars_match(cs, ka, kb, device_type_key) {
            current.device_type = Some(string_of(summary, va, vb));
        } else if chars_match(cs, ka, kb, device_name_key) {
            current.name = Some(string_of(summary, va, vb));
        }
    }
}

/// The GPUs that a `vulkaninfo --summary` listing reports: a line `GPU...:` starts a device,
/// `deviceType = ...` and `deviceName = ...` lines fill it in, and only discrete and integrated
/// GPUs are kept.
pub fn parse_physical_devices(summary: &str) -> (r: Vec<PhysicalDevice>)
    ensures
        device_names(r@) == devices_from(lines(summary@), (None, None)),
{
    let cs = chars_of(summary);
    let gpu = chars_of("GPU");
    let device_type_key = chars_of("deviceType");
    let device_name_key = chars_of("deviceName");
    let ghost s = summary@;
    let mut current = VulkanDeviceRecord { device_type: None, name: None };
    let mut devices: Vec<PhysicalDevice> = Vec::new();
    let mut start = 0usize;
    while start < cs.len()
        invariant
            cs@ == s,
            s == summary@,
            gpu@ == "GPU"@,
            device_type_key@ == "deviceType"@,
            device_name_key@ == "deviceName"@,
            start <= cs@.len(),
            devices_from(lines(s), (None, None)) == device_names(devices@) + devices_from(
                lines_from(s, start as int),
                record_view(current),
            ),
        decreases cs.len() - start,
    {
        let end = find_in(&cs, '\n', start, cs.len());
        proof {
            assert(s.subrange(0, s.len() as int) =~= s);
            lemma_find_char(s, '\n', start as int);
        }
        let ghost line = s.subrange(start as int, end as int);
        let ghost rest = lines_from(s, end + 1);
        proof {
            assert(lines_from(s, start as int) == seq![line] + rest);
            assert((seq![line] + rest).drop_first() =~= rest);
        }
        let ghost prev_devices = devices@;
        let ghost prev_rec = record_view(current);
        scan_device_line(summary, &cs, start, end, &gpu, &device_type_key, &device_name_key, &mut current, &mut devices);
        proof {
            if is_device_header(line) {
                assert(device_names(devices@) == device_names(prev_devices) + device_of(prev_rec));
                assert(device_names(devices@) + devices_from(rest, record_view(current)) =~= device_names(prev_devices) + (device_of(prev_rec) + devices_from(rest, (None, None))));
            }
        }
        if end < cs.len() {
            start = end + 1;
        } else {
            start = cs.len();
        }
        assert(lines_from(s, start as int) == rest);
    }
    push_physical_device(&mut devices, &current);
    assert(lines_from(s, start as int) =~= Seq::<Seq<char>>::empty());
    devices
}

/// The `RADV_PERFTEST` options that the state file hands to the Vulkan driver.
pub const RADV_PERFTEST: &'static str = "aco,nv_ms";

/// How the Vulkan probe ended.
#[derive(Clone, Copy, Debug, PartialEq, Eq, Structural)]
pub enum VulkanStatus {
    Ready,
    MissingVulkaninfo,
    NoVulkanDevice,
    NoRenderNode,
    VulkaninfoFailed,
}

/// The name of a status as the state file and the log show it.
pub open spec fn status_text(st: VulkanStatus) -> Seq<char> {
    match st {
        VulkanStatus::Ready => "ready"@,
        VulkanStatus::MissingVulkaninfo => "missing-vulkaninfo"@,
        VulkanStatus::NoVulkanDevice => "no-vulkan-device"@,
        VulkanStatus::NoRenderNode => "no-render-node"@,
        VulkanStatus::VulkaninfoFailed => "vulkaninfo-failed"@,
    }
}

impl VulkanStatus {
    pub fn as_str(self) -> (r: &'static str)
        ensures
            r@ == status_text(self),
    {
        proof {
            reveal_strlit("ready");
            reveal_strlit("missing-vulkaninfo");
            reveal_strlit("no-vulkan-device");
            reveal_strlit("no-render-node");
            reveal_strlit("vulkaninfo-failed");
        }
        match self {
            VulkanStatus::Ready => "ready",
            VulkanStatus::MissingVulkaninfo => "missing-vulkaninfo",
            VulkanStatus::NoVulkanDevice => "no-vulkan-device",
            VulkanStatus::NoRenderNode => "no-render-node",
            VulkanStatus::VulkaninfoFailed => "vulkaninfo-failed",
        }
    }
}

/// The probe's verdict from the device and render node counts.
pub open spec fn vulkan_status_spec(device_count: nat, render_node_count: nat) -> VulkanStatus {
    if device_count == 0 {
        VulkanStatus::NoVulkanDevice
    } else if render_node_count == 0 {
        VulkanStatus::NoRenderNode
    } else {
        VulkanStatus::Ready
    }
}

pub fn vulkan_status(device_count: usize, render_node_count: usize) -> (r: VulkanStatus)
    ensures
        r == vulkan_status_spec(device_count as nat, render_node_count as nat),
{
    if device_count == 0 {
        VulkanStatus::NoVulkanDevice
    } else if render_node_count == 0 {
        VulkanStatus::NoRenderNode
    } else {
        VulkanStatus::Ready
    }
}

/// The status follows the devices first: with no Vulkan device the GPU is absent whatever
/// render nodes exist; a missing render node is reported only where Vulkan lists a device;
/// and only devices together with render nodes make the probe ready.
pub proof fn lemma_vulkan_status_order(device_count: nat, render_node_count: nat)
    ensures
        device_count == 0 ==> vulkan_status_spec(device_count, render_node_count)
            == VulkanStatus::NoVulkanDevice,
        vulkan_status_spec(device_count, render_node_count) == VulkanStatus::NoRenderNode <==> (
        device_count > 0 && render_node_count == 0),
        vulkan_status_spec(device_count, render_node_count) == VulkanStatus::Ready <==> (device_count
            > 0 && render_node_count > 0),
        vulkan_status_spec(device_count, render_node_count) != VulkanStatus::MissingVulkaninfo,
        vulkan_status_spec(device_count, render_node_count) != VulkanStatus::VulkaninfoFailed,
{
}

/// What the Vulkan probe found.
pub struct VulkanProbe {
    pub offload_enabled: bool,
    pub status: VulkanStatus,
    pub device_count: usize,
    pub render_node_count: usize,
    pub device_names: Vec<String>,
}

/// The probe when `vulkaninfo` is not installed: offload off, no devices.
pub fn probe_without_vulkaninfo(render_node_count: usize) -> (r: VulkanProbe)
    ensures
        !r.offload_enabled,
        r.status == VulkanStatus::MissingVulkaninfo,
        r.device_count == 0,
        r.render_node_count == render_node_count,
        r.device_names@.len() == 0,
{
    VulkanProbe {
        offload_enabled: false,
        status: VulkanStatus::MissingVulkaninfo,
        device_count: 0,
        render_node_count,
        device_names: Vec::new(),
    }
}

/// The probe when `vulkaninfo --summary` ran and failed: offload off, no devices.
pub fn probe_after_failed_run(render_node_count: usize) -> (r: VulkanProbe)
    ensures
        !r.offload_enabled,
        r.status == VulkanStatus::VulkaninfoFailed,
        r.device_count == 0,
        r.render_node_count == render_node_count,
        r.device_names@.len() == 0,
{
    VulkanProbe {
        offload_enabled: false,
        status: VulkanStatus::VulkaninfoFailed,
        device_count: 0,
        render_node_count,
        device_names: Vec::new(),
    }
}

/// The probe from a successful `vulkaninfo --summary` listing and the render node count:
/// the GPUs it lists, and offload on exactly when there are GPUs and render nodes.
pub fn probe_from_summary(summary: &str, render_node_count: usize) -> (r: VulkanProbe)
    ensures
        crate::text::strings_of(r.device_names@) == devices_from(lines(summary@), (None, None)),
        r.device_count == r.device_names@.len(),
        r.render_node_count == render_node_count,
        r.status == vulkan_status_spec(r.device_count as nat, render_node_count as nat),
        r.offload_enabled == (r.status == VulkanStatus::Ready),
{
    let devices = parse_physical_devices(summary);
    let mut names: Vec<String> = Vec::new();
    let mut i: usize = 0;
    while i < devices.len()
        invariant
            i <= devices@.len(),
            names@.len() == i,
            forall|j: int| 0 <= j < i ==> #[trigger] names@[j]@ == devices@[j].name@,
        decreases devices@.len() - i,
    {
        names.push(devices[i].name.clone());
        i = i + 1;
    }
    assert(crate::text::strings_of(names@) =~= device_names(devices@));
    let device_count = names.len();
    let status = vulkan_status(device_count, render_node_count);
    let ready = device_count != 0 && render_node_count != 0;
    VulkanProbe { offload_enabled: ready, status, device_count, render_node_count, device_names: names }
}

/// The device names as the state file lists them: joined by `;`, or `none`.
pub open spec fn names_field(names: Seq<Seq<char>>) -> Seq<char> {
    if names.len() == 0 {
        "none"@
    } else {
        crate::text::joined(names, ";"@)
    }
}

/// The state file, one `KEY=value` line each: the offload flag (twice, also as the Intel
/// compute flag), the quoted status, the two counts, the quoted device names and the quoted
/// `RADV_PERFTEST` options.
pub open spec fn vulkan_state_text(probe: VulkanProbe) -> Seq<char> {
    let flag = crate::text::decimal(if probe.offload_enabled { 1nat } else { 0nat });
    "TUFF_VULKAN_OFFLOAD="@ + flag + seq!['\n'] + "TUFF_INTEL_COMPUTE_ACTIVE="@ + flag + seq!['\n']
        + "TUFF_VULKAN_STATUS="@ + shell_quoted(status_text(probe.status)) + seq!['\n']
        + "TUFF_VULKAN_DEVICE_COUNT="@ + crate::text::decimal(probe.device_count as nat) + seq!['\n']
        + "TUFF_VULKAN_RENDER_NODE_COUNT="@ + crate::text::decimal(probe.render_node_count as nat)
        + seq!['\n'] + "TUFF_VULKAN_DEVICE_NAMES="@ + shell_quoted(
        names_field(crate::text::strings_of(probe.device_names@)),
    ) + seq!['\n'] + "RADV_PERFTEST="@ + shell_quoted("aco,nv_ms"@) + seq!['\n']
}

/// The contents of the Vulkan state file for a probe.
pub fn vulkan_state_content(probe: &VulkanProbe) -> (r: String)
    ensures
        r@ == vulkan_state_text(*probe),
{
    proof {
        reveal_strlit("\n");
        reveal_strlit("none");
    }
    let device_names = if probe.device_names.len() == 0 {
        String::from_str("none")
    } else {
        let mut joined = String::new();
        crate::text::push_joined(&mut joined, &probe.device_names, ";");
        joined
    };
    let flag = bool_as_int(probe.offload_enabled) as u64;
    let mut out = String::from_str("TUFF_VULKAN_OFFLOAD=");
    crate::text::push_decimal(&mut out, flag);
    out.append("\n");
    out.append("TUFF_INTEL_COMPUTE_ACTIVE=");
    crate::text::push_decimal(&mut out, flag);
    out.append("\n");
    out.append("TUFF_VULKAN_STATUS=");
    let status = shell_quote(probe.status.as_str());
    out.append(status.as_str());
    out.append("\n");
    out.append("TUFF_VULKAN_DEVICE_COUNT=");
    crate::text::push_decimal(&mut out, probe.device_count as u64);
    out.append("\n");
    out.append("TUFF_VULKAN_RENDER_NODE_COUNT=");
    crate::text::push_decimal(&mut out, probe.render_node_count as u64);
    out.append("\n");
    out.append("TUFF_VULKAN_DEVICE_NAMES=");
    let names = shell_quote(device_names.as_str());
    out.append(names.as_str());
    out.append("\n");
    out.append("RADV_PERFTEST=");
    let perftest = shell_quote(RADV_PERFTEST);
    out.append(perftest.as_str());
    out.append("\n");
    proof {
        reveal_strlit("aco,nv_ms");
    }
    assert(out@ =~= vulkan_state_text(*probe));
    out
}

/// Whether a `/dev/dri` entry is a render node.
pub open spec fn is_render_node_name(name: Seq<char>) -> bool {
    name.len() >= 7 && name.take(7) == "renderD"@
}

/// How many of the entry names are render nodes.
pub open spec fn render_node_count_of(names: Seq<Seq<char>>) -> nat
    decreases names.len(),
{
    if names.len() == 0 {
        0
    } else {
        render_node_count_of(names.drop_last()) + if is_render_node_name(names.last()) {
            1nat
        } else {
            0nat
        }
    }
}

/// The number of render nodes among the entries of `/dev/dri`.
pub fn count_render_nodes(entries: &Vec<String>) -> (r: usize)
    ensures
        r == render_node_count_of(crate::text::strings_of(entries@)),
{
    let prefix = chars_of("renderD");
    proof {
        reveal_strlit("renderD");
    }
    let mut count: usize = 0;
    let mut i: usize = 0;
    while i < entries.len()
        invariant
            i <= entries@.len(),
            prefix@ == "renderD"@,
            count <= i,
            count == render_node_count_of(crate::text::strings_of(entries@.take(i as int))),
        decreases entries@.len() - i,
    {
        let name = chars_of(entries[i].as_str());
        let mut is_node = name.len() >= 7;
        if is_node {
            is_node = chars_match(&name, 0, 7, &prefix);
        }
        proof {
            let t = crate::text::strings_of(entries@.take(i + 1));
            assert(t.drop_last() =~= crate::text::strings_of(entries@.take(i as int)));
            assert(t.last() == entries@[i as int]@);
            if name@.len() >= 7 {
                assert(name@.subrange(0, 7) =~= name@.take(7));
            }
        }
        if is_node {
            count = count + 1;
        }
        i = i + 1;
    }
    assert(entries@.take(entries@.len() as int) =~= entries@);
    count
}

/// The line the Vulkan set-up prints for a probe.
pub open spec fn vulkan_report(probe: VulkanProbe) -> Seq<char> {
    let nodes = crate::text::decimal(probe.render_node_count as nat);
    let devices = crate::text::decimal(probe.device_count as nat);
    match probe.status {
        VulkanStatus::Ready => "[SUCCESS] Vulkan ACTIVE. devices="@ + devices + " render-nodes="@ + nodes
            + " names="@ + crate::text::joined(crate::text::strings_of(probe.device_names@), ", "@),
        VulkanStatus::MissingVulkaninfo => "[WARN] vulkaninfo is missing. render-nodes="@ + nodes
            + " GPU offload disabled."@,
        VulkanStatus::NoVulkanDevice => "[INFO] No Vulkan-compatible GPU detected. render-nodes="@
            + nodes + " CPU fallback remains active."@,
        VulkanStatus::NoRenderNode => "[WARN] Vulkan reported "@ + devices
            + " device(s), but /dev/dri/renderD* is missing."@,
        VulkanStatus::VulkaninfoFailed => "[WARN] vulkaninfo failed after detecting "@ + nodes
            + " render node(s). GPU offload disabled."@,
    }
}

/// The line to print for a probe.
pub fn vulkan_report_line(probe: &VulkanProbe) -> (r: String)
    ensures
        r@ == vulkan_report(*probe),
{
    let nodes = probe.render_node_count as u64;
    let devices = probe.device_count as u64;
    match probe.status {
        VulkanStatus::Ready => {
            let mut out = String::from_str("[SUCCESS] Vulkan ACTIVE. devices=");
            crate::text::push_decimal(&mut out, devices);
            out.append(" render-nodes=");
            crate::text::push_decimal(&mut out, nodes);
            out.append(" names=");
            crate::text::push_joined(&mut out, &probe.device_names, ", ");
            out
        },
        VulkanStatus::MissingVulkaninfo => {
            let mut out = String::from_str("[WARN] vulkaninfo is missing. render-nodes=");
            crate::text::push_decimal(&mut out, nodes);
            out.append(" GPU offload disabled.");
            out
        },
        VulkanStatus::NoVulkanDevice => {
            let mut out = String::from_str("[INFO] No Vulkan-compatible GPU detected. render-nodes=");
            crate::text::push_decimal(&mut out, nodes);
            out.append(" CPU fallback remains active.");
            out
        },
        VulkanStatus::NoRenderNode => {
            let mut out = String::from_str("[WARN] Vulkan reported ");
            crate::text::push_decimal(&mut out, devices);
            out.append(" device(s), but /dev/dri/renderD* is missing.");
            out
        },
        VulkanStatus::VulkaninfoFailed => {
            let mut out = String::from_str("[WARN] vulkaninfo failed after detecting ");
            crate::text::push_decimal(&mut out, nodes);
            out.append(" render node(s). GPU offload disabled.");
            out
        },
    }
}

} // verus!

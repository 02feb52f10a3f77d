//! Path segments of an application tree: which ones an action may use, how
//! templates match them, and how long runtime names are shortened.

use crate::text;
use crate::text::Edge;
use vstd::prelude::*;
use vstd::string::*;
use vstd::utf8::*;

verus! {

/// The longest segment, in bytes.
pub const MAX_SEGMENT_BYTES: usize = 255;

/// The hash of the empty input.
pub const FNV_OFFSET_BASIS: u64 = 0xcbf29ce484222325;

pub const FNV_PRIME: u64 = 0x100000001b3;

/// The bytes that a shortened name spends on its hash: an underscore and
/// sixteen digits.
pub const SUFFIX_BYTES: usize = 17;

/// The 64-bit FNV-1a hash of `input`.
pub open spec fn fnv1a(input: Seq<u8>) -> u64
    decreases input.len(),
{
    if input.len() == 0 {
        FNV_OFFSET_BASIS
    } else {
        (fnv1a(input.drop_last()) ^ (input.last() as u64)).wrapping_mul(FNV_PRIME)
    }
}

/// The longest prefix of `s` that takes at most `budget` bytes.
pub open spec fn fitting(s: Seq<char>, budget: int) -> Seq<char>
    decreases s.len(),
{
    if s.len() == 0 || text::char_width(s[0]) > budget {
        Seq::<char>::empty()
    } else {
        seq![s[0]] + fitting(s.drop_first(), budget - text::char_width(s[0]))
    }
}

pub open spec fn shorten_hash(s: Seq<char>) -> Seq<char> {
    text::hex16(fnv1a(encode_utf8(s)))
}

pub open spec fn shorten_budget(max_bytes: int) -> int {
    if max_bytes >= SUFFIX_BYTES {
        max_bytes - SUFFIX_BYTES
    } else {
        0
    }
}

/// `s` where it takes at most `max_bytes` bytes; else the prefix that fits in
/// front of an underscore and the hash of `s`, or the bare hash where no
/// character fits.
pub open spec fn shortened(s: Seq<char>, max_bytes: int) -> Seq<char> {
    if text::utf8_len(s) <= max_bytes {
        s
    } else {
        let prefix = fitting(s, shorten_budget(max_bytes));
        if prefix.len() == 0 {
            shorten_hash(s)
        } else {
            prefix + seq!['_'] + shorten_hash(s)
        }
    }
}

/// A template segment such as `{contact}`, which any one segment matches.
pub open spec fn placeholder(segment: Seq<char>) -> bool {
    text::utf8_len(segment) >= 3 && segment[0] == '{' && segment.last() == '}'
}

pub open spec fn segment_matches(template: Seq<char>, segment: Seq<char>) -> bool {
    if placeholder(template) {
        segment.len() > 0
    } else {
        template == segment
    }
}

pub open spec fn segments_match(template: Seq<Seq<char>>, path: Seq<Seq<char>>) -> bool {
    &&& template.len() == path.len()
    &&& forall|i: int|
        0 <= i < template.len() ==> #[trigger] segment_matches(template[i], path[i])
}

/// Whether `path` is an instance of `template`, slashes at the ends aside.
pub open spec fn template_matches(template: Seq<char>, path: Seq<char>) -> bool {
    let t = text::trim_both(template, Edge::Slash);
    let p = text::trim_both(path, Edge::Slash);
    t.len() > 0 && p.len() > 0 && segments_match(text::split(t, '/'), text::split(p, '/'))
}

pub open spec fn allowed_char(c: char) -> bool {
    text::is_ascii_alnum(c) || c == '.' || c == '_' || c == '-' || c == '~'
}

pub open spec fn all_allowed(segment: Seq<char>) -> bool {
    forall|i: int| 0 <= i < segment.len() ==> allowed_char(#[trigger] segment[i])
}

pub open spec fn drive_letter(segment: Seq<char>) -> bool {
    segment.len() >= 2 && ('a' <= segment[0] <= 'z' || 'A' <= segment[0] <= 'Z') && segment[1]
        == ':'
}

pub open spec fn upper(s: Seq<char>) -> Seq<char> {
    Seq::new(s.len(), |i: int| text::ascii_upper(s[i]))
}

/// The device names that Windows reserves, in capitals.
pub open spec fn device_name(u: Seq<char>) -> bool {
    ||| u == "CON"@
    ||| u == "PRN"@
    ||| u == "AUX"@
    ||| u == "NUL"@
    ||| u.len() == 4 && (u.take(3) == "COM"@ || u.take(3) == "LPT"@) && '1' <= u[3] <= '9'
}

pub open spec fn reserved_name(segment: Seq<char>) -> bool {
    device_name(upper(segment))
}

/// A segment that an action path may hold.
pub open spec fn safe_segment(segment: Seq<char>) -> bool {
    &&& segment.len() > 0
    &&& segment != "."@
    &&& segment != ".."@
    &&& !segment.contains('\\')
    &&& !segment.contains('\0')
    &&& !drive_letter(segment)
    &&& !reserved_name(segment)
    &&& text::utf8_len(segment) <= MAX_SEGMENT_BYTES
    &&& all_allowed(segment)
}

pub open spec fn all_safe(segments: Seq<Seq<char>>) -> bool {
    forall|i: int| 0 <= i < segments.len() ==> safe_segment(#[trigger] segments[i])
}

/// A relative path that an action may be submitted at.
pub open spec fn safe_rel_path(path: Seq<char>) -> bool {
    let p = text::trim_both(path, Edge::Slash);
    p.len() > 0 && all_safe(text::split(p, '/'))
}

pub open spec fn handle_char(c: char) -> bool {
    text::is_ascii_alnum(c) || c == '_' || c == '-' || c == '.'
}

/// The form of a paging handle: `ph_` and characters of a small alphabet.
pub open spec fn handle_format(handle_id: Seq<char>) -> bool {
    &&& text::begins(handle_id, "ph_"@)
    &&& forall|i: int| 0 <= i < handle_id.len() ==> handle_char(#[trigger] handle_id[i])
}

/// The 64-bit FNV-1a hash of `input`.
pub fn fnv1a_64(input: &[u8]) -> (r: u64)
    ensures
        r == fnv1a(input@),
{
    let mut hash: u64 = FNV_OFFSET_BASIS;
    let mut i: usize = 0;
    while i < input.len()
        invariant
            i <= input@.len(),
            hash == fnv1a(input@.take(i as int)),
        decreases input@.len() - i,
    {
        assert(input@.take(i + 1).drop_last() =~= input@.take(i as int));
        hash = (hash ^ (input[i] as u64)).wrapping_mul(FNV_PRIME);
        i = i + 1;
    }
    assert(input@.take(i as int) =~= input@);
    hash
}

/// Appending what fits of the rest to what fit before gives what fits of the
/// whole, where all of the front fits.
proof fn lemma_fitting_step(s: Seq<char>, n: int, budget: int)
    requires
        0 <= n <= s.len(),
        text::utf8_len(s.take(n)) <= budget,
    ensures
        fitting(s, budget) == s.take(n) + fitting(s.skip(n), budget - text::utf8_len(s.take(n))),
    decreases n,
{
    if n == 0 {
        assert(s.skip(0) =~= s);
        assert(encode_utf8(s.take(0)).len() == 0);
        assert(s.take(0) + fitting(s, budget) =~= fitting(s, budget));
    } else {
        let c = s[0];
        let rest = s.drop_first();
        assert(s.take(n) =~= seq![c] + rest.take(n - 1));
        text::lemma_utf8_concat(seq![c], rest.take(n - 1));
        text::lemma_char_width(c);
        lemma_fitting_step(rest, n - 1, budget - text::char_width(c));
        assert(rest.skip(n - 1) =~= s.skip(n));
        assert(fitting(s, budget) =~= s.take(n) + fitting(
            s.skip(n),
            budget - text::utf8_len(s.take(n)),
        ));
    }
}

/// What fits takes no more than the budget.
proof fn lemma_fitting_bound(s: Seq<char>, budget: int)
    requires
        budget >= 0,
    ensures
        text::utf8_len(fitting(s, budget)) <= budget,
    decreases s.len(),
{
    if s.len() == 0 || text::char_width(s[0]) > budget {
        assert(encode_utf8(Seq::<char>::empty()).len() == 0);
    } else {
        let w = text::char_width(s[0]) as int;
        lemma_fitting_bound(s.drop_first(), budget - w);
        text::lemma_utf8_concat(seq![s[0]], fitting(s.drop_first(), budget - w));
        text::lemma_char_width(s[0]);
    }
}

/// The hash digits take one byte each.
proof fn lemma_hash_bytes(s: Seq<char>)
    ensures
        text::utf8_len(shorten_hash(s)) == 16,
        is_ascii_chars(shorten_hash(s)),
{
    let hash = shorten_hash(s);
    let n = fnv1a(encode_utf8(s));
    assert forall|i: int| 0 <= i < hash.len() implies (hash[i] as u32) < 128 by {
        let shift = (60 - 4 * i) as u64;
        let d = (n >> shift) & 15;
        assert(d < 16) by (bit_vector)
            requires
                d == (n >> shift) & 15,
        ;
    }
    is_ascii_chars_encode_utf8(hash);
}

/// Shortens `segment` to `max_bytes` bytes, the same way every time.
pub fn deterministic_shorten_segment(segment: &str, max_bytes: usize) -> (r: String)
    ensures
        r@ == shortened(segment@, max_bytes as int),
{
    if segment.as_bytes().len() <= max_bytes {
        return segment.to_owned();
    }
    let hash = text::hex_u64(fnv1a_64(segment.as_bytes()));
    let budget: usize = max_bytes.saturating_sub(SUFFIX_BYTES);
    let chars = text::chars_of(segment);
    let mut used: usize = 0;
    let mut n: usize = 0;
    assert(encode_utf8(chars@.take(0)).len() == 0);
    while n < chars.len()
        invariant
            n <= chars@.len(),
            used == text::utf8_len(chars@.take(n as int)),
            used <= budget,
        ensures
            n <= chars@.len(),
            used == text::utf8_len(chars@.take(n as int)),
            used <= budget,
            n == chars@.len() || used + text::char_width(chars@[n as int]) > budget,
        decreases chars@.len() - n,
    {
        let w: usize = text::width_of(chars[n]);
        if w > budget - used {
            break;
        }
        proof {
            assert(chars@.take(n + 1) =~= chars@.take(n as int) + seq![chars@[n as int]]);
            text::lemma_utf8_concat(chars@.take(n as int), seq![chars@[n as int]]);
            text::lemma_char_width(chars@[n as int]);
        }
        used = used + w;
        n = n + 1;
    }
    proof {
        lemma_fitting_step(chars@, n as int, budget as int);
        let rest = chars@.skip(n as int);
        if n < chars@.len() {
            assert(rest[0] == chars@[n as int]);
        }
        assert(chars@.take(n as int) + Seq::<char>::empty() =~= chars@.take(n as int));
        assert(fitting(chars@, budget as int) == chars@.take(n as int));
    }
    if n == 0 {
        return hash;
    }
    let mut out = text::string_of(&chars, 0, n);
    assert(out@ =~= chars@.take(n as int));
    out.push('_');
    out.append(hash.as_str());
    assert(out@ =~= shortened(segment@, max_bytes as int));
    out
}

/// The name under which the runtime keeps a paging handle.
pub fn normalize_runtime_handle_id(handle_id: &str) -> (r: String)
    ensures
        r@ == shortened(handle_id@, MAX_SEGMENT_BYTES as int),
{
    deterministic_shorten_segment(handle_id, MAX_SEGMENT_BYTES)
}

/// Whether `segment` is a placeholder of a template.
pub fn is_template_placeholder(segment: &str) -> (r: bool)
    ensures
        r == placeholder(segment@),
{
    let chars = text::chars_of(segment);
    if text::byte_len(segment) < 3 {
        return false;
    }
    if chars.len() == 0 {
        assert(encode_utf8(segment@).len() == 0);
        return false;
    }
    chars[0] == '{' && chars[chars.len() - 1] == '}'
}

/// Whether `rel_path` is an instance of `template`.
pub fn action_template_matches(template: &str, rel_path: &str) -> (r: bool)
    ensures
        r == template_matches(template@, rel_path@),
{
    let t = text::trim_edges(template, Edge::Slash);
    let p = text::trim_edges(rel_path, Edge::Slash);
    if t.as_str().is_empty() || p.as_str().is_empty() {
        return false;
    }
    let ts = text::split_on(t.as_str(), '/');
    let ps = text::split_on(p.as_str(), '/');
    let ghost tv = text::views(ts@);
    let ghost pv = text::views(ps@);
    if ts.len() != ps.len() {
        return false;
    }
    let mut i: usize = 0;
    while i < ts.len()
        invariant
            i <= ts@.len() == ps@.len(),
            tv == text::views(ts@),
            pv == text::views(ps@),
            forall|j: int| 0 <= j < i ==> #[trigger] segment_matches(tv[j], pv[j]),
            template_matches(template@, rel_path@) == segments_match(tv, pv),
        decreases ts@.len() - i,
    {
        let ok = if is_template_placeholder(ts[i].as_str()) {
            !ps[i].as_str().is_empty()
        } else {
            text::same(ts[i].as_str(), ps[i].as_str())
        };
        assert(ok == segment_matches(tv[i as int], pv[i as int]));
        if !ok {
            return false;
        }
        i = i + 1;
    }
    true
}

/// Whether `segment` starts like a Windows drive.
pub fn is_drive_letter_segment(segment: &str) -> (r: bool)
    ensures
        r == drive_letter(segment@),
{
    let chars = text::chars_of(segment);
    chars.len() >= 2 && (('a' <= chars[0] && chars[0] <= 'z') || ('A' <= chars[0] && chars[0]
        <= 'Z')) && chars[1] == ':'
}

/// Whether `segment` is a device name of Windows, in any case.
pub fn is_windows_reserved_name(segment: &str) -> (r: bool)
    ensures
        r == reserved_name(segment@),
{
    let chars = text::chars_of(segment);
    let mut up: Vec<char> = Vec::new();
    let mut i: usize = 0;
    while i < chars.len()
        invariant
            i <= chars@.len(),
            up@ == upper(chars@.take(i as int)),
        decreases chars@.len() - i,
    {
        let c = chars[i];
        let u: char = if 'a' <= c && c <= 'z' {
            (c as u8 - 32) as char
        } else {
            c
        };
        up.push(u);
        i = i + 1;
        assert(up@ =~= upper(chars@.take(i as int)));
    }
    assert(chars@.take(i as int) =~= segment@);
    let n: usize = up.len();
    let whole = text::string_of(&up, 0, n);
    assert(whole@ =~= upper(segment@));
    if text::same(whole.as_str(), "CON") || text::same(whole.as_str(), "PRN") || text::same(
        whole.as_str(),
        "AUX",
    ) || text::same(whole.as_str(), "NUL") {
        return true;
    }
    if n != 4 {
        return false;
    }
    let head = text::string_of(&up, 0, 3);
    assert(head@ =~= upper(segment@).take(3));
    (text::same(head.as_str(), "COM") || text::same(head.as_str(), "LPT")) && '1' <= up[3]
        && up[3] <= '9'
}

fn holds_char(chars: &Vec<char>, c: char) -> (r: bool)
    ensures
        r == chars@.contains(c),
{
    let mut i: usize = 0;
    while i < chars.len()
        invariant
            i <= chars@.len(),
            forall|j: int| 0 <= j < i ==> chars@[j] != c,
        decreases chars@.len() - i,
    {
        if chars[i] == c {
            return true;
        }
        i = i + 1;
    }
    false
}

/// Whether an action path may hold `segment`.
pub fn is_safe_segment(segment: &str) -> (r: bool)
    ensures
        r == safe_segment(segment@),
{
    if segment.is_empty() || text::same(segment, ".") || text::same(segment, "..") {
        return false;
    }
    let chars = text::chars_of(segment);
    if holds_char(&chars, '\\') || holds_char(&chars, '\0') {
        return false;
    }
    if is_drive_letter_segment(segment) {
        return false;
    }
    if is_windows_reserved_name(segment) {
        return false;
    }
    if text::byte_len(segment) > MAX_SEGMENT_BYTES {
        return false;
    }
    let mut i: usize = 0;
    while i < chars.len()
        invariant
            i <= chars@.len(),
            chars@ == segment@,
            forall|j: int| 0 <= j < i ==> allowed_char(#[trigger] chars@[j]),
        decreases chars@.len() - i,
    {
        let c = chars[i];
        let ok = ('a' <= c && c <= 'z') || ('A' <= c && c <= 'Z') || ('0' <= c && c <= '9') || c
            == '.' || c == '_' || c == '-' || c == '~';
        if !ok {
            assert(!allowed_char(segment@[i as int]));
            return false;
        }
        i = i + 1;
    }
    true
}

/// Whether an action may be submitted at `rel_path`.
pub fn is_safe_action_rel_path(rel_path: &str) -> (r: bool)
    ensures
        r == safe_rel_path(rel_path@),
{
    let path = text::trim_edges(rel_path, Edge::Slash);
    if path.as_str().is_empty() {
        return false;
    }
    let segments = text::split_on(path.as_str(), '/');
    let ghost sv = text::views(segments@);
    let mut i: usize = 0;
    while i < segments.len()
        invariant
            i <= segments@.len(),
            sv == text::views(segments@),
            forall|j: int| 0 <= j < i ==> safe_segment(#[trigger] sv[j]),
            safe_rel_path(rel_path@) == all_safe(sv),
        decreases segments@.len() - i,
    {
        if !is_safe_segment(segments[i].as_str()) {
            assert(!safe_segment(sv[i as int]));
            return false;
        }
        i = i + 1;
    }
    true
}

/// Whether `handle_id` has the form of a paging handle.
pub fn is_handle_format_valid(handle_id: &str) -> (r: bool)
    ensures
        r == handle_format(handle_id@),
{
    if !text::starts_with(handle_id, "ph_") {
        return false;
    }
    let chars = text::chars_of(handle_id);
    let mut i: usize = 0;
    while i < chars.len()
        invariant
            i <= chars@.len(),
            chars@ == handle_id@,
            forall|j: int| 0 <= j < i ==> handle_char(#[trigger] chars@[j]),
        decreases chars@.len() - i,
    {
        let c = chars[i];
        let ok = ('a' <= c && c <= 'z') || ('A' <= c && c <= 'Z') || ('0' <= c && c <= '9') || c
            == '_' || c == '-' || c == '.';
        if !ok {
            assert(!handle_char(handle_id@[i as int]));
            return false;
        }
        i = i + 1;
    }
    true
}

/// A shortened name fits in `max_bytes`, as soon as these hold a bare hash.
pub proof fn law_shortened_is_bounded(s: Seq<char>, max_bytes: int)
    requires
        max_bytes >= 16,
    ensures
        text::utf8_len(shortened(s, max_bytes)) <= max_bytes,
{
    if text::utf8_len(s) > max_bytes {
        let budget = shorten_budget(max_bytes);
        let prefix = fitting(s, budget);
        lemma_fitting_bound(s, budget);
        lemma_hash_bytes(s);
        if prefix.len() > 0 {
            if budget == 0 {
                assert(text::char_width(s[0]) > 0);
            }
            text::lemma_utf8_concat(prefix, seq!['_']);
            text::lemma_utf8_concat(prefix + seq!['_'], shorten_hash(s));
            text::lemma_char_width('_');
        }
    }
}

/// Shortening twice is shortening once.
pub proof fn law_shortening_is_idempotent(s: Seq<char>, max_bytes: int)
    requires
        max_bytes >= 16,
    ensures
        shortened(shortened(s, max_bytes), max_bytes) == shortened(s, max_bytes),
{
    law_shortened_is_bounded(s, max_bytes);
}

/// A name that fits is kept as it is.
pub proof fn law_short_names_are_kept(s: Seq<char>, max_bytes: int)
    requires
        text::utf8_len(s) <= max_bytes,
    ensures
        shortened(s, max_bytes) == s,
{
}

/// A safe path names no parent directory, no drive and no device, holds no
/// backslash, and keeps every segment within the limit.
pub proof fn law_safe_path_stays_inside(path: Seq<char>, i: int)
    requires
        safe_rel_path(path),
        0 <= i < text::split(text::trim_both(path, Edge::Slash), '/').len(),
    ensures
        ({
            let segment = text::split(text::trim_both(path, Edge::Slash), '/')[i];
            &&& segment.len() > 0
            &&& segment != ".."@
            &&& segment != "."@
            &&& !segment.contains('\\')
            &&& !segment.contains('/')
            &&& !drive_letter(segment)
            &&& !reserved_name(segment)
            &&& text::utf8_len(segment) <= MAX_SEGMENT_BYTES
        }),
{
    text::law_split_join(text::trim_both(path, Edge::Slash), '/');
    assert(safe_segment(text::split(text::trim_both(path, Edge::Slash), '/')[i]));
}

/// Every path with a segment in it matches itself read as a template.
pub proof fn law_template_matches_itself(path: Seq<char>)
    requires
        text::trim_both(path, Edge::Slash).len() > 0,
    ensures
        template_matches(path, path),
{
    let segments = text::split(text::trim_both(path, Edge::Slash), '/');
    assert forall|i: int| 0 <= i < segments.len() implies #[trigger] segment_matches(
        segments[i],
        segments[i],
    ) by {
        if segments[i].len() == 0 {
            assert(encode_utf8(segments[i]).len() == 0);
        }
    }
}

} // verus!

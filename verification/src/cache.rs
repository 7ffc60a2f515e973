//! The response cache's rules: where entries live, what they are keyed by,
//! and how long they may be served.
//!
//! Repeating a report within the TTL should not re-query anything: the same
//! window is asked for repeatedly while a report is being written, and every
//! query costs rate limit and a visible pause. Reading and writing entries is
//! the program's business; what decides a key and a hit is here.
use vstd::prelude::*;

use crate::config::{join_path, join_path_of};
use crate::duration::Duration;
use crate::item::Kind;
use crate::kinds::kind_names;
use crate::period::TimeRange;
use crate::text::{join, join_all, opt_view, owned, push_char, push_str, sort_texts, text_le, views};
use crate::time::{instant_text, instant_to_text, Instant};

verus! {

/// Bumped when the on-disk entry shape changes, so old entries are ignored
/// rather than misread.
pub const FORMAT_VERSION: &'static str = "v1";

/// Where entries live: under `XDG_CACHE_HOME`, else under `~/.cache`; unset
/// and empty variables count as absent.
pub open spec fn cache_dir_spec(xdg: Option<Seq<char>>, home: Option<Seq<char>>) -> Option<Seq<char>> {
    let base = match xdg {
        Some(dir) if dir.len() > 0 => Some(dir),
        _ => match home {
            Some(h) if h.len() > 0 => Some(join_path(h, ".cache"@)),
            _ => None,
        },
    };
    match base {
        Some(b) => Some(join_path(join_path(b, "fin"@), "v1"@)),
        None => None,
    }
}

/// Resolves the cache directory.
///
/// Precedence: `XDG_CACHE_HOME`, then `~/.cache`.
pub fn cache_dir(xdg: Option<&str>, home: Option<&str>) -> (r: Result<String, String>)
    ensures
        match cache_dir_spec(opt_view(xdg), opt_view(home)) {
            Some(p) => r matches Ok(s) && s@ == p,
            None => r matches Err(e) && e@ == "HOME is not set"@,
        },
{
    let base = match xdg {
        Some(dir) if !dir.is_empty() => owned(dir),
        _ => match home {
            Some(h) if !h.is_empty() => join_path_of(h, ".cache"),
            _ => return Err(owned("HOME is not set")),
        },
    };
    let with_app = join_path_of(base.as_str(), "fin");
    Ok(join_path_of(with_app.as_str(), FORMAT_VERSION))
}

/// The UTF-8 encoding of a character.
pub open spec fn utf8_char(c: char) -> Seq<u8> {
    let n = c as u32 as int;
    if n < 0x80 {
        seq![n as u8]
    } else if n < 0x800 {
        seq![(0xC0 + n / 64) as u8, (0x80 + n % 64) as u8]
    } else if n < 0x10000 {
        seq![(0xE0 + n / 4096) as u8, (0x80 + (n / 64) % 64) as u8, (0x80 + n % 64) as u8]
    } else {
        seq![
            (0xF0 + n / 262144) as u8,
            (0x80 + (n / 4096) % 64) as u8,
            (0x80 + (n / 64) % 64) as u8,
            (0x80 + n % 64) as u8,
        ]
    }
}

/// The UTF-8 encoding of a text.
pub open spec fn utf8(s: Seq<char>) -> Seq<u8>
    decreases s.len(),
{
    if s.len() == 0 {
        seq![]
    } else {
        utf8(s.drop_last()) + utf8_char(s.last())
    }
}

/// The 64-bit FNV-1a hash of some bytes.
pub open spec fn fnv1a(bytes: Seq<u8>) -> u64
    decreases bytes.len(),
{
    if bytes.len() == 0 {
        0xcbf2_9ce4_8422_2325
    } else {
        vstd::wrapping::u64_specs::wrapping_mul(fnv1a(bytes.drop_last()) ^ (bytes.last() as u64), 0x0000_0100_0000_01b3)
    }
}

/// A hexadecimal digit, in lower case.
pub open spec fn hex_digit(d: nat) -> char {
    if d < 10 {
        (('0' as u32) + d) as char
    } else {
        (('a' as u32) + d - 10) as char
    }
}

/// The last `width` hexadecimal digits of `n`, zero-padded.
pub open spec fn hex(n: nat, width: nat) -> Seq<char>
    decreases width,
{
    if width == 0 {
        seq![]
    } else {
        hex(n / 16, (width - 1) as nat).push(hex_digit(n % 16))
    }
}

/// The bytes of a character in UTF-8.
fn push_utf8(out: &mut Vec<u8>, c: char)
    ensures
        final(out)@ == old(out)@ + utf8_char(c),
{
    let n = c as u32;
    if n < 0x80 {
        out.push(n as u8);
    } else if n < 0x800 {
        out.push((0xC0 + n / 64) as u8);
        out.push((0x80 + n % 64) as u8);
    } else if n < 0x10000 {
        out.push((0xE0 + n / 4096) as u8);
        out.push((0x80 + (n / 64) % 64) as u8);
        out.push((0x80 + n % 64) as u8);
    } else {
        assert(n <= 0x10FFFF);
        out.push((0xF0 + n / 262144) as u8);
        out.push((0x80 + (n / 4096) % 64) as u8);
        out.push((0x80 + (n / 64) % 64) as u8);
        out.push((0x80 + n % 64) as u8);
    }
}

/// FNV-1a, 64-bit, as 16 hexadecimal digits. Chosen over the standard
/// hasher because the digest must stay identical across builds for entries
/// to survive an upgrade.
pub fn fnv1a_hex(input: &str) -> (r: String)
    ensures
        r@ == hex(fnv1a(utf8(input@)) as nat, 16),
{
    let chars = crate::text::chars_of(input);
    let mut bytes: Vec<u8> = Vec::new();
    let mut i: usize = 0;
    while i < chars.len()
        invariant
            i <= chars@.len(),
            bytes@ == utf8(chars@.take(i as int)),
        decreases chars.len() - i,
    {
        assert(chars@.take(i + 1).drop_last() == chars@.take(i as int));
        push_utf8(&mut bytes, chars[i]);
        i += 1;
    }
    assert(chars@.take(chars@.len() as int) == chars@);
    let mut hash: u64 = 0xcbf2_9ce4_8422_2325;
    let mut j: usize = 0;
    while j < bytes.len()
        invariant
            j <= bytes@.len(),
            hash == fnv1a(bytes@.take(j as int)),
        decreases bytes.len() - j,
    {
        assert(bytes@.take(j + 1).drop_last() == bytes@.take(j as int));
        hash = hash ^ (bytes[j] as u64);
        hash = hash.wrapping_mul(0x0000_0100_0000_01b3);
        j += 1;
    }
    assert(bytes@.take(bytes@.len() as int) == bytes@);
    let mut digits: Vec<char> = Vec::new();
    let mut rest: u64 = hash;
    let mut k: usize = 0;
    while k < 16
        invariant
            k <= 16,
            digits@.len() == k,
            hex(hash as nat, 16) == hex(rest as nat, (16 - k) as nat) + digits@,
        decreases 16 - k,
    {
        let d = rest % 16;
        let c = if d < 10 { ((('0' as u8) + (d as u8)) as char) } else { ((('a' as u8) + (d as u8) - 10) as char) };
        assert(c == hex_digit(d as nat));
        assert(hex(rest as nat, (16 - k) as nat) == hex((rest / 16) as nat, (16 - k - 1) as nat).push(c));
        let ghost before = digits@;
        digits.insert(0, c);
        assert(hex((rest / 16) as nat, (16 - k - 1) as nat).push(c) + before =~= hex((rest / 16) as nat, (16 - k - 1) as nat) + digits@);
        rest = rest / 16;
        k += 1;
    }
    let mut r = String::new();
    let mut m: usize = 0;
    while m < digits.len()
        invariant
            m <= digits@.len(),
            r@ == digits@.take(m as int),
        decreases digits.len() - m,
    {
        push_char(&mut r, digits[m]);
        assert(digits@.take(m + 1) == digits@.take(m as int).push(digits@[m as int]));
        m += 1;
    }
    assert(digits@.take(digits@.len() as int) == digits@);
    assert(hex(rest as nat, 0) == Seq::<char>::empty());
    assert(hex(hash as nat, 16) =~= digits@);
    r
}

/// The kinds in text order: the one arrangement that is sorted and holds
/// each of them as often as the list does.
pub open spec fn sorted_kinds(kinds: Seq<Kind>) -> Seq<Seq<char>> {
    choose|s: Seq<Seq<char>>|
        #![trigger s.to_multiset()]
        vstd::relations::sorted_by(s, |a: Seq<char>, b: Seq<char>| text_le(a, b)) && s.to_multiset()
            == kind_names(kinds).to_multiset()
}

/// What a key is derived from: the source, its settings' fingerprint, the
/// window's start, its end unless the window is open-ended, and the kinds in
/// text order, separated by the unit separator.
pub open spec fn key_material(source: Seq<char>, fingerprint: Seq<char>, range: TimeRange, kinds: Seq<Kind>) -> Seq<
    char,
> {
    let end = if range.open_ended {
        "open"@
    } else {
        instant_text(range.end.instant)
    };
    source + seq!['\u{1f}'] + fingerprint + seq!['\u{1f}'] + instant_text(range.start.instant) + seq!['\u{1f}'] + end
        + seq!['\u{1f}'] + join(sorted_kinds(kinds), ","@)
}

/// The key: the source, then the FNV-1a digest of the material.
pub open spec fn key_text(source: Seq<char>, fingerprint: Seq<char>, range: TimeRange, kinds: Seq<Kind>) -> Seq<char> {
    source + "-"@ + hex(fnv1a(utf8(key_material(source, fingerprint, range, kinds))) as nat, 16)
}

/// Derives a stable cache key from the inputs that change a result.
///
/// An open-ended window contributes only its start: its end is the current
/// moment and would make every key unique, defeating the cache entirely. The
/// TTL is what bounds staleness in that case.
pub fn key(source: &crate::item::SourceId, fingerprint: &str, range: &TimeRange, kinds: &[Kind]) -> (r: String)
    ensures
        r@ == key_text(source@, fingerprint@, *range, kinds@),
{
    let mut names: Vec<String> = Vec::new();
    let mut i: usize = 0;
    while i < kinds.len()
        invariant
            i <= kinds@.len(),
            names@.len() == i,
            forall|k: int| 0 <= k < i ==> (#[trigger] names@[k])@ == kinds@[k]@,
        decreases kinds.len() - i,
    {
        names.push(owned(kinds[i].as_str()));
        i += 1;
    }
    assert(views(names@) =~= kind_names(kinds@));
    sort_texts(&mut names);
    proof {
        crate::text::lemma_text_le_total_ordering();
        vstd::seq_lib::lemma_sorted_unique(
            views(names@),
            sorted_kinds(kinds@),
            |a: Seq<char>, b: Seq<char>| text_le(a, b),
        );
    }
    let end = if range.open_ended {
        owned("open")
    } else {
        instant_to_text(range.end.instant)
    };
    let mut material = owned(source.as_str());
    push_char(&mut material, '\u{1f}');
    push_str(&mut material, fingerprint);
    push_char(&mut material, '\u{1f}');
    push_str(&mut material, instant_to_text(range.start.instant).as_str());
    push_char(&mut material, '\u{1f}');
    push_str(&mut material, end.as_str());
    push_char(&mut material, '\u{1f}');
    push_str(&mut material, join_all(&names, ",").as_str());
    assert(views(names@) == sorted_kinds(kinds@));
    assert(end@ == if range.open_ended { "open"@ } else { instant_text(range.end.instant) });
    assert(material@ =~= key_material(source@, fingerprint@, *range, kinds@));
    let mut r = owned(source.as_str());
    push_str(&mut r, "-");
    push_str(&mut r, fnv1a_hex(material.as_str()).as_str());
    r
}

/// Two open-ended windows that start at the same instant share their keys:
/// the moving end of a window that runs up to now never reaches the key.
pub proof fn lemma_open_window_ignores_its_end(
    source: Seq<char>,
    fingerprint: Seq<char>,
    a: TimeRange,
    b: TimeRange,
    kinds: Seq<Kind>,
)
    requires
        a.open_ended,
        b.open_ended,
        a.start.instant == b.start.instant,
    ensures
        key_text(source, fingerprint, a, kinds) == key_text(source, fingerprint, b, kinds),
{
}

/// Text that holds no unit separator.
pub open spec fn unseparated(t: Seq<char>) -> bool {
    forall|i: int| 0 <= i < t.len() ==> t[i] != '\u{1f}'
}

/// A text that holds no separator can be read back from the front of a
/// separated run.
proof fn lemma_first_field(a: Seq<char>, ra: Seq<char>, b: Seq<char>, rb: Seq<char>)
    requires
        unseparated(a),
        unseparated(b),
        a + seq!['\u{1f}'] + ra == b + seq!['\u{1f}'] + rb,
    ensures
        a == b,
        ra == rb,
{
    let (x, y) = (a + seq!['\u{1f}'] + ra, b + seq!['\u{1f}'] + rb);
    if a.len() < b.len() {
        assert(x[a.len() as int] == '\u{1f}');
        assert(y[a.len() as int] == b[a.len() as int]);
    } else if b.len() < a.len() {
        assert(y[b.len() as int] == '\u{1f}');
        assert(x[b.len() as int] == a[b.len() as int]);
    }
    assert(a.len() == b.len());
    assert forall|i: int| 0 <= i < a.len() implies a[i] == b[i] by {
        assert(x[i] == a[i]);
        assert(y[i] == b[i]);
    }
    assert(a =~= b);
    assert(ra =~= x.skip(a.len() + 1int));
    assert(rb =~= y.skip(a.len() + 1int));
}

/// A window's start can be read back from the key material: for one source,
/// one fingerprint and one set of kinds, two windows whose starts are
/// written differently never share their material, so a month window and a
/// week window that started earlier never share a cache entry.
pub proof fn lemma_the_start_is_part_of_the_key(
    source: Seq<char>,
    fingerprint: Seq<char>,
    a: TimeRange,
    b: TimeRange,
    kinds: Seq<Kind>,
)
    requires
        unseparated(instant_text(a.start.instant)),
        unseparated(instant_text(b.start.instant)),
        instant_text(a.start.instant) != instant_text(b.start.instant),
    ensures
        key_material(source, fingerprint, a, kinds) != key_material(source, fingerprint, b, kinds),
{
    let p = source + seq!['\u{1f}'] + fingerprint + seq!['\u{1f}'];
    let (ta, tb) = (instant_text(a.start.instant), instant_text(b.start.instant));
    let ea = if a.open_ended { "open"@ } else { instant_text(a.end.instant) };
    let eb = if b.open_ended { "open"@ } else { instant_text(b.end.instant) };
    let k = join(sorted_kinds(kinds), ","@);
    let ra = ea + seq!['\u{1f}'] + k;
    let rb = eb + seq!['\u{1f}'] + k;
    assert(key_material(source, fingerprint, a, kinds) =~= p + (ta + seq!['\u{1f}'] + ra));
    assert(key_material(source, fingerprint, b, kinds) =~= p + (tb + seq!['\u{1f}'] + rb));
    if key_material(source, fingerprint, a, kinds) == key_material(source, fingerprint, b, kinds) {
        let (x, y) = (p + (ta + seq!['\u{1f}'] + ra), p + (tb + seq!['\u{1f}'] + rb));
        assert((ta + seq!['\u{1f}'] + ra) =~= x.skip(p.len() as int));
        assert((tb + seq!['\u{1f}'] + rb) =~= y.skip(p.len() as int));
        lemma_first_field(ta, ra, tb, rb);
    }
}

/// The field a window's end contributes to the key material.
pub open spec fn end_field(range: TimeRange) -> Seq<char> {
    if range.open_ended {
        "open"@
    } else {
        instant_text(range.end.instant)
    }
}

/// The key material names every input that changes a result: when the
/// source, the fingerprint and the written bounds hold no separator, two
/// equal materials come from the same source, fingerprint, start and end
/// (or the same open end) and the same kinds. So no two searches that could
/// answer differently share a cache entry, short of a digest collision.
pub proof fn lemma_the_key_material_names_its_inputs(
    source_a: Seq<char>,
    fingerprint_a: Seq<char>,
    a: TimeRange,
    kinds_a: Seq<Kind>,
    source_b: Seq<char>,
    fingerprint_b: Seq<char>,
    b: TimeRange,
    kinds_b: Seq<Kind>,
)
    requires
        unseparated(source_a),
        unseparated(source_b),
        unseparated(fingerprint_a),
        unseparated(fingerprint_b),
        unseparated(instant_text(a.start.instant)),
        unseparated(instant_text(b.start.instant)),
        unseparated(end_field(a)),
        unseparated(end_field(b)),
        key_material(source_a, fingerprint_a, a, kinds_a) == key_material(source_b, fingerprint_b, b, kinds_b),
    ensures
        source_a == source_b,
        fingerprint_a == fingerprint_b,
        instant_text(a.start.instant) == instant_text(b.start.instant),
        end_field(a) == end_field(b),
        join(sorted_kinds(kinds_a), ","@) == join(sorted_kinds(kinds_b), ","@),
{
    let us = seq!['\u{1f}'];
    let (ka, kb) = (join(sorted_kinds(kinds_a), ","@), join(sorted_kinds(kinds_b), ","@));
    let (ta, tb) = (instant_text(a.start.instant), instant_text(b.start.instant));
    let (ea, eb) = (end_field(a), end_field(b));
    let r3a = ea + us + ka;
    let r3b = eb + us + kb;
    let r2a = ta + us + r3a;
    let r2b = tb + us + r3b;
    let r1a = fingerprint_a + us + r2a;
    let r1b = fingerprint_b + us + r2b;
    assert(key_material(source_a, fingerprint_a, a, kinds_a) =~= source_a + us + r1a);
    assert(key_material(source_b, fingerprint_b, b, kinds_b) =~= source_b + us + r1b);
    lemma_first_field(source_a, r1a, source_b, r1b);
    lemma_first_field(fingerprint_a, r2a, fingerprint_b, r2b);
    lemma_first_field(ta, r3a, tb, r3b);
    lemma_first_field(ea, ka, eb, kb);
}

/// How freshness behaves over time: nothing is fresh under a zero lifetime;
/// under any other, an entry is fresh the moment it is written, stays fresh
/// at every moment between its writing and a later moment at which it is
/// fresh, is never fresh before it was written, and stops being fresh once
/// it is as old as its lifetime.
pub proof fn lemma_freshness_fades(fetched_at: Instant, earlier: Instant, later: Instant, ttl: Duration)
    ensures
        ttl.secs == 0 ==> !fresh(fetched_at, later, ttl),
        ttl.secs > 0 ==> fresh(fetched_at, fetched_at, ttl),
        fresh(fetched_at, later, ttl) && fetched_at.millis() <= earlier.millis() <= later.millis() ==> fresh(
            fetched_at,
            earlier,
            ttl,
        ),
        later.millis() < fetched_at.millis() ==> !fresh(fetched_at, later, ttl),
        later.millis() - fetched_at.millis() >= ttl.secs * 1000 ==> !fresh(fetched_at, later, ttl),
{
}

/// The order kinds are listed in does not change a key.
pub proof fn lemma_kind_order_does_not_change_the_key(
    source: Seq<char>,
    fingerprint: Seq<char>,
    range: TimeRange,
    a: Seq<Kind>,
    b: Seq<Kind>,
)
    requires
        kind_names(a).to_multiset() == kind_names(b).to_multiset(),
    ensures
        key_text(source, fingerprint, range, a) == key_text(source, fingerprint, range, b),
{
}

/// Whether an entry written at `fetched_at` may still be served at `now`:
/// the lifetime is not zero, and the entry is no older than the lifetime,
/// counted in whole milliseconds, and not from the future.
pub open spec fn fresh(fetched_at: Instant, now: Instant, ttl: Duration) -> bool {
    let age = now.millis() - fetched_at.millis();
    ttl.secs > 0 && 0 <= age && age < ttl.secs * 1000
}

/// Whether an entry written at `fetched_at` may still be served.
pub fn is_fresh(fetched_at: Instant, now: Instant, ttl: Duration) -> (r: bool)
    requires
        fetched_at.representable(),
        now.representable(),
    ensures
        r == fresh(fetched_at, now, ttl),
{
    if ttl.is_zero() {
        return false;
    }
    let age = now.as_millisecond() - fetched_at.as_millisecond();
    if age < 0 {
        return false;
    }
    (age as u128) < ttl.as_millis()
}

/// Where cached results are kept, and for how long they may be served.
pub struct Cache {
    dir: String,
    ttl: Duration,
}

impl Cache {
    /// The directory entries are kept in.
    pub closed spec fn directory(self) -> Seq<char> {
        self.dir@
    }

    /// How long entries may be served.
    pub closed spec fn lifetime(self) -> Duration {
        self.ttl
    }

    pub fn new(dir: String, ttl: Duration) -> (r: Cache)
        ensures
            r.directory() == dir@,
            r.lifetime() == ttl,
    {
        Cache { dir, ttl }
    }

    /// Whether the cache is in use: a zero lifetime disables it.
    pub fn enabled(&self) -> (r: bool)
        ensures
            r == (self.lifetime().secs > 0),
    {
        !self.ttl.is_zero()
    }

    pub fn dir(&self) -> (r: &str)
        ensures
            r@ == self.directory(),
    {
        self.dir.as_str()
    }

    pub fn ttl(&self) -> (r: Duration)
        ensures
            r == self.lifetime(),
    {
        self.ttl
    }

    /// The file an entry is kept in.
    pub fn path(&self, key: &str) -> (r: String)
        ensures
            r@ == join_path(self.directory(), key@ + ".json"@),
    {
        let mut name = owned(key);
        push_str(&mut name, ".json");
        join_path_of(self.dir.as_str(), name.as_str())
    }

    /// Whether an entry written at `fetched_at` may be served at `now`.
    pub fn serves(&self, fetched_at: Instant, now: Instant) -> (r: bool)
        requires
            fetched_at.representable(),
            now.representable(),
        ensures
            r == (self.lifetime().secs > 0 && fresh(fetched_at, now, self.lifetime())),
    {
        self.enabled() && is_fresh(fetched_at, now, self.ttl)
    }
}

} // verus!
